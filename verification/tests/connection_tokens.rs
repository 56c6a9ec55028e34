use base64::Engine;
use chacha20poly1305::XChaCha20Poly1305;
use chacha20poly1305::aead::{AeadInPlace, KeyInit};

use tsom_api::TOKEN_VERSION;
use tsom_api::connection_token::{ConnectionToken, PrivateConnectionToken, ServerAddress};
use tsom_api::player_data::PlayerData;
use tsom_api::resolver::{dev_token_key, resolve_permissions, resolve_server_address, resolve_token_key};

fn sample_payload() -> PrivateConnectionToken {
    let player = PlayerData::new(
        *uuid::Uuid::parse_str("67e55044-10b1-426f-9247-bb680e5fe0c8").unwrap().as_bytes(),
        "Bob".to_string(),
        vec!["play".to_string()],
    );
    PrivateConnectionToken::new("https://api.example", "rt123", player)
}

fn decrypt_with(key: &[u8; 32], token: &ConnectionToken) -> Result<Vec<u8>, chacha20poly1305::aead::Error> {
    let cipher = XChaCha20Poly1305::new(chacha20poly1305::Key::from_slice(key));
    let aad = tsom_api::connection_token::encode_metadata(
        token.token_version,
        token.expire_timestamp,
        &token.encryption_keys,
    );
    let mut buffer = token.private_token_data.clone();
    cipher.decrypt_in_place(
        chacha20poly1305::XNonce::from_slice(&token.token_nonce),
        &aad,
        &mut buffer,
    )?;
    Ok(buffer)
}

#[test]
fn generate_succeeds_with_exact_window() {
    let key = [7u8; 32];
    let token = ConnectionToken::generate(
        &key,
        900,
        ServerAddress::new("game.example", 4242),
        sample_payload(),
    )
    .unwrap();
    assert_eq!(token.token_version, TOKEN_VERSION);
    assert_eq!(token.expire_timestamp, token.creation_timestamp + 900);
    assert_eq!(token.game_server.address, "game.example");
    assert_eq!(token.game_server.port, 4242);
}

#[test]
fn generate_concrete_scenario() {
    // duration 15 s, address 127.0.0.1:7777, payload with refresh claims
    // "rt123", API URL "https://api.example", player "Bob" with one
    // permission "play"
    let key = [9u8; 32];
    let token = ConnectionToken::generate(
        &key,
        15,
        ServerAddress::new("127.0.0.1", 7777),
        sample_payload(),
    )
    .unwrap();
    assert_eq!(token.token_version, 2);
    assert_eq!(token.expire_timestamp, token.creation_timestamp + 15);
    assert_ne!(token.encryption_keys.client_to_server, [0u8; 32]);
    assert_ne!(token.encryption_keys.server_to_client, [0u8; 32]);
    assert_eq!(token.game_server.address, "127.0.0.1");
    assert_eq!(token.game_server.port, 7777);
    // length-prefixed refresh claims and URL, then the player snapshot:
    // identifier, prefixed name, count, prefixed permissions; finally the tag
    let refresh_len = "rt123".len();
    let url_len = "https://api.example".len();
    let expected = (4 + refresh_len) + (4 + url_len) + (16 + 4 + 3 + 4 + (4 + 4)) + 16;
    assert_eq!(token.private_token_data.len(), expected);
    assert_eq!(token.private_token_data.len(), 83);
}

#[test]
fn sealed_length_is_plaintext_plus_tag() {
    let key = [1u8; 32];
    let payload = sample_payload();
    let encoded_len = payload.to_bytes().len();
    let token = ConnectionToken::generate(&key, 60, ServerAddress::new("h", 1), payload).unwrap();
    assert_eq!(token.private_token_data.len(), encoded_len + 16);
}

#[test]
fn private_payload_round_trips() {
    let key = [42u8; 32];
    let payload = sample_payload();
    let expected_plaintext = payload.to_bytes();
    let token = ConnectionToken::generate(&key, 300, ServerAddress::new("srv", 2), payload).unwrap();

    // through the library's own opening path
    let opened = token.unseal_private_data(&key).unwrap();
    assert_eq!(opened, expected_plaintext);

    // and independently through the cipher crate
    let decrypted = decrypt_with(&key, &token).unwrap();
    assert_eq!(decrypted, expected_plaintext);
}

#[test]
fn encoded_payload_layout_is_exact() {
    let payload = sample_payload();
    let bytes = payload.to_bytes();
    let mut expected = Vec::new();
    expected.extend_from_slice(&(5u32.to_le_bytes()));
    expected.extend_from_slice(b"rt123");
    expected.extend_from_slice(&(19u32.to_le_bytes()));
    expected.extend_from_slice(b"https://api.example");
    expected.extend_from_slice(
        uuid::Uuid::parse_str("67e55044-10b1-426f-9247-bb680e5fe0c8").unwrap().as_bytes(),
    );
    expected.extend_from_slice(&(3u32.to_le_bytes()));
    expected.extend_from_slice(b"Bob");
    expected.extend_from_slice(&(1u32.to_le_bytes()));
    expected.extend_from_slice(&(4u32.to_le_bytes()));
    expected.extend_from_slice(b"play");
    assert_eq!(bytes, expected);
}

#[test]
fn metadata_layout_is_exact() {
    let keys = tsom_api::connection_token::EncryptionKeys {
        client_to_server: [3u8; 32],
        server_to_client: [4u8; 32],
    };
    let meta = tsom_api::connection_token::encode_metadata(2, 0x1122334455667788, &keys);
    assert_eq!(meta.len(), 76);
    assert_eq!(&meta[0..4], &2u32.to_le_bytes());
    assert_eq!(&meta[4..12], &0x1122334455667788u64.to_le_bytes());
    assert_eq!(&meta[12..44], &[3u8; 32]);
    assert_eq!(&meta[44..76], &[4u8; 32]);
}

#[test]
fn tampered_metadata_is_rejected() {
    let key = [5u8; 32];
    let token =
        ConnectionToken::generate(&key, 120, ServerAddress::new("s", 3), sample_payload()).unwrap();
    // flipping any single bit of the 76 metadata bytes must make
    // decryption fail
    let cipher = XChaCha20Poly1305::new(chacha20poly1305::Key::from_slice(&key));
    let aad = tsom_api::connection_token::encode_metadata(
        token.token_version,
        token.expire_timestamp,
        &token.encryption_keys,
    );
    for byte in 0..aad.len() {
        for bit in 0..8 {
            let mut tampered = aad.clone();
            tampered[byte] ^= 1 << bit;
            let mut buffer = token.private_token_data.clone();
            let outcome = cipher.decrypt_in_place(
                chacha20poly1305::XNonce::from_slice(&token.token_nonce),
                &tampered,
                &mut buffer,
            );
            assert!(outcome.is_err(), "bit {bit} of metadata byte {byte} went unnoticed");
        }
    }
}

#[test]
fn tampered_ciphertext_is_rejected() {
    let key = [6u8; 32];
    let token =
        ConnectionToken::generate(&key, 120, ServerAddress::new("s", 3), sample_payload()).unwrap();
    for byte in [0usize, 1, 40, token.private_token_data.len() - 1] {
        let mut tampered = token.private_token_data.clone();
        tampered[byte] ^= 1;
        let cipher = XChaCha20Poly1305::new(chacha20poly1305::Key::from_slice(&key));
        let aad = tsom_api::connection_token::encode_metadata(
            token.token_version,
            token.expire_timestamp,
            &token.encryption_keys,
        );
        let mut buffer = tampered;
        let outcome = cipher.decrypt_in_place(
            chacha20poly1305::XNonce::from_slice(&token.token_nonce),
            &aad,
            &mut buffer,
        );
        assert!(outcome.is_err());
    }
}

#[test]
fn developer_key_matches_published_constant() {
    let decoded = base64::engine::general_purpose::STANDARD
        .decode("Unsecure+Developer+Token+Giving+Admin+Perms=")
        .unwrap();
    assert_eq!(dev_token_key().to_vec(), decoded);
}

#[test]
fn developer_mode_switches_key_permissions_and_address() {
    let production = [11u8; 32];
    assert_eq!(resolve_token_key(false, &production), production);
    assert_eq!(resolve_token_key(true, &production), dev_token_key());

    let fetched = vec!["play".to_string()];
    assert_eq!(resolve_permissions(false, fetched.clone()), fetched);
    assert_eq!(resolve_permissions(true, fetched), vec!["admin".to_string(), "dev".to_string()]);

    let configured = ServerAddress::new("game.example", 9999);
    let kept = resolve_server_address(false, configured);
    assert_eq!(kept.address, "game.example");
    assert_eq!(kept.port, 9999);
    let local = resolve_server_address(true, ServerAddress::new("game.example", 9999));
    assert_eq!(local.address, "localhost");
    assert_eq!(local.port, 9999);
}

#[test]
fn developer_token_never_decrypts_under_production_key() {
    let production = [13u8; 32];
    let dev_key = dev_token_key();

    let dev_token =
        ConnectionToken::generate(&dev_key, 60, ServerAddress::new("localhost", 1), sample_payload())
            .unwrap();
    assert!(decrypt_with(&production, &dev_token).is_err());
    assert!(decrypt_with(&dev_key, &dev_token).is_ok());

    let prod_token =
        ConnectionToken::generate(&production, 60, ServerAddress::new("srv", 1), sample_payload())
            .unwrap();
    assert!(decrypt_with(&dev_key, &prod_token).is_err());
    assert!(decrypt_with(&production, &prod_token).is_ok());
}

#[test]
fn unseal_rejects_the_wrong_key() {
    let key = [21u8; 32];
    let other = [22u8; 32];
    let token =
        ConnectionToken::generate(&key, 60, ServerAddress::new("s", 1), sample_payload()).unwrap();
    assert!(token.unseal_private_data(&other).is_err());
}
