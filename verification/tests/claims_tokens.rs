use base64::Engine;

use tsom_api::claims_json::{claims_json_bytes, parse_claims};
use tsom_api::errors::{ApiError, CredentialError};
use tsom_api::game_data_token::{GameDataToken, TokenKind, default_as_false, valid_token_type};
use tsom_api::game_server::refresh_access_token;
use tsom_api::jwt::{encode_jwt, validate_token, verify_at};

const SECRET: &[u8] = b"a-shared-test-secret";

fn sample_claims(sub: TokenKind) -> GameDataToken {
    GameDataToken {
        player_db_id: 77,
        player_uuid: *uuid::Uuid::parse_str("67e55044-10b1-426f-9247-bb680e5fe0c8")
            .unwrap()
            .as_bytes(),
        is_readonly: false,
        exp: 1_700_000_600,
        iat: 1_700_000_000,
        sub,
    }
}

#[test]
fn claims_json_text_is_exact() {
    let claims = sample_claims(TokenKind::Access);
    let json = claims_json_bytes(&claims);
    let expected = "{\"player_db_id\":77,\"player_uuid\":\"67e55044-10b1-426f-9247-bb680e5fe0c8\",\"is_readonly\":false,\"exp\":1700000600,\"iat\":1700000000,\"sub\":\"access\"}";
    assert_eq!(json, expected.as_bytes());
}

#[test]
fn claims_json_negative_id_and_readonly() {
    let mut claims = sample_claims(TokenKind::Refresh);
    claims.player_db_id = -5;
    claims.is_readonly = true;
    let json = claims_json_bytes(&claims);
    let text = String::from_utf8(json).unwrap();
    assert!(text.starts_with("{\"player_db_id\":-5,"));
    assert!(text.contains("\"is_readonly\":true"));
    assert!(text.ends_with("\"sub\":\"refresh\"}"));
}

#[test]
fn claims_json_round_trips_through_the_parser() {
    for sub in [TokenKind::Access, TokenKind::Refresh] {
        for db_id in [i32::MIN, -1, 0, 1, i32::MAX] {
            for flag in [false, true] {
                let mut claims = sample_claims(sub);
                claims.player_db_id = db_id;
                claims.is_readonly = flag;
                claims.exp = u64::MAX;
                let json = claims_json_bytes(&claims);
                assert_eq!(parse_claims(&json), Some(claims));
            }
        }
    }
}

#[test]
fn parser_accepts_the_older_form_without_the_flag() {
    let text = "{\"player_db_id\":77,\"player_uuid\":\"67e55044-10b1-426f-9247-bb680e5fe0c8\",\"exp\":1700000600,\"iat\":1700000000,\"sub\":\"access\"}";
    let parsed = parse_claims(text.as_bytes()).unwrap();
    assert_eq!(parsed, sample_claims(TokenKind::Access));
    assert!(!parsed.is_readonly);
}

#[test]
fn parser_rejects_malformed_claims() {
    // missing subject, leading zero, spaces, truncation, trailing bytes
    let good = String::from_utf8(claims_json_bytes(&sample_claims(TokenKind::Access))).unwrap();
    assert!(parse_claims(good.replace("\"sub\":\"access\"", "\"sub\":\"admin\"").as_bytes()).is_none());
    assert!(parse_claims(good.replace(":77,", ":077,").as_bytes()).is_none());
    assert!(parse_claims(good.replace(":77,", ": 77,").as_bytes()).is_none());
    assert!(parse_claims(&good.as_bytes()[..good.len() - 1]).is_none());
    assert!(parse_claims(format!("{good} ").as_bytes()).is_none());
    assert!(parse_claims(b"").is_none());
}

#[test]
fn issue_then_verify_returns_the_issued_claims() {
    let claims = sample_claims(TokenKind::Access);
    let token = encode_jwt(SECRET, &claims).unwrap();
    let verified = verify_at(SECRET, token.as_bytes(), TokenKind::Access, claims.exp - 10);
    assert_eq!(verified, Ok(claims));
    // still valid in the very last second of the window
    assert_eq!(verify_at(SECRET, token.as_bytes(), TokenKind::Access, claims.exp), Ok(claims));
}

#[test]
fn token_text_agrees_with_the_signing_crate() {
    let claims = sample_claims(TokenKind::Refresh);
    let token = encode_jwt(SECRET, &claims).unwrap();
    let parts: Vec<&str> = token.split('.').collect();
    assert_eq!(parts.len(), 3);
    let header = base64::engine::general_purpose::URL_SAFE_NO_PAD.decode(parts[0]).unwrap();
    assert_eq!(header, b"{\"typ\":\"JWT\",\"alg\":\"HS256\"}");
    let payload = base64::engine::general_purpose::URL_SAFE_NO_PAD.decode(parts[1]).unwrap();
    let value: serde_json::Value = serde_json::from_slice(&payload).unwrap();
    assert_eq!(value["player_db_id"], serde_json::Value::from(77));
    assert_eq!(value["sub"], serde_json::Value::from("refresh"));
    assert_eq!(value["exp"], serde_json::Value::from(1_700_000_600u64));
    let message = format!("{}.{}", parts[0], parts[1]);
    let ok = jsonwebtoken::crypto::verify(
        parts[2],
        message.as_bytes(),
        &jsonwebtoken::DecodingKey::from_secret(SECRET),
        jsonwebtoken::Algorithm::HS256,
    )
    .unwrap();
    assert!(ok);
}

#[test]
fn flipped_signature_bit_is_rejected() {
    let claims = sample_claims(TokenKind::Access);
    let token = encode_jwt(SECRET, &claims).unwrap();
    let mut bytes = token.clone().into_bytes();
    let last = bytes.len() - 1;
    bytes[last] ^= 1;
    assert_eq!(
        verify_at(SECRET, &bytes, TokenKind::Access, claims.exp - 10),
        Err(CredentialError::SignatureOrExpiryInvalid)
    );
}

#[test]
fn wrong_secret_is_rejected() {
    let claims = sample_claims(TokenKind::Access);
    let token = encode_jwt(SECRET, &claims).unwrap();
    assert_eq!(
        verify_at(b"another-secret", token.as_bytes(), TokenKind::Access, claims.exp - 10),
        Err(CredentialError::SignatureOrExpiryInvalid)
    );
}

#[test]
fn wrong_subject_kind_is_rejected() {
    let claims = sample_claims(TokenKind::Refresh);
    let token = encode_jwt(SECRET, &claims).unwrap();
    assert_eq!(
        verify_at(SECRET, token.as_bytes(), TokenKind::Access, claims.exp - 10),
        Err(CredentialError::WrongSubjectKind)
    );
}

#[test]
fn expired_token_is_rejected() {
    let claims = sample_claims(TokenKind::Access);
    let token = encode_jwt(SECRET, &claims).unwrap();
    assert_eq!(
        verify_at(SECRET, token.as_bytes(), TokenKind::Access, claims.exp + 1),
        Err(CredentialError::SignatureOrExpiryInvalid)
    );
}

#[test]
fn malformed_tokens_are_rejected() {
    let now = 1_700_000_000;
    assert_eq!(
        verify_at(SECRET, b"nonsense", TokenKind::Access, now),
        Err(CredentialError::MalformedCredential)
    );
    assert_eq!(
        verify_at(SECRET, b"a.b", TokenKind::Access, now),
        Err(CredentialError::MalformedCredential)
    );
    let claims = sample_claims(TokenKind::Access);
    let token = encode_jwt(SECRET, &claims).unwrap();
    // damaging the header demotes the token to malformed
    let mut bytes = token.into_bytes();
    bytes[0] ^= 1;
    assert_eq!(
        verify_at(SECRET, &bytes, TokenKind::Access, now),
        Err(CredentialError::MalformedCredential)
    );
}

#[test]
fn bearer_scheme_is_required() {
    let claims = sample_claims(TokenKind::Access);
    let token = encode_jwt(SECRET, &claims).unwrap();
    let now = claims.exp - 10;
    assert_eq!(
        validate_token(None, SECRET, TokenKind::Access, now),
        Err(CredentialError::MissingCredential)
    );
    assert_eq!(
        validate_token(Some(token.as_str()), SECRET, TokenKind::Access, now),
        Err(CredentialError::MalformedCredential)
    );
    let header = format!("Bearer {token}");
    assert_eq!(validate_token(Some(header.as_str()), SECRET, TokenKind::Access, now), Ok(claims));
}

#[test]
fn refresh_rotation_issues_a_fresh_pair() {
    let claims = sample_claims(TokenKind::Refresh);
    let token = encode_jwt(SECRET, &claims).unwrap();
    let header = format!("Bearer {token}");
    let now = claims.exp - 100;
    let (access, refresh) =
        refresh_access_token(SECRET, Some(header.as_str()), 600, 3600, now).unwrap();

    let access_claims = verify_at(SECRET, access.as_bytes(), TokenKind::Access, now).unwrap();
    assert_eq!(access_claims.player_db_id, claims.player_db_id);
    assert_eq!(access_claims.player_uuid, claims.player_uuid);
    assert_eq!(access_claims.iat, now);
    assert_eq!(access_claims.exp, now + 600);

    let refresh_claims = verify_at(SECRET, refresh.as_bytes(), TokenKind::Refresh, now).unwrap();
    assert_eq!(refresh_claims.exp, now + 3600);

    // the old refresh token is not invalidated: no revocation store exists
    assert_eq!(verify_at(SECRET, token.as_bytes(), TokenKind::Refresh, now), Ok(claims));
}

#[test]
fn refresh_rotation_rejects_access_tokens() {
    let claims = sample_claims(TokenKind::Access);
    let token = encode_jwt(SECRET, &claims).unwrap();
    let header = format!("Bearer {token}");
    assert_eq!(
        refresh_access_token(SECRET, Some(header.as_str()), 600, 3600, claims.exp - 100),
        Err(ApiError::Credential(CredentialError::WrongSubjectKind))
    );
    assert_eq!(
        refresh_access_token(SECRET, None, 600, 3600, claims.exp - 100),
        Err(ApiError::Credential(CredentialError::MissingCredential))
    );
}

#[test]
fn token_type_names() {
    assert!(valid_token_type("access"));
    assert!(valid_token_type("refresh"));
    assert!(!valid_token_type("admin"));
    assert!(!valid_token_type(""));
    assert!(!default_as_false());
}

#[test]
fn clock_based_constructors_stamp_the_window() {
    let uuid = [1u8; 16];
    let access = GameDataToken::new_access(5, uuid, 120, false).unwrap();
    assert_eq!(access.sub, TokenKind::Access);
    assert_eq!(access.exp, access.iat + 120);
    let refresh = GameDataToken::new_refresh(5, uuid, 240, true).unwrap();
    assert_eq!(refresh.sub, TokenKind::Refresh);
    assert!(refresh.is_readonly);
    assert_eq!(refresh.exp, refresh.iat + 240);
    let now = tsom_api::clock::now_unix_seconds().unwrap();
    // the test machine's clock is past 2024 and the stamp tracks it
    assert!(now > 1_700_000_000);
    assert!(access.iat >= 1_700_000_000);
}
