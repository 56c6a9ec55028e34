//! Connection tokens: the envelope that hands a client off to a game
//! server without re-authenticating there.
//!
//! An envelope carries, in clear, a protocol version, a fresh nonce, the
//! creation and expiry timestamps, a fresh pair of session keys and the
//! server address; its private part — refresh claims, API URL and player
//! snapshot — travels only sealed under the token-protection key.  The
//! clear metadata is bound into the seal's integrity tag: a consumer that
//! decrypts with any altered metadata byte is rejected by the cipher.

use vstd::prelude::*;

verus! {

use vstd::bytes::{spec_u32_to_le_bytes, spec_u64_to_le_bytes};
use vstd::utf8::encode_utf8;

use crate::TOKEN_VERSION;
use crate::clock::now_unix_seconds;
use crate::codec::{
    lemma_length_prefixed_unambiguous,
    push_bytes,
    push_length_prefixed,
    push_u32_le,
    push_u64_le,
    spec_length_prefixed,
};
use crate::crypto::{aead_open, aead_seal, spec_seal};
use crate::errors::InternalFault;
use crate::player_data::{PlayerData, lemma_encode_utf8_injective, lemma_player_data_bytes_injective};
use crate::rng::random_bytes;

/// The per-token session key pair used by the downstream transport, one key
/// per direction.  Generated fresh for every issued token, never reused.
pub struct EncryptionKeys {
    pub client_to_server: [u8; 32],
    pub server_to_client: [u8; 32],
}

impl EncryptionKeys {
    /// Draws a fresh pair from the secure random source.
    pub fn generate() -> (r: Result<EncryptionKeys, InternalFault>)
        ensures
            r is Err ==> r->Err_0 is RandomSourceFault,
    {
        let client_to_server = match random_bytes::<32>() {
            Ok(k) => k,
            Err(_) => {
                return Err(InternalFault::RandomSourceFault);
            },
        };
        let server_to_client = match random_bytes::<32>() {
            Ok(k) => k,
            Err(_) => {
                return Err(InternalFault::RandomSourceFault);
            },
        };
        Ok(EncryptionKeys { client_to_server, server_to_client })
    }
}

/// Where the client should connect with the token.
pub struct ServerAddress {
    pub address: String,
    pub port: u16,
}

impl ServerAddress {
    pub fn new(address: &str, port: u16) -> (r: ServerAddress)
        ensures
            r.address@ == address@,
            r.port == port,
    {
        ServerAddress { address: address.to_owned(), port }
    }
}

/// The confidential payload of a connection token: the refresh claims
/// string the client will present to the API, the API's URL, and the
/// player snapshot.  It exists in clear only on the issuing side.
pub struct PrivateConnectionToken {
    pub refresh_token: String,
    pub api_url: String,
    pub player_data: PlayerData,
}

impl PrivateConnectionToken {
    pub fn new(api_url: &str, refresh_token: &str, player_data: PlayerData) -> (r:
        PrivateConnectionToken)
        ensures
            r.api_url@ == api_url@,
            r.refresh_token@ == refresh_token@,
            r.player_data == player_data,
    {
        PrivateConnectionToken {
            refresh_token: refresh_token.to_owned(),
            api_url: api_url.to_owned(),
            player_data,
        }
    }

    /// Whether the payload fits the wire layout's length prefixes.
    pub open spec fn encodable(self) -> bool {
        &&& encode_utf8(self.refresh_token@).len() <= u32::MAX
        &&& encode_utf8(self.api_url@).len() <= u32::MAX
        &&& self.player_data.encodable()
    }

    /// Byte layout of the payload: length-prefixed refresh claims string,
    /// length-prefixed API URL, then the player snapshot.
    pub open spec fn spec_bytes(self) -> Seq<u8> {
        spec_length_prefixed(encode_utf8(self.refresh_token@))
            + spec_length_prefixed(encode_utf8(self.api_url@)) + self.player_data.spec_bytes()
    }

    /// Encodes the payload, exactly as `spec_bytes` lays it out.
    pub fn to_bytes(&self) -> (r: Vec<u8>)
        requires
            self.encodable(),
        ensures
            r@ == self.spec_bytes(),
    {
        let mut out: Vec<u8> = Vec::new();
        push_length_prefixed(&mut out, self.refresh_token.as_str().as_bytes());
        push_length_prefixed(&mut out, self.api_url.as_str().as_bytes());
        self.player_data.encode(&mut out);
        proof {
            assert(out@ =~= self.spec_bytes());
        }
        out
    }
}

/// A payload is recoverable from its encoding: equal encodings come only
/// from payloads whose fields agree.  Together with the seal round trip
/// this pins the decrypted payload down exactly.
pub proof fn lemma_private_token_bytes_injective(a: PrivateConnectionToken, b: PrivateConnectionToken)
    requires
        a.encodable(),
        b.encodable(),
        a.spec_bytes() == b.spec_bytes(),
    ensures
        a.refresh_token@ == b.refresh_token@,
        a.api_url@ == b.api_url@,
        a.player_data.uuid@ == b.player_data.uuid@,
        a.player_data.nickname@ == b.player_data.nickname@,
        a.player_data.permissions.deep_view() == b.player_data.permissions.deep_view(),
{
    let a_rest1 = spec_length_prefixed(encode_utf8(a.api_url@)) + a.player_data.spec_bytes();
    let b_rest1 = spec_length_prefixed(encode_utf8(b.api_url@)) + b.player_data.spec_bytes();
    assert(spec_length_prefixed(encode_utf8(a.refresh_token@)) + a_rest1 =~= a.spec_bytes());
    assert(spec_length_prefixed(encode_utf8(b.refresh_token@)) + b_rest1 =~= b.spec_bytes());
    lemma_length_prefixed_unambiguous(
        encode_utf8(a.refresh_token@),
        a_rest1,
        encode_utf8(b.refresh_token@),
        b_rest1,
    );
    lemma_encode_utf8_injective(a.refresh_token@, b.refresh_token@);
    lemma_length_prefixed_unambiguous(
        encode_utf8(a.api_url@),
        a.player_data.spec_bytes(),
        encode_utf8(b.api_url@),
        b.player_data.spec_bytes(),
    );
    lemma_encode_utf8_injective(a.api_url@, b.api_url@);
    lemma_player_data_bytes_injective(a.player_data, b.player_data);
}

/// Byte layout of the token metadata used as associated data: version,
/// expiry timestamp, then the two session keys, 76 bytes in all.
pub open spec fn spec_metadata_bytes(version: u32, expire_timestamp: u64, keys: EncryptionKeys) -> Seq<u8> {
    spec_u32_to_le_bytes(version) + spec_u64_to_le_bytes(expire_timestamp)
        + keys.client_to_server@ + keys.server_to_client@
}

/// Encodes the token metadata, exactly as `spec_metadata_bytes` lays it
/// out.
pub fn encode_metadata(version: u32, expire_timestamp: u64, keys: &EncryptionKeys) -> (r: Vec<u8>)
    ensures
        r@ == spec_metadata_bytes(version, expire_timestamp, *keys),
        r@.len() == 76,
{
    let mut out: Vec<u8> = Vec::new();
    push_u32_le(&mut out, version);
    push_u64_le(&mut out, expire_timestamp);
    push_bytes(&mut out, keys.client_to_server.as_slice());
    push_bytes(&mut out, keys.server_to_client.as_slice());
    proof {
        assert(out@ =~= spec_metadata_bytes(version, expire_timestamp, *keys));
        vstd::bytes::lemma_auto_spec_u32_to_from_le_bytes();
        vstd::bytes::lemma_auto_spec_u64_to_from_le_bytes();
    }
    out
}

/// The wire envelope of a connection token.  Created once per connect
/// request and never mutated; its validity is a pure matter of the
/// timestamps it carries.
pub struct ConnectionToken {
    pub token_version: u32,
    pub token_nonce: [u8; 24],
    pub creation_timestamp: u64,
    pub expire_timestamp: u64,
    pub encryption_keys: EncryptionKeys,
    pub game_server: ServerAddress,
    pub private_token_data: Vec<u8>,
}

impl ConnectionToken {
    /// The associated-data bytes that this token's clear metadata encodes
    /// to.
    pub open spec fn spec_metadata(self) -> Seq<u8> {
        spec_metadata_bytes(self.token_version, self.expire_timestamp, self.encryption_keys)
    }

    /// Builds a fresh connection token: reads the clock, draws session
    /// keys and a nonce, encodes the metadata and the private payload, and
    /// seals the payload under `token_key` with the metadata as associated
    /// data.
    ///
    /// On success the token is pinned down exactly: version, expiry equal
    /// to creation plus `duration`, the given server address, and a sealed
    /// payload one tag longer than the encoded plaintext.  Failures are
    /// environment faults only — an unreadable clock (or an expiry beyond
    /// the timestamp range), a failing random source, or a refusing
    /// cipher — and never yield a partial token.
    pub fn generate(
        token_key: &[u8; 32],
        duration: u64,
        server_address: ServerAddress,
        private_token: PrivateConnectionToken,
    ) -> (r: Result<ConnectionToken, InternalFault>)
        requires
            private_token.encodable(),
        ensures
            r is Ok ==> {
                let t = r->Ok_0;
                &&& t.token_version == TOKEN_VERSION
                &&& t.creation_timestamp + duration <= u64::MAX
                &&& t.expire_timestamp == t.creation_timestamp + duration
                &&& t.game_server.address@ == server_address.address@
                &&& t.game_server.port == server_address.port
                &&& t.private_token_data@ == spec_seal(
                    token_key@,
                    t.token_nonce@,
                    t.spec_metadata(),
                    private_token.spec_bytes(),
                )
                &&& t.private_token_data@.len() == private_token.spec_bytes().len() + 16
            },
            r is Err ==> (r->Err_0 is ClockFault || r->Err_0 is RandomSourceFault
                || r->Err_0 is EncryptionFault),
    {
        let now = match now_unix_seconds() {
            Some(n) => n,
            None => {
                return Err(InternalFault::ClockFault);
            },
        };
        let encryption_keys = match EncryptionKeys::generate() {
            Ok(k) => k,
            Err(e) => {
                return Err(e);
            },
        };
        let expire_timestamp = match now.checked_add(duration) {
            Some(e) => e,
            None => {
                return Err(InternalFault::ClockFault);
            },
        };
        let metadata = encode_metadata(TOKEN_VERSION, expire_timestamp, &encryption_keys);
        let token_nonce = match random_bytes::<24>() {
            Ok(n) => n,
            Err(_) => {
                return Err(InternalFault::RandomSourceFault);
            },
        };
        let payload = private_token.to_bytes();
        let private_token_data = match aead_seal(
            token_key,
            &token_nonce,
            metadata.as_slice(),
            payload,
        ) {
            Ok(sealed) => sealed,
            Err(_) => {
                return Err(InternalFault::EncryptionFault);
            },
        };
        Ok(
            ConnectionToken {
                token_version: TOKEN_VERSION,
                token_nonce,
                creation_timestamp: now,
                expire_timestamp,
                encryption_keys,
                game_server: server_address,
                private_token_data,
            },
        )
    }

    /// The consuming side of the seal: opens the private data under
    /// `token_key`, the token's nonce and its re-encoded clear metadata.
    /// Whenever the token's private data is a seal of some plaintext under
    /// exactly those values, that plaintext — and nothing else — comes
    /// back; a token whose metadata or ciphertext was altered so that the
    /// tag no longer authenticates is refused by the cipher.
    pub fn unseal_private_data(&self, token_key: &[u8; 32]) -> (r: Result<Vec<u8>, InternalFault>)
        ensures
            r is Ok ==> self.private_token_data@ == spec_seal(
                token_key@,
                self.token_nonce@,
                self.spec_metadata(),
                r->Ok_0@,
            ),
            forall|pt: Seq<u8>|
                self.private_token_data@ == #[trigger] spec_seal(
                    token_key@,
                    self.token_nonce@,
                    self.spec_metadata(),
                    pt,
                ) ==> r is Ok && r->Ok_0@ == pt,
            r is Err ==> r->Err_0 is EncryptionFault,
    {
        let metadata = encode_metadata(
            self.token_version,
            self.expire_timestamp,
            &self.encryption_keys,
        );
        let mut data: Vec<u8> = Vec::new();
        push_bytes(&mut data, self.private_token_data.as_slice());
        match aead_open(token_key, &self.token_nonce, metadata.as_slice(), data) {
            Ok(plaintext) => Ok(plaintext),
            Err(_) => Err(InternalFault::EncryptionFault),
        }
    }
}

} // verus!
