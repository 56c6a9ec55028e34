//! Signed claims carried by the stateless API credentials.
//!
//! A claims record names a player (database id and stable identifier),
//! whether the session is read-only, its validity window, and its subject
//! kind — an access token for calling the API, or a refresh token for
//! minting a new pair.  Validity is a pure function of signature and
//! expiry; nothing is stored server-side and nothing is revoked.

use vstd::prelude::*;

verus! {

use vstd::utf8::encode_utf8;

use crate::clock::now_unix_seconds;
use crate::codec::compare_bytes;
use crate::errors::InternalFault;
use crate::player_data::lemma_encode_utf8_injective;

/// The subject kind of a claims token.
#[derive(Clone, Copy, Debug, PartialEq, Eq, Structural)]
pub enum TokenKind {
    Access,
    Refresh,
}

/// A claims record: player identity, validity window, subject kind.
#[derive(Clone, Copy, Debug, PartialEq, Eq)]
pub struct GameDataToken {
    pub player_db_id: i32,
    pub player_uuid: [u8; 16],
    pub is_readonly: bool,
    pub exp: u64,
    pub iat: u64,
    pub sub: TokenKind,
}

impl GameDataToken {
    /// Builds a claims record around an explicit clock reading: issued at
    /// `now`, expiring `duration` seconds later.
    pub fn new_at(
        token_type: TokenKind,
        player_db_id: i32,
        player_uuid: [u8; 16],
        duration: u64,
        is_readonly: bool,
        now: u64,
    ) -> (r: GameDataToken)
        requires
            now + duration <= u64::MAX,
        ensures
            r == (GameDataToken {
                player_db_id,
                player_uuid,
                is_readonly,
                exp: (now + duration) as u64,
                iat: now,
                sub: token_type,
            }),
    {
        GameDataToken {
            player_db_id,
            player_uuid,
            is_readonly,
            exp: now + duration,
            iat: now,
            sub: token_type,
        }
    }

    /// Builds an access claims record from the current clock.  Fails only
    /// when the clock is unavailable or the expiry would leave the
    /// timestamp range.
    pub fn new_access(player_db_id: i32, player_uuid: [u8; 16], duration: u64, is_readonly: bool)
        -> (r: Result<GameDataToken, InternalFault>)
        ensures
            r is Ok ==> ({
                let t = r->Ok_0;
                &&& t.sub == TokenKind::Access
                &&& t.player_db_id == player_db_id
                &&& t.player_uuid == player_uuid
                &&& t.is_readonly == is_readonly
                &&& t.exp == t.iat + duration
            }),
            r is Err ==> r->Err_0 is ClockFault,
    {
        Self::new(TokenKind::Access, player_db_id, player_uuid, duration, is_readonly)
    }

    /// Builds a refresh claims record from the current clock.
    pub fn new_refresh(player_db_id: i32, player_uuid: [u8; 16], duration: u64, is_readonly: bool)
        -> (r: Result<GameDataToken, InternalFault>)
        ensures
            r is Ok ==> ({
                let t = r->Ok_0;
                &&& t.sub == TokenKind::Refresh
                &&& t.player_db_id == player_db_id
                &&& t.player_uuid == player_uuid
                &&& t.is_readonly == is_readonly
                &&& t.exp == t.iat + duration
            }),
            r is Err ==> r->Err_0 is ClockFault,
    {
        Self::new(TokenKind::Refresh, player_db_id, player_uuid, duration, is_readonly)
    }

    fn new(token_type: TokenKind, player_db_id: i32, player_uuid: [u8; 16], duration: u64, is_readonly: bool)
        -> (r: Result<GameDataToken, InternalFault>)
        ensures
            r is Ok ==> ({
                let t = r->Ok_0;
                &&& t.sub == token_type
                &&& t.player_db_id == player_db_id
                &&& t.player_uuid == player_uuid
                &&& t.is_readonly == is_readonly
                &&& t.exp == t.iat + duration
            }),
            r is Err ==> r->Err_0 is ClockFault,
    {
        let now = match now_unix_seconds() {
            Some(n) => n,
            None => {
                return Err(InternalFault::ClockFault);
            },
        };
        match now.checked_add(duration) {
            Some(_) => Ok(
                Self::new_at(token_type, player_db_id, player_uuid, duration, is_readonly, now),
            ),
            None => Err(InternalFault::ClockFault),
        }
    }
}

/// Whether a subject string names one of the two token kinds.
pub fn valid_token_type(tt: &str) -> (r: bool)
    ensures
        r == (tt@ == "access"@ || tt@ == "refresh"@),
{
    let r = compare_bytes(tt.as_bytes(), "access".as_bytes()) || compare_bytes(
        tt.as_bytes(),
        "refresh".as_bytes(),
    );
    proof {
        if encode_utf8(tt@) == encode_utf8("access"@) {
            lemma_encode_utf8_injective(tt@, "access"@);
        }
        if encode_utf8(tt@) == encode_utf8("refresh"@) {
            lemma_encode_utf8_injective(tt@, "refresh"@);
        }
    }
    r
}

/// The serde default for the read-only flag of older tokens.
pub fn default_as_false() -> (r: bool)
    ensures
        r == false,
{
    false
}

} // verus!
