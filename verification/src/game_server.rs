//! The refresh operation of the stateless API credentials.
//!
//! Presenting a valid refresh claims token yields a freshly issued access
//! token and a freshly issued refresh token in one response.  The old
//! refresh token is not invalidated — there is no revocation store; it
//! stays independently valid until its own expiry.  That statelessness is
//! a deliberate trade-off of the design, not an oversight.

use vstd::prelude::*;

verus! {

use vstd::utf8::encode_utf8;

use crate::errors::{ApiError, CredentialError};
use crate::game_data_token::{GameDataToken, TokenKind};
use crate::jwt::{encode_jwt, spec_bearer_prefix, spec_jwt_bytes, validate_token};
use vstd::string::StringSliceAdditionalSpecFns;

/// The access claims minted for the holder of refresh claims `c`.
pub open spec fn spec_rotated_access(c: GameDataToken, now: u64, duration: u64) -> GameDataToken {
    GameDataToken {
        player_db_id: c.player_db_id,
        player_uuid: c.player_uuid,
        is_readonly: c.is_readonly,
        exp: (now + duration) as u64,
        iat: now,
        sub: TokenKind::Access,
    }
}

/// The fresh refresh claims minted for the holder of refresh claims `c`.
pub open spec fn spec_rotated_refresh(c: GameDataToken, now: u64, duration: u64) -> GameDataToken {
    GameDataToken {
        player_db_id: c.player_db_id,
        player_uuid: c.player_uuid,
        is_readonly: c.is_readonly,
        exp: (now + duration) as u64,
        iat: now,
        sub: TokenKind::Refresh,
    }
}

/// Rotates a refresh credential: checks the bearer header as a refresh
/// claims token and answers with a freshly signed access token and a
/// freshly signed refresh token for the same player, both issued at
/// `now`.
pub fn refresh_access_token(
    secret: &[u8],
    header: Option<&str>,
    access_token_duration: u64,
    refresh_token_duration: u64,
    now: u64,
) -> (r: Result<(String, String), ApiError>)
    requires
        now + access_token_duration <= u64::MAX,
        now + refresh_token_duration <= u64::MAX,
    ensures
        header is None ==> r == Err::<(String, String), ApiError>(
            ApiError::Credential(CredentialError::MissingCredential),
        ),
        (header is Some && !(header->0.spec_bytes().len() >= 7 && header->0.spec_bytes().subrange(
            0,
            7,
        ) == spec_bearer_prefix())) ==> r == Err::<(String, String), ApiError>(
            ApiError::Credential(CredentialError::MalformedCredential),
        ),
        forall|c: GameDataToken|
            (header is Some && header->0.spec_bytes().len() >= 7 && header->0.spec_bytes()
                .subrange(0, 7) == spec_bearer_prefix() && header->0.spec_bytes().skip(7)
                == #[trigger] spec_jwt_bytes(secret@, c)) ==> {
                &&& (c.sub == TokenKind::Refresh && now <= c.exp) ==> (r is Ok && encode_utf8(
                    r->Ok_0.0@,
                ) == spec_jwt_bytes(
                    secret@,
                    spec_rotated_access(c, now, access_token_duration),
                ) && encode_utf8(r->Ok_0.1@) == spec_jwt_bytes(
                    secret@,
                    spec_rotated_refresh(c, now, refresh_token_duration),
                ))
                &&& now > c.exp ==> r == Err::<(String, String), ApiError>(
                    ApiError::Credential(CredentialError::SignatureOrExpiryInvalid),
                )
                &&& (c.sub != TokenKind::Refresh && now <= c.exp) ==> r == Err::<
                    (String, String),
                    ApiError,
                >(ApiError::Credential(CredentialError::WrongSubjectKind))
            },
        r is Err ==> (r->Err_0 is Credential || r->Err_0 == ApiError::Internal(
            crate::errors::InternalFault::SigningFault,
        )),
{
    let claims = match validate_token(header, secret, TokenKind::Refresh, now) {
        Ok(c) => c,
        Err(e) => {
            return Err(ApiError::Credential(e));
        },
    };
    let access_claims = GameDataToken::new_at(
        TokenKind::Access,
        claims.player_db_id,
        claims.player_uuid,
        access_token_duration,
        claims.is_readonly,
        now,
    );
    let refresh_claims = GameDataToken::new_at(
        TokenKind::Refresh,
        claims.player_db_id,
        claims.player_uuid,
        refresh_token_duration,
        claims.is_readonly,
        now,
    );
    let access_jwt = match encode_jwt(secret, &access_claims) {
        Ok(s) => s,
        Err(e) => {
            return Err(ApiError::Internal(e));
        },
    };
    let refresh_jwt = match encode_jwt(secret, &refresh_claims) {
        Ok(s) => s,
        Err(e) => {
            return Err(ApiError::Internal(e));
        },
    };
    Ok((access_jwt, refresh_jwt))
}

} // verus!
