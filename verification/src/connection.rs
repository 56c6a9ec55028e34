//! The connect operation: everything the connect route decides once the
//! player is identified and the permissions are fetched.
//!
//! Mode resolution picks the protecting key, the permission set and the
//! target address; a fresh refresh claims token is signed and wrapped,
//! with the API URL and the player snapshot, into the encrypted part of a
//! new connection token.  The nested trust chain — a signed claims string
//! inside a sealed envelope — is deliberate defense in depth.

use vstd::prelude::*;

verus! {

use vstd::utf8::encode_utf8;

use crate::TOKEN_VERSION;
use crate::connection_token::{ConnectionToken, PrivateConnectionToken, ServerAddress};
use crate::crypto::spec_seal;
use crate::errors::InternalFault;
use crate::game_data_token::{GameDataToken, TokenKind};
use crate::jwt::{encode_jwt, spec_jwt_bytes};
use crate::player_data::{PlayerData, permission_list_encodable};
use crate::resolver::{
    resolve_permissions,
    resolve_server_address,
    resolve_token_key,
    spec_dev_token_key,
};

/// Builds the connection token a connect request is answered with.
///
/// In developer mode the fixed developer key, the fixed elevated
/// permission pair and the local address stand in for the production
/// values, and the embedded refresh claims are marked read-only.  On
/// success the envelope is pinned down: version, expiry window, resolved
/// address, and a private part sealed under the resolved key that encodes
/// a payload carrying a freshly signed refresh claims token for this
/// player.  Failures are environment faults only.
#[verifier::rlimit(30)]
pub fn game_connect(
    secret: &[u8],
    production_key: &[u8; 32],
    dev: bool,
    player_db_id: i32,
    player_uuid: [u8; 16],
    nickname: String,
    permissions: Vec<String>,
    api_url: &str,
    game_server: ServerAddress,
    refresh_token_duration: u64,
    connection_token_duration: u64,
) -> (r: Result<ConnectionToken, InternalFault>)
    requires
        encode_utf8(nickname@).len() <= u32::MAX,
        encode_utf8(api_url@).len() <= u32::MAX,
        !dev ==> permissions@.len() <= u32::MAX,
        !dev ==> permission_list_encodable(permissions.deep_view()),
    ensures
        r is Ok ==> ({
            let t = r->Ok_0;
            &&& t.token_version == TOKEN_VERSION
            &&& t.creation_timestamp + connection_token_duration <= u64::MAX
            &&& t.expire_timestamp == t.creation_timestamp + connection_token_duration
            &&& (dev ==> t.game_server.address@ == "localhost"@)
            &&& (!dev ==> t.game_server.address@ == game_server.address@)
            &&& t.game_server.port == game_server.port
            &&& exists|payload: PrivateConnectionToken, c: GameDataToken|
                #![trigger payload.spec_bytes(), spec_jwt_bytes(secret@, c)]
                {
                    &&& t.private_token_data@ == spec_seal(
                        if dev {
                            spec_dev_token_key()
                        } else {
                            production_key@
                        },
                        t.token_nonce@,
                        t.spec_metadata(),
                        payload.spec_bytes(),
                    )
                    &&& t.private_token_data@.len() == payload.spec_bytes().len() + 16
                    &&& encode_utf8(payload.refresh_token@) == spec_jwt_bytes(secret@, c)
                    &&& payload.api_url@ == api_url@
                    &&& payload.player_data.uuid@ == player_uuid@
                    &&& payload.player_data.nickname@ == nickname@
                    &&& (dev ==> payload.player_data.permissions@.len() == 2
                        && payload.player_data.permissions@[0]@ == "admin"@
                        && payload.player_data.permissions@[1]@ == "dev"@)
                    &&& (!dev ==> payload.player_data.permissions == permissions)
                    &&& c.sub == TokenKind::Refresh
                    &&& c.player_db_id == player_db_id
                    &&& c.player_uuid == player_uuid
                    &&& c.is_readonly == dev
                    &&& c.exp == c.iat + refresh_token_duration
                }
        }),
        r is Err ==> (r->Err_0 is ClockFault || r->Err_0 is RandomSourceFault || r->Err_0
            is EncryptionFault || r->Err_0 is SigningFault),
{
    let token_key = resolve_token_key(dev, production_key);
    let resolved_permissions = resolve_permissions(dev, permissions);
    let server_address = resolve_server_address(dev, game_server);
    let refresh_claims = match GameDataToken::new_refresh(
        player_db_id,
        player_uuid,
        refresh_token_duration,
        dev,
    ) {
        Ok(c) => c,
        Err(e) => {
            return Err(e);
        },
    };
    let refresh_jwt = match encode_jwt(secret, &refresh_claims) {
        Ok(s) => s,
        Err(e) => {
            return Err(e);
        },
    };
    if refresh_jwt.as_str().as_bytes().len() > 0xffff_ffffusize {
        // a signed claims string beyond the wire format's length prefix
        return Err(InternalFault::SigningFault);
    }
    let player_data = PlayerData::new(player_uuid, nickname, resolved_permissions);
    let private_token = PrivateConnectionToken::new(api_url, refresh_jwt.as_str(), player_data);
    proof {
        if dev {
            lemma_dev_permissions_encodable(private_token.player_data.permissions.deep_view());
        }
    }
    match ConnectionToken::generate(
        &token_key,
        connection_token_duration,
        server_address,
        private_token,
    ) {
        Ok(t) => Ok(t),
        Err(e) => Err(e),
    }
}

/// The fixed developer permission pair fits the wire format's length
/// prefixes.
proof fn lemma_dev_permissions_encodable(ps: Seq<Seq<char>>)
    requires
        ps.len() == 2,
        ps[0] == "admin"@,
        ps[1] == "dev"@,
    ensures
        permission_list_encodable(ps),
{
    reveal_strlit("admin");
    reveal_strlit("dev");
    assert(vstd::utf8::is_ascii_chars("admin"@)) by {
        assert("admin"@[0] == 'a' && "admin"@[1] == 'd' && "admin"@[2] == 'm' && "admin"@[3] == 'i'
            && "admin"@[4] == 'n');
    }
    assert(vstd::utf8::is_ascii_chars("dev"@)) by {
        assert("dev"@[0] == 'd' && "dev"@[1] == 'e' && "dev"@[2] == 'v');
    }
    vstd::string::is_ascii_spec_bytes("admin");
    vstd::string::is_ascii_spec_bytes("dev");
    assert(encode_utf8("admin"@).len() == 5);
    assert(encode_utf8("dev"@).len() == 3);
    assert forall|i: int| 0 <= i < ps.len() implies #[trigger] encode_utf8(ps[i]).len()
        <= u32::MAX by {
        if i == 0 {
            assert(encode_utf8(ps[0]).len() == 5);
        } else {
            assert(encode_utf8(ps[1]).len() == 3);
        }
    }
}

} // verus!
