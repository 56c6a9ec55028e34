//! Developer-mode resolution of permissions, key and server address.
//!
//! A request flagged as developer mode bypasses the externally fetched
//! permission list and substitutes a fixed elevated set; the connection
//! token is then protected by a distinct compiled-in key, never derived
//! from request input, so that a developer-mode token is cryptographically
//! useless against a production game server — and the other way round.
//! The substitution happens before the token issuer runs; the issuer is
//! agnostic to the mode.

use vstd::prelude::*;

verus! {

use vstd::string::StringExecFns;

use crate::connection_token::ServerAddress;

/// The compiled-in key protecting developer-mode connection tokens.
pub open spec fn spec_dev_token_key() -> Seq<u8> {
    Seq::new(32, |i: int| if i == 0 { 82u8 } else if i == 1 { 123u8 } else if i == 2 { 30u8 } else if i == 3 { 114u8 } else if i == 4 { 234u8 } else if i == 5 { 222u8 } else if i == 6 { 248u8 } else if i == 7 { 55u8 } else if i == 8 { 175u8 } else if i == 9 { 122u8 } else if i == 10 { 90u8 } else if i == 11 { 41u8 } else if i == 12 { 122u8 } else if i == 13 { 191u8 } else if i == 14 { 147u8 } else if i == 15 { 162u8 } else if i == 16 { 71u8 } else if i == 17 { 167u8 } else if i == 18 { 248u8 } else if i == 19 { 104u8 } else if i == 20 { 175u8 } else if i == 21 { 138u8 } else if i == 22 { 120u8 } else if i == 23 { 62u8 } else if i == 24 { 1u8 } else if i == 25 { 217u8 } else if i == 26 { 162u8 } else if i == 27 { 159u8 } else if i == 28 { 227u8 } else if i == 29 { 222u8 } else if i == 30 { 174u8 } else { 107u8 })
}

/// The compiled-in developer key as bytes.
pub fn dev_token_key() -> (k: [u8; 32])
    ensures
        k@ == spec_dev_token_key(),
{
    let k: [u8; 32] = [82, 123, 30, 114, 234, 222, 248, 55, 175, 122, 90, 41, 122, 191, 147, 162, 71, 167, 248, 104, 175, 138, 120, 62, 1, 217, 162, 159, 227, 222, 174, 107];
    proof {
        assert(k@ =~= spec_dev_token_key());
    }
    k
}

/// Selects the key that protects the connection token: the production key
/// in normal mode, the fixed developer key in developer mode.
pub fn resolve_token_key(dev: bool, production_key: &[u8; 32]) -> (r: [u8; 32])
    ensures
        dev ==> r@ == spec_dev_token_key(),
        !dev ==> r@ == production_key@,
{
    if dev {
        dev_token_key()
    } else {
        *production_key
    }
}

/// Selects the permission list: the externally fetched list in normal
/// mode, the fixed elevated pair in developer mode.
pub fn resolve_permissions(dev: bool, fetched: Vec<String>) -> (r: Vec<String>)
    ensures
        dev ==> (r@.len() == 2 && r@[0]@ == "admin"@ && r@[1]@ == "dev"@),
        !dev ==> r == fetched,
{
    if dev {
        let mut v: Vec<String> = Vec::new();
        v.push(String::from_str("admin"));
        v.push(String::from_str("dev"));
        v
    } else {
        fetched
    }
}

/// Selects where the client is sent: the configured game server in normal
/// mode, the local machine on the same port in developer mode.
pub fn resolve_server_address(dev: bool, configured: ServerAddress) -> (r: ServerAddress)
    ensures
        dev ==> (r.address@ == "localhost"@ && r.port == configured.port),
        !dev ==> (r.address@ == configured.address@ && r.port == configured.port),
{
    if dev {
        ServerAddress::new("localhost", configured.port)
    } else {
        configured
    }
}

} // verus!
