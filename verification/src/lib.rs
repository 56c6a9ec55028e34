//! Token issuance and validation core for a small game-service API.
//!
//! The crate covers the protocol logic of the service: the deterministic
//! binary framing of token records, the authenticated encryption of the
//! private part of a connection token, the issuance and verification of
//! signed claims tokens, and the developer-mode permission/key selection.
//! Network transport, persistence and configuration live outside this crate
//! and talk to it through plain values.

pub mod clock;
pub mod codec;
pub mod connection;
pub mod connection_token;
pub mod crypto;
pub mod errors;
pub mod game_data;
pub mod game_server;
pub mod claims_json;
pub mod game_data_token;
pub mod jwt;
pub mod numbers;
pub mod player_data;
pub mod players;
pub mod query_map;
pub mod resolver;
pub mod rng;
pub mod uuid_text;

use vstd::prelude::*;

verus! {

/// Version written into every connection token envelope.
pub const TOKEN_VERSION: u32 = 2;

} // verus!
