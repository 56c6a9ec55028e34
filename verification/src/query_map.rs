//! The fixed key-to-query lookup of the data layer.
//!
//! The surrounding service prepares a small, fixed set of SQL statements.
//! Each is a text with the types of its parameters, filed under a string
//! key in a structure built once at initialization.  Lookup comes in two
//! forms: `try_prepare` reports absence, `prepare` demands presence — the
//! key set is meant to be validated once, up front.

use vstd::prelude::*;

verus! {

use vstd::utf8::encode_utf8;

use crate::codec::compare_bytes;
use crate::player_data::lemma_encode_utf8_injective;

/// The SQL parameter types the service's statements use.
#[derive(Clone, Copy, Debug, PartialEq, Eq, Structural)]
pub enum SqlType {
    Int4,
    Varchar,
    Uuid,
    Jsonb,
}

/// An SQL statement: its text and the types of its parameters.
#[derive(Clone, Debug)]
pub struct Query {
    pub text: &'static str,
    pub types: Vec<SqlType>,
}

impl Query {
    /// A statement with typed parameters.
    pub fn params(query: &'static str, types: Vec<SqlType>) -> (r: Query)
        ensures
            r.text == query,
            r.types == types,
    {
        Query { text: query, types }
    }

    /// A statement without parameters.
    pub fn new(query: &'static str) -> (r: Query)
        ensures
            r.text == query,
            r.types@ == Seq::<SqlType>::empty(),
    {
        Query { text: query, types: Vec::new() }
    }

    pub fn query(&self) -> (r: &'static str)
        ensures
            r == self.text,
    {
        self.text
    }

    pub fn types(&self) -> (r: &[SqlType])
        ensures
            r@ == self.types@,
    {
        self.types.as_slice()
    }
}

/// A fixed key-to-statement map, scanned linearly: the key set is small
/// and validated once.
pub struct ConstQueryMap {
    pub entries: Vec<(&'static str, Query)>,
}

impl ConstQueryMap {
    /// Whether some entry carries the key.
    pub open spec fn spec_has_key(self, k: Seq<char>) -> bool {
        exists|i: int| 0 <= i < self.entries@.len() && (#[trigger] self.entries@[i]).0@ == k
    }

    /// The statement filed under the first entry with the key.
    pub open spec fn spec_lookup(self, k: Seq<char>) -> Query {
        self.entries@[choose|i: int|
            0 <= i < self.entries@.len() && (#[trigger] self.entries@[i]).0@ == k && forall|j: int|
                0 <= j < i ==> (#[trigger] self.entries@[j]).0@ != k].1
    }

    pub fn new(queries: Vec<(&'static str, Query)>) -> (r: ConstQueryMap)
        ensures
            r.entries == queries,
    {
        ConstQueryMap { entries: queries }
    }

    /// Looks the key up; `None` reports that no entry carries it.
    pub fn try_prepare(&self, k: &str) -> (r: Option<&Query>)
        ensures
            r is Some <==> self.spec_has_key(k@),
            r is Some ==> exists|i: int|
                {
                    &&& 0 <= i < self.entries@.len()
                    &&& (#[trigger] self.entries@[i]).0@ == k@
                    &&& (forall|j: int| 0 <= j < i ==> (#[trigger] self.entries@[j]).0@ != k@)
                    &&& *r->0 == self.entries@[i].1
                },
    {
        let n = self.entries.len();
        let mut i: usize = 0;
        while i < n
            invariant
                i <= n,
                n == self.entries@.len(),
                forall|j: int| 0 <= j < i ==> (#[trigger] self.entries@[j]).0@ != k@,
            decreases n - i,
        {
            let matched = compare_bytes(k.as_bytes(), self.entries[i].0.as_bytes());
            proof {
                if encode_utf8(k@) == encode_utf8(self.entries@[i as int].0@) {
                    lemma_encode_utf8_injective(k@, self.entries@[i as int].0@);
                }
            }
            if matched {
                return Some(&self.entries[i].1);
            }
            i = i + 1;
        }
        proof {
            assert(!self.spec_has_key(k@));
        }
        None
    }

    /// Looks the key up; the key must be present.
    pub fn prepare(&self, k: &str) -> (r: &Query)
        requires
            self.spec_has_key(k@),
        ensures
            exists|i: int|
                {
                    &&& 0 <= i < self.entries@.len()
                    &&& (#[trigger] self.entries@[i]).0@ == k@
                    &&& (forall|j: int| 0 <= j < i ==> (#[trigger] self.entries@[j]).0@ != k@)
                    &&& *r == self.entries@[i].1
                },
    {
        let r = self.try_prepare(k);
        match r {
            Some(q) => q,
            None => {
                proof {
                    assert(false);
                }
                unreached()
            },
        }
    }
}

/// The statements the service prepares, keyed as the routes use them.
pub fn standard_queries() -> ConstQueryMap {
    let mut entries: Vec<(&'static str, Query)> = Vec::new();
    let mut t: Vec<SqlType> = Vec::new();
    t.push(SqlType::Int4);
    entries.push(("find-player-info", Query::params("SELECT uuid, nickname FROM players WHERE id = $1", t)));
    let mut t: Vec<SqlType> = Vec::new();
    t.push(SqlType::Int4);
    entries.push(("get-player-permissions", Query::params("SELECT permission FROM player_permissions WHERE player_id = $1", t)));
    let mut t: Vec<SqlType> = Vec::new();
    t.push(SqlType::Int4);
    t.push(SqlType::Int4);
    entries.push(("get-player-ship", Query::params("SELECT data FROM player_ships WHERE player_id = $1 AND slot = $2", t)));
    let mut t: Vec<SqlType> = Vec::new();
    t.push(SqlType::Int4);
    t.push(SqlType::Int4);
    t.push(SqlType::Jsonb);
    entries.push(("insert-player-ship", Query::params("INSERT INTO player_ships(player_id, slot, last_update, data) VALUES($1, $2, NOW(), $3) ON CONFLICT(player_id, slot) DO UPDATE SET last_update = NOW(), data = EXCLUDED.data", t)));
    let mut t: Vec<SqlType> = Vec::new();
    t.push(SqlType::Uuid);
    t.push(SqlType::Varchar);
    entries.push(("create-player", Query::params("INSERT INTO players(uuid, creation_time, nickname) VALUES($1, NOW(), $2) RETURNING id", t)));
    let mut t: Vec<SqlType> = Vec::new();
    t.push(SqlType::Varchar);
    t.push(SqlType::Int4);
    entries.push(("create-token", Query::params("INSERT INTO player_tokens(token, player_id) VALUES($1, $2)", t)));
    let mut t: Vec<SqlType> = Vec::new();
    t.push(SqlType::Varchar);
    entries.push(("find-token", Query::params("SELECT player_id FROM player_tokens WHERE token = $1", t)));
    let mut t: Vec<SqlType> = Vec::new();
    t.push(SqlType::Int4);
    entries.push(("update-player-connection", Query::params("UPDATE players SET last_connection_time = NOW() WHERE id = $1", t)));
    ConstQueryMap::new(entries)
}

} // verus!
