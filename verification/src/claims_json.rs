//! The JSON text form of a claims record.
//!
//! A record serializes to one object with the fields `player_db_id`,
//! `player_uuid` (hyphenated lowercase hex), `is_readonly`, `exp`, `iat`
//! and `sub` (`"access"` or `"refresh"`), in that order, with no spaces.
//! `spec_claims_json` defines that form byte by byte; the writer is proved
//! to produce it and the reader to accept exactly it — plus the older form
//! that omits `is_readonly`, which reads as `false`.

use vstd::prelude::*;

verus! {

use crate::codec::{lemma_merge11, lemma_merge13, lemma_split13, push_bytes, tag_at};
use crate::game_data_token::{GameDataToken, TokenKind};
use crate::numbers::{
    dec_at,
    i32_dec_at,
    parse_dec_i32,
    parse_dec_u64,
    push_dec_i32,
    push_dec_u64,
    spec_dec_i32,
    spec_dec_u64,
};
use crate::uuid_text::{parse_uuid_str, push_uuid_str, spec_uuid_str};

/// `{"player_db_id":`
pub open spec fn spec_tag_db_id() -> Seq<u8> {
    Seq::new(16, |i: int| if i == 0 { 123u8 } else if i == 1 { 34u8 } else if i == 2 { 112u8 } else if i == 3 { 108u8 } else if i == 4 { 97u8 } else if i == 5 { 121u8 } else if i == 6 { 101u8 } else if i == 7 { 114u8 } else if i == 8 { 95u8 } else if i == 9 { 100u8 } else if i == 10 { 98u8 } else if i == 11 { 95u8 } else if i == 12 { 105u8 } else if i == 13 { 100u8 } else if i == 14 { 34u8 } else { 58u8 })
}

/// `,"player_uuid":"`
pub open spec fn spec_tag_uuid() -> Seq<u8> {
    Seq::new(16, |i: int| if i == 0 { 44u8 } else if i == 1 { 34u8 } else if i == 2 { 112u8 } else if i == 3 { 108u8 } else if i == 4 { 97u8 } else if i == 5 { 121u8 } else if i == 6 { 101u8 } else if i == 7 { 114u8 } else if i == 8 { 95u8 } else if i == 9 { 117u8 } else if i == 10 { 117u8 } else if i == 11 { 105u8 } else if i == 12 { 100u8 } else if i == 13 { 34u8 } else if i == 14 { 58u8 } else { 34u8 })
}

/// `","is_readonly":`
pub open spec fn spec_tag_readonly() -> Seq<u8> {
    Seq::new(16, |i: int| if i == 0 { 34u8 } else if i == 1 { 44u8 } else if i == 2 { 34u8 } else if i == 3 { 105u8 } else if i == 4 { 115u8 } else if i == 5 { 95u8 } else if i == 6 { 114u8 } else if i == 7 { 101u8 } else if i == 8 { 97u8 } else if i == 9 { 100u8 } else if i == 10 { 111u8 } else if i == 11 { 110u8 } else if i == 12 { 108u8 } else if i == 13 { 121u8 } else if i == 14 { 34u8 } else { 58u8 })
}

/// `","exp":` — follows the identifier directly when `is_readonly` is
/// omitted.
pub open spec fn spec_tag_exp_direct() -> Seq<u8> {
    Seq::new(8, |i: int| if i == 0 { 34u8 } else if i == 1 { 44u8 } else if i == 2 { 34u8 } else if i == 3 { 101u8 } else if i == 4 { 120u8 } else if i == 5 { 112u8 } else if i == 6 { 34u8 } else { 58u8 })
}

/// `,"exp":`
pub open spec fn spec_tag_exp() -> Seq<u8> {
    Seq::new(7, |i: int| if i == 0 { 44u8 } else if i == 1 { 34u8 } else if i == 2 { 101u8 } else if i == 3 { 120u8 } else if i == 4 { 112u8 } else if i == 5 { 34u8 } else { 58u8 })
}

/// `,"iat":`
pub open spec fn spec_tag_iat() -> Seq<u8> {
    Seq::new(7, |i: int| if i == 0 { 44u8 } else if i == 1 { 34u8 } else if i == 2 { 105u8 } else if i == 3 { 97u8 } else if i == 4 { 116u8 } else if i == 5 { 34u8 } else { 58u8 })
}

/// `,"sub":"`
pub open spec fn spec_tag_sub() -> Seq<u8> {
    Seq::new(8, |i: int| if i == 0 { 44u8 } else if i == 1 { 34u8 } else if i == 2 { 115u8 } else if i == 3 { 117u8 } else if i == 4 { 98u8 } else if i == 5 { 34u8 } else if i == 6 { 58u8 } else { 34u8 })
}

/// `"}`
pub open spec fn spec_tag_end() -> Seq<u8> {
    Seq::new(2, |i: int| if i == 0 { 34u8 } else { 125u8 })
}

/// `true` or `false`.
pub open spec fn spec_bool_bytes(v: bool) -> Seq<u8> {
    if v {
        Seq::new(4, |i: int| if i == 0 { 116u8 } else if i == 1 { 114u8 } else if i == 2 { 117u8 } else { 101u8 })
    } else {
        Seq::new(5, |i: int| if i == 0 { 102u8 } else if i == 1 { 97u8 } else if i == 2 { 108u8 } else if i == 3 { 115u8 } else { 101u8 })
    }
}

/// `access` or `refresh`.
pub open spec fn spec_kind_bytes(k: TokenKind) -> Seq<u8> {
    match k {
        TokenKind::Access => Seq::new(6, |i: int| if i == 0 { 97u8 } else if i == 1 { 99u8 } else if i == 2 { 99u8 } else if i == 3 { 101u8 } else if i == 4 { 115u8 } else { 115u8 }),
        TokenKind::Refresh => Seq::new(7, |i: int| if i == 0 { 114u8 } else if i == 1 { 101u8 } else if i == 2 { 102u8 } else if i == 3 { 114u8 } else if i == 4 { 101u8 } else if i == 5 { 115u8 } else { 104u8 }),
    }
}

/// The JSON bytes of a claims record, every field written.
#[verifier::opaque]
pub open spec fn spec_claims_json(c: GameDataToken) -> Seq<u8> {
    spec_tag_db_id() + (spec_dec_i32(c.player_db_id) + (spec_tag_uuid() + (spec_uuid_str(
        c.player_uuid@,
    ) + (spec_tag_readonly() + (spec_bool_bytes(c.is_readonly) + (spec_tag_exp() + (spec_dec_u64(
        c.exp,
    ) + (spec_tag_iat() + (spec_dec_u64(c.iat) + (spec_tag_sub() + (spec_kind_bytes(c.sub)
        + spec_tag_end())))))))))))
}

/// The JSON bytes of a claims record with `is_readonly` omitted; only
/// records whose flag is `false` have this form.
#[verifier::opaque]
pub open spec fn spec_claims_json_compact(c: GameDataToken) -> Seq<u8> {
    spec_tag_db_id() + (spec_dec_i32(c.player_db_id) + (spec_tag_uuid() + (spec_uuid_str(
        c.player_uuid@,
    ) + (spec_tag_exp_direct() + (spec_dec_u64(c.exp) + (spec_tag_iat() + (spec_dec_u64(c.iat) + (
    spec_tag_sub() + (spec_kind_bytes(c.sub) + spec_tag_end())))))))))
}

/// Writes the JSON bytes of a claims record, exactly as
/// `spec_claims_json` lays them out.
#[verifier::rlimit(60)]
pub fn claims_json_bytes(c: &GameDataToken) -> (r: Vec<u8>)
    ensures
        r@ == spec_claims_json(*c),
{
    let t_db_id: [u8; 16] = [123, 34, 112, 108, 97, 121, 101, 114, 95, 100, 98, 95, 105, 100, 34, 58];
    let t_uuid: [u8; 16] = [44, 34, 112, 108, 97, 121, 101, 114, 95, 117, 117, 105, 100, 34, 58, 34];
    let t_readonly: [u8; 16] = [34, 44, 34, 105, 115, 95, 114, 101, 97, 100, 111, 110, 108, 121, 34, 58];
    let t_exp: [u8; 7] = [44, 34, 101, 120, 112, 34, 58];
    let t_iat: [u8; 7] = [44, 34, 105, 97, 116, 34, 58];
    let t_sub: [u8; 8] = [44, 34, 115, 117, 98, 34, 58, 34];
    let t_end: [u8; 2] = [34, 125];
    let t_true: [u8; 4] = [116, 114, 117, 101];
    let t_false: [u8; 5] = [102, 97, 108, 115, 101];
    let t_access: [u8; 6] = [97, 99, 99, 101, 115, 115];
    let t_refresh: [u8; 7] = [114, 101, 102, 114, 101, 115, 104];
    let mut out: Vec<u8> = Vec::new();
    push_bytes(&mut out, t_db_id.as_slice());
    push_dec_i32(&mut out, c.player_db_id);
    push_bytes(&mut out, t_uuid.as_slice());
    push_uuid_str(&mut out, &c.player_uuid);
    push_bytes(&mut out, t_readonly.as_slice());
    if c.is_readonly {
        push_bytes(&mut out, t_true.as_slice());
    } else {
        push_bytes(&mut out, t_false.as_slice());
    }
    push_bytes(&mut out, t_exp.as_slice());
    push_dec_u64(&mut out, c.exp);
    push_bytes(&mut out, t_iat.as_slice());
    push_dec_u64(&mut out, c.iat);
    push_bytes(&mut out, t_sub.as_slice());
    match c.sub {
        TokenKind::Access => push_bytes(&mut out, t_access.as_slice()),
        TokenKind::Refresh => push_bytes(&mut out, t_refresh.as_slice()),
    }
    push_bytes(&mut out, t_end.as_slice());
    proof {
        reveal(spec_claims_json);
        assert(t_db_id@ =~= spec_tag_db_id());
        assert(t_uuid@ =~= spec_tag_uuid());
        assert(t_readonly@ =~= spec_tag_readonly());
        assert(t_exp@ =~= spec_tag_exp());
        assert(t_iat@ =~= spec_tag_iat());
        assert(t_sub@ =~= spec_tag_sub());
        assert(t_end@ =~= spec_tag_end());
        assert(t_true@ =~= spec_bool_bytes(true));
        assert(t_false@ =~= spec_bool_bytes(false));
        assert(t_access@ =~= spec_kind_bytes(TokenKind::Access));
        assert(t_refresh@ =~= spec_kind_bytes(TokenKind::Refresh));
        assert(out@ =~= spec_claims_json(*c));
    }
    out
}

/// Start of the identifier-tag bytes within the full form.
pub open spec fn pos_uuid_tag(c: GameDataToken) -> int {
    16 + spec_dec_i32(c.player_db_id).len() as int
}

/// Start of the 36 identifier bytes.
pub open spec fn pos_uuid(c: GameDataToken) -> int {
    pos_uuid_tag(c) + 16
}

/// Start of the read-only-tag bytes (full form).
pub open spec fn pos_readonly_tag(c: GameDataToken) -> int {
    pos_uuid(c) + 36
}

/// Start of the boolean bytes (full form).
pub open spec fn pos_readonly(c: GameDataToken) -> int {
    pos_readonly_tag(c) + 16
}

/// Start of the expiry-tag bytes (full form).
pub open spec fn pos_exp_tag(c: GameDataToken) -> int {
    pos_readonly(c) + spec_bool_bytes(c.is_readonly).len() as int
}

/// Start of the expiry digits (full form).
pub open spec fn pos_exp(c: GameDataToken) -> int {
    pos_exp_tag(c) + 7
}

/// Start of the issued-at-tag bytes (full form).
pub open spec fn pos_iat_tag(c: GameDataToken) -> int {
    pos_exp(c) + spec_dec_u64(c.exp).len() as int
}

/// Start of the issued-at digits (full form).
pub open spec fn pos_iat(c: GameDataToken) -> int {
    pos_iat_tag(c) + 7
}

/// Start of the subject-tag bytes (full form).
pub open spec fn pos_sub_tag(c: GameDataToken) -> int {
    pos_iat(c) + spec_dec_u64(c.iat).len() as int
}

/// Start of the subject bytes (full form).
pub open spec fn pos_sub(c: GameDataToken) -> int {
    pos_sub_tag(c) + 8
}

/// Start of the closing bytes (full form).
pub open spec fn pos_end(c: GameDataToken) -> int {
    pos_sub(c) + spec_kind_bytes(c.sub).len() as int
}

/// Where each piece of the full JSON form of `c` stands inside it.
#[verifier::rlimit(100)]
proof fn claims_structure(b: Seq<u8>, c: GameDataToken)
    requires
        b == spec_claims_json(c),
    ensures
        b.len() == pos_end(c) + 2,
        b.subrange(0, 16) == spec_tag_db_id(),
        i32_dec_at(b, 16, c.player_db_id),
        b.subrange(pos_uuid_tag(c), pos_uuid(c)) == spec_tag_uuid(),
        b.subrange(pos_uuid(c), pos_readonly_tag(c)) == spec_uuid_str(c.player_uuid@),
        b.subrange(pos_readonly_tag(c), pos_readonly(c)) == spec_tag_readonly(),
        b.subrange(pos_readonly(c), pos_exp_tag(c)) == spec_bool_bytes(c.is_readonly),
        b.subrange(pos_exp_tag(c), pos_exp(c)) == spec_tag_exp(),
        dec_at(b, pos_exp(c), c.exp),
        b.subrange(pos_iat_tag(c), pos_iat(c)) == spec_tag_iat(),
        dec_at(b, pos_iat(c), c.iat),
        b.subrange(pos_sub_tag(c), pos_sub(c)) == spec_tag_sub(),
        b.subrange(pos_sub(c), pos_end(c)) == spec_kind_bytes(c.sub),
        b.subrange(pos_end(c), pos_end(c) + 2) == spec_tag_end(),
        b[pos_readonly_tag(c) + 3] == 105,
        b[pos_readonly(c)] == (if c.is_readonly { 116u8 } else { 102u8 }),
        b[pos_sub(c)] == (if c.sub is Access { 97u8 } else { 114u8 }),
{
    reveal(spec_claims_json);
    crate::uuid_text::lemma_uuid_str_chars(c.player_uuid@);
    lemma_split13(
        b,
        spec_tag_db_id(),
        spec_dec_i32(c.player_db_id),
        spec_tag_uuid(),
        spec_uuid_str(c.player_uuid@),
        spec_tag_readonly(),
        spec_bool_bytes(c.is_readonly),
        spec_tag_exp(),
        spec_dec_u64(c.exp),
        spec_tag_iat(),
        spec_dec_u64(c.iat),
        spec_tag_sub(),
        spec_kind_bytes(c.sub),
        spec_tag_end(),
    );
    // the bytes that close each digit run are not digits
    assert(b[pos_uuid_tag(c)] == b.subrange(pos_uuid_tag(c), pos_uuid(c))[0]);
    assert(b[pos_iat_tag(c)] == b.subrange(pos_iat_tag(c), pos_iat(c))[0]);
    assert(b[pos_sub_tag(c)] == b.subrange(pos_sub_tag(c), pos_sub(c))[0]);
    // the bytes the reader uses to tell the variants and values apart
    assert(b[pos_readonly_tag(c) + 3] == b.subrange(pos_readonly_tag(c), pos_readonly(c))[3]);
    assert(b[pos_readonly(c)] == b.subrange(pos_readonly(c), pos_exp_tag(c))[0]);
    assert(b[pos_sub(c)] == b.subrange(pos_sub(c), pos_end(c))[0]);
}

/// Reads the opening of a claims object: the object tag, the database
/// id, and the quoted identifier.  `Some((db, u, i))` leaves the reader
/// just after the identifier, at position `i`.
fn parse_claims_head(b: &[u8]) -> (r: Option<(i32, [u8; 16], usize)>)
    ensures
        r is Some ==> ({
            let (db, u, i4) = r->0;
            &&& 68 <= i4 <= b@.len()
            &&& b@.subrange(0, 16) == spec_tag_db_id()
            &&& b@.subrange(16, i4 - 52) == spec_dec_i32(db)
            &&& b@.subrange(i4 - 52, i4 - 36) == spec_tag_uuid()
            &&& b@.subrange(i4 - 36, i4 as int) == spec_uuid_str(u@)
        }),
        forall|c: GameDataToken|
            b@ == #[trigger] spec_claims_json(c) ==> r == Some(
                (c.player_db_id, c.player_uuid, pos_readonly_tag(c) as usize),
            ),
{
    let t_db_id: [u8; 16] = [123, 34, 112, 108, 97, 121, 101, 114, 95, 100, 98, 95, 105, 100, 34, 58];
    let t_uuid: [u8; 16] = [44, 34, 112, 108, 97, 121, 101, 114, 95, 117, 117, 105, 100, 34, 58, 34];
    let n = b.len();
    proof {
        assert(t_db_id@ =~= spec_tag_db_id());
        assert(t_uuid@ =~= spec_tag_uuid());
    }
    if !tag_at(b, 0, t_db_id.as_slice()) {
        proof {
            assert forall|c: GameDataToken| b@ != spec_claims_json(c) by {
                if b@ == spec_claims_json(c) {
                    claims_structure(b@, c);
                    assert(false);
                }
            }
        }
        return None;
    }
    let (player_db_id, i_uuid_tag) = match parse_dec_i32(b, 16) {
        Some(p) => p,
        None => {
            proof {
                assert forall|c: GameDataToken| b@ != spec_claims_json(c) by {
                    if b@ == spec_claims_json(c) {
                        claims_structure(b@, c);
                        assert(false);
                    }
                }
            }
            return None;
        },
    };
    if !tag_at(b, i_uuid_tag, t_uuid.as_slice()) {
        proof {
            assert forall|c: GameDataToken| b@ != spec_claims_json(c) by {
                if b@ == spec_claims_json(c) {
                    claims_structure(b@, c);
                    assert(i_uuid_tag == pos_uuid_tag(c));
                    assert(false);
                }
            }
        }
        return None;
    }
    let i_uuid = i_uuid_tag + 16;
    let player_uuid = match parse_uuid_str(b, i_uuid) {
        Some(u) => u,
        None => {
            proof {
                assert forall|c: GameDataToken| b@ != spec_claims_json(c) by {
                    if b@ == spec_claims_json(c) {
                        claims_structure(b@, c);
                        assert(i_uuid == pos_uuid(c));
                        assert(false);
                    }
                }
            }
            return None;
        },
    };
    let i_after_uuid = i_uuid + 36;
    proof {
        assert forall|c: GameDataToken| b@ == spec_claims_json(c) implies (c.player_db_id
            == player_db_id && c.player_uuid@ == player_uuid@ && pos_readonly_tag(c)
            == i_after_uuid as int) by {
            claims_structure(b@, c);
            assert(i_uuid == pos_uuid(c));
        }
        assert forall|c: GameDataToken| b@ == spec_claims_json(c) implies c.player_uuid
            == player_uuid by {
            assert(c.player_uuid@ == player_uuid@);
            assert(c.player_uuid =~= player_uuid);
        }
    }
    Some((player_db_id, player_uuid, i_after_uuid))
}

/// Reads the closing of a claims object from the expiry digits on:
/// expiry, issue time, subject kind, and the final `"}` which must end
/// the input.
fn parse_claims_tail(b: &[u8], i_exp: usize) -> (r: Option<(u64, u64, TokenKind)>)
    requires
        i_exp <= b@.len(),
    ensures
        r is Some ==> ({
            let (exp, iat, sub) = r->0;
            let i_iat_tag = i_exp + spec_dec_u64(exp).len() as int;
            let i_iat = i_iat_tag + 7;
            let i_sub_tag = i_iat + spec_dec_u64(iat).len() as int;
            let i_sub = i_sub_tag + 8;
            let i_end = i_sub + spec_kind_bytes(sub).len() as int;
            &&& b@.len() == i_end + 2
            &&& b@.subrange(i_exp as int, i_iat_tag) == spec_dec_u64(exp)
            &&& b@.subrange(i_iat_tag, i_iat) == spec_tag_iat()
            &&& b@.subrange(i_iat, i_sub_tag) == spec_dec_u64(iat)
            &&& b@.subrange(i_sub_tag, i_sub) == spec_tag_sub()
            &&& b@.subrange(i_sub, i_end) == spec_kind_bytes(sub)
            &&& b@.subrange(i_end, i_end + 2) == spec_tag_end()
        }),
        forall|c: GameDataToken|
            (b@ == #[trigger] spec_claims_json(c) && i_exp as int == pos_exp(c)) ==> r == Some(
                (c.exp, c.iat, c.sub),
            ),
{
    let t_iat: [u8; 7] = [44, 34, 105, 97, 116, 34, 58];
    let t_sub: [u8; 8] = [44, 34, 115, 117, 98, 34, 58, 34];
    let t_end: [u8; 2] = [34, 125];
    let t_access: [u8; 6] = [97, 99, 99, 101, 115, 115];
    let t_refresh: [u8; 7] = [114, 101, 102, 114, 101, 115, 104];
    let n = b.len();
    proof {
        assert(t_iat@ =~= spec_tag_iat());
        assert(t_sub@ =~= spec_tag_sub());
        assert(t_end@ =~= spec_tag_end());
        assert(t_access@ =~= spec_kind_bytes(TokenKind::Access));
        assert(t_refresh@ =~= spec_kind_bytes(TokenKind::Refresh));
    }
    let (exp, i_iat_tag) = match parse_dec_u64(b, i_exp) {
        Some(p) => p,
        None => {
            proof {
                assert forall|c: GameDataToken|
                    !(b@ == spec_claims_json(c) && i_exp as int == pos_exp(c)) by {
                    if b@ == spec_claims_json(c) && i_exp as int == pos_exp(c) {
                        claims_structure(b@, c);
                        assert(false);
                    }
                }
            }
            return None;
        },
    };
    if !tag_at(b, i_iat_tag, t_iat.as_slice()) {
        proof {
            assert forall|c: GameDataToken|
                !(b@ == spec_claims_json(c) && i_exp as int == pos_exp(c)) by {
                if b@ == spec_claims_json(c) && i_exp as int == pos_exp(c) {
                    claims_structure(b@, c);
                    assert(i_iat_tag == pos_iat_tag(c));
                    assert(false);
                }
            }
        }
        return None;
    }
    let i_iat = i_iat_tag + 7;
    let (iat, i_sub_tag) = match parse_dec_u64(b, i_iat) {
        Some(p) => p,
        None => {
            proof {
                assert forall|c: GameDataToken|
                    !(b@ == spec_claims_json(c) && i_exp as int == pos_exp(c)) by {
                    if b@ == spec_claims_json(c) && i_exp as int == pos_exp(c) {
                        claims_structure(b@, c);
                        assert(i_iat == pos_iat(c));
                        assert(false);
                    }
                }
            }
            return None;
        },
    };
    if !tag_at(b, i_sub_tag, t_sub.as_slice()) {
        proof {
            assert forall|c: GameDataToken|
                !(b@ == spec_claims_json(c) && i_exp as int == pos_exp(c)) by {
                if b@ == spec_claims_json(c) && i_exp as int == pos_exp(c) {
                    claims_structure(b@, c);
                    assert(i_iat == pos_iat(c));
                    assert(i_sub_tag == pos_sub_tag(c));
                    assert(false);
                }
            }
        }
        return None;
    }
    let i_sub = i_sub_tag + 8;
    let sub: TokenKind;
    let i_end: usize;
    if tag_at(b, i_sub, t_access.as_slice()) {
        proof {
            assert(b@[i_sub as int] == b@.subrange(i_sub as int, i_sub + 6)[0]);
        }
        sub = TokenKind::Access;
        i_end = i_sub + 6;
    } else if tag_at(b, i_sub, t_refresh.as_slice()) {
        proof {
            assert(b@[i_sub as int] == b@.subrange(i_sub as int, i_sub + 7)[0]);
        }
        sub = TokenKind::Refresh;
        i_end = i_sub + 7;
    } else {
        proof {
            assert forall|c: GameDataToken|
                !(b@ == spec_claims_json(c) && i_exp as int == pos_exp(c)) by {
                if b@ == spec_claims_json(c) && i_exp as int == pos_exp(c) {
                    claims_structure(b@, c);
                    assert(i_sub == pos_sub(c));
                    assert(b@.subrange(pos_sub(c), pos_end(c)) == spec_kind_bytes(c.sub));
                    assert(false);
                }
            }
        }
        return None;
    }
    if !tag_at(b, i_end, t_end.as_slice()) {
        proof {
            assert forall|c: GameDataToken|
                !(b@ == spec_claims_json(c) && i_exp as int == pos_exp(c)) by {
                if b@ == spec_claims_json(c) && i_exp as int == pos_exp(c) {
                    claims_structure(b@, c);
                    assert(i_sub == pos_sub(c));
                    assert(c.sub == sub);
                    assert(i_end == pos_end(c));
                    assert(false);
                }
            }
        }
        return None;
    }
    let i_total = i_end + 2;
    if i_total != n {
        proof {
            assert forall|c: GameDataToken|
                !(b@ == spec_claims_json(c) && i_exp as int == pos_exp(c)) by {
                if b@ == spec_claims_json(c) && i_exp as int == pos_exp(c) {
                    claims_structure(b@, c);
                    assert(i_sub == pos_sub(c));
                    assert(c.sub == sub);
                    assert(i_end == pos_end(c));
                    assert(false);
                }
            }
        }
        return None;
    }
    proof {
        assert(b@.subrange(i_end as int, i_end + 2) == spec_tag_end());
        assert forall|c: GameDataToken|
            b@ == spec_claims_json(c) && i_exp as int == pos_exp(c) implies (c.exp == exp && c.iat
            == iat && c.sub == sub) by {
            claims_structure(b@, c);
            assert(i_iat == pos_iat(c));
            assert(i_sub == pos_sub(c));
        }
    }
    Some((exp, iat, sub))
}

/// Reads a claims record from its JSON bytes.
///
/// `Some(c)` means the bytes are exactly the JSON form of `c` — written
/// in full, or, only when the flag is `false`, in the older form without
/// `is_readonly`.  Every record's full form is read back as that record.
#[verifier::rlimit(100)]
pub fn parse_claims(b: &[u8]) -> (r: Option<GameDataToken>)
    ensures
        r is Some ==> (b@ == spec_claims_json(r->0) || (r->0.is_readonly == false && b@
            == spec_claims_json_compact(r->0))),
        forall|c: GameDataToken| b@ == #[trigger] spec_claims_json(c) ==> r == Some(c),
{
    let t_readonly: [u8; 16] = [34, 44, 34, 105, 115, 95, 114, 101, 97, 100, 111, 110, 108, 121, 34, 58];
    let t_exp_direct: [u8; 8] = [34, 44, 34, 101, 120, 112, 34, 58];
    let t_exp: [u8; 7] = [44, 34, 101, 120, 112, 34, 58];
    let t_true: [u8; 4] = [116, 114, 117, 101];
    let t_false: [u8; 5] = [102, 97, 108, 115, 101];
    let n = b.len();
    proof {
        assert(t_readonly@ =~= spec_tag_readonly());
        assert(t_exp_direct@ =~= spec_tag_exp_direct());
        assert(t_exp@ =~= spec_tag_exp());
        assert(t_true@ =~= spec_bool_bytes(true));
        assert(t_false@ =~= spec_bool_bytes(false));
    }
    let (player_db_id, player_uuid, i_after_uuid) = match parse_claims_head(b) {
        Some(p) => p,
        None => {
            return None;
        },
    };
    let is_readonly: bool;
    let i_exp: usize;
    let compact: bool;
    if tag_at(b, i_after_uuid, t_readonly.as_slice()) {
        compact = false;
        let i_flag = i_after_uuid + 16;
        if tag_at(b, i_flag, t_true.as_slice()) {
            proof {
                assert(b@[i_flag as int] == b@.subrange(i_flag as int, i_flag + 4)[0]);
            }
            is_readonly = true;
            let i_exp_tag = i_flag + 4;
            if !tag_at(b, i_exp_tag, t_exp.as_slice()) {
                proof {
                    assert forall|c: GameDataToken| b@ != spec_claims_json(c) by {
                        if b@ == spec_claims_json(c) {
                            claims_structure(b@, c);
                            assert(i_after_uuid as int == pos_readonly_tag(c));
                            assert(c.is_readonly == true);
                            assert(i_exp_tag == pos_exp_tag(c));
                            assert(false);
                        }
                    }
                }
                return None;
            }
            i_exp = i_exp_tag + 7;
        } else if tag_at(b, i_flag, t_false.as_slice()) {
            proof {
                assert(b@[i_flag as int] == b@.subrange(i_flag as int, i_flag + 5)[0]);
            }
            is_readonly = false;
            let i_exp_tag = i_flag + 5;
            if !tag_at(b, i_exp_tag, t_exp.as_slice()) {
                proof {
                    assert forall|c: GameDataToken| b@ != spec_claims_json(c) by {
                        if b@ == spec_claims_json(c) {
                            claims_structure(b@, c);
                            assert(i_after_uuid as int == pos_readonly_tag(c));
                            assert(c.is_readonly == false);
                            assert(i_exp_tag == pos_exp_tag(c));
                            assert(false);
                        }
                    }
                }
                return None;
            }
            i_exp = i_exp_tag + 7;
        } else {
            proof {
                assert forall|c: GameDataToken| b@ != spec_claims_json(c) by {
                    if b@ == spec_claims_json(c) {
                        claims_structure(b@, c);
                        assert(i_after_uuid as int == pos_readonly_tag(c));
                        assert(i_flag as int == pos_readonly(c));
                        assert(b@.subrange(pos_readonly(c), pos_exp_tag(c)) == spec_bool_bytes(
                            c.is_readonly,
                        ));
                        assert(false);
                    }
                }
            }
            return None;
        }
    } else if tag_at(b, i_after_uuid, t_exp_direct.as_slice()) {
        proof {
            assert(b@[i_after_uuid + 3] == b@.subrange(i_after_uuid as int, i_after_uuid + 8)[3]);
            assert forall|c: GameDataToken| b@ != spec_claims_json(c) by {
                if b@ == spec_claims_json(c) {
                    claims_structure(b@, c);
                    assert(i_after_uuid as int == pos_readonly_tag(c));
                    assert(b@[pos_readonly_tag(c) + 3] == 105);
                    assert(b@[i_after_uuid + 3] == 101);
                    assert(false);
                }
            }
        }
        compact = true;
        is_readonly = false;
        i_exp = i_after_uuid + 8;
    } else {
        proof {
            assert forall|c: GameDataToken| b@ != spec_claims_json(c) by {
                if b@ == spec_claims_json(c) {
                    claims_structure(b@, c);
                    assert(i_after_uuid as int == pos_readonly_tag(c));
                    assert(false);
                }
            }
        }
        return None;
    }
    let (exp, iat, sub) = match parse_claims_tail(b, i_exp) {
        Some(p) => p,
        None => {
            proof {
                assert forall|c: GameDataToken| b@ != spec_claims_json(c) by {
                    if b@ == spec_claims_json(c) {
                        claims_structure(b@, c);
                        assert(i_exp as int == pos_exp(c));
                    }
                }
            }
            return None;
        },
    };
    let token = GameDataToken { player_db_id, player_uuid, is_readonly, exp, iat, sub };
    proof {
        // the bytes read are exactly the form of `token`
        reveal(spec_claims_json);
        reveal(spec_claims_json_compact);
        crate::uuid_text::lemma_uuid_str_chars(player_uuid@);
        if !compact {
            lemma_merge13(
                b@,
                spec_tag_db_id(),
                spec_dec_i32(player_db_id),
                spec_tag_uuid(),
                spec_uuid_str(player_uuid@),
                spec_tag_readonly(),
                spec_bool_bytes(is_readonly),
                spec_tag_exp(),
                spec_dec_u64(exp),
                spec_tag_iat(),
                spec_dec_u64(iat),
                spec_tag_sub(),
                spec_kind_bytes(sub),
                spec_tag_end(),
            );
            assert(b@ == spec_claims_json(token));
        } else {
            lemma_merge11(
                b@,
                spec_tag_db_id(),
                spec_dec_i32(player_db_id),
                spec_tag_uuid(),
                spec_uuid_str(player_uuid@),
                spec_tag_exp_direct(),
                spec_dec_u64(exp),
                spec_tag_iat(),
                spec_dec_u64(iat),
                spec_tag_sub(),
                spec_kind_bytes(sub),
                spec_tag_end(),
            );
            assert(b@ == spec_claims_json_compact(token));
        }
        // and any record with this full form is `token`
        assert forall|c: GameDataToken| b@ == spec_claims_json(c) implies c == token by {
            claims_structure(b@, c);
            if compact {
                assert(i_after_uuid as int == pos_readonly_tag(c));
                assert(b@[pos_readonly_tag(c) + 3] == 105);
                assert(b@[i_after_uuid + 3] == 101);
                assert(false);
            } else {
                assert(c.player_db_id == player_db_id);
                assert(c.player_uuid == player_uuid);
                assert(i_after_uuid as int == pos_readonly_tag(c));
                assert(c.is_readonly == is_readonly);
                assert(i_exp as int == pos_exp(c));
                assert(c.exp == exp);
                assert(c.iat == iat);
                assert(c.sub == sub);
            }
        }
    }
    Some(token)
}

} // verus!
