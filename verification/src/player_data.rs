//! The player identity snapshot carried inside a connection token.
//!
//! A snapshot is a 16-byte stable identifier, a display name and an ordered
//! permission list.  Its byte layout — raw identifier, length-prefixed
//! UTF-8 name, permission count, then each permission length-prefixed — is
//! defined by `spec_bytes` and proved unambiguous: equal encodings come
//! only from equal snapshots.

use vstd::prelude::*;

verus! {

use vstd::bytes::{lemma_auto_spec_u32_to_from_le_bytes, spec_u32_to_le_bytes};
use vstd::string::StringSliceAdditionalSpecFns;
use vstd::utf8::{decode_utf8, encode_utf8, encode_utf8_decode_utf8};

use crate::codec::{
    lemma_fixed_prefix_unambiguous,
    lemma_length_prefixed_unambiguous,
    push_bytes,
    push_length_prefixed,
    push_u32_le,
    spec_length_prefixed,
};

/// Identity data bound into the encrypted part of a connection token:
/// stable identifier, display name, and the resolved permission list.
pub struct PlayerData {
    pub uuid: [u8; 16],
    pub nickname: String,
    pub permissions: Vec<String>,
}

/// Byte layout of a permission list: each permission's UTF-8 bytes,
/// length-prefixed, in list order.
pub open spec fn spec_permission_list_bytes(ps: Seq<Seq<char>>) -> Seq<u8>
    decreases ps.len(),
{
    if ps.len() == 0 {
        Seq::empty()
    } else {
        spec_length_prefixed(encode_utf8(ps[0])) + spec_permission_list_bytes(ps.skip(1))
    }
}

/// Every string of the list fits behind a `u32` length prefix.
pub open spec fn permission_list_encodable(ps: Seq<Seq<char>>) -> bool {
    forall|i: int| 0 <= i < ps.len() ==> #[trigger] encode_utf8(ps[i]).len() <= u32::MAX
}

impl PlayerData {
    /// Whether the snapshot fits the wire layout's length prefixes.
    pub open spec fn encodable(self) -> bool {
        &&& encode_utf8(self.nickname@).len() <= u32::MAX
        &&& self.permissions@.len() <= u32::MAX
        &&& permission_list_encodable(self.permissions.deep_view())
    }

    /// Byte layout of the snapshot: 16-byte identifier, length-prefixed
    /// name, permission count, then the permission list.
    pub open spec fn spec_bytes(self) -> Seq<u8> {
        self.uuid@ + spec_length_prefixed(encode_utf8(self.nickname@))
            + spec_u32_to_le_bytes(self.permissions@.len() as u32)
            + spec_permission_list_bytes(self.permissions.deep_view())
    }

    pub fn new(uuid: [u8; 16], nickname: String, permissions: Vec<String>) -> (r: PlayerData)
        ensures
            r.uuid == uuid,
            r.nickname == nickname,
            r.permissions == permissions,
    {
        PlayerData { uuid, nickname, permissions }
    }

    /// Appends the snapshot's encoding to `out`.
    pub fn encode(&self, out: &mut Vec<u8>)
        requires
            self.encodable(),
        ensures
            final(out)@ == old(out)@ + self.spec_bytes(),
    {
        push_bytes(out, self.uuid.as_slice());
        push_length_prefixed(out, self.nickname.as_str().as_bytes());
        push_u32_le(out, self.permissions.len() as u32);
        let ghost all: Seq<Seq<char>> = self.permissions.deep_view();
        let ghost head: Seq<u8> = out@;
        let mut i: usize = 0;
        while i < self.permissions.len()
            invariant
                i <= self.permissions@.len(),
                all == self.permissions.deep_view(),
                permission_list_encodable(all),
                out@ == head + spec_permission_list_bytes(all.take(i as int)),
            decreases self.permissions@.len() - i,
        {
            proof {
                assert(all[i as int] == self.permissions@[i as int]@);
            }
            push_length_prefixed(out, self.permissions[i].as_str().as_bytes());
            proof {
                lemma_permission_list_bytes_push(all.take(i as int), all[i as int]);
                assert(all.take(i + 1) =~= all.take(i as int).push(all[i as int]));
            }
            i = i + 1;
        }
        proof {
            assert(all.take(all.len() as int) =~= all);
            assert(out@ =~= old(out)@ + self.spec_bytes());
        }
    }
}

/// Appending one permission extends the list's encoding by that
/// permission's length-prefixed bytes.
proof fn lemma_permission_list_bytes_push(ps: Seq<Seq<char>>, x: Seq<char>)
    ensures
        spec_permission_list_bytes(ps.push(x)) == spec_permission_list_bytes(ps)
            + spec_length_prefixed(encode_utf8(x)),
    decreases ps.len(),
{
    if ps.len() == 0 {
        assert(ps.push(x)[0] == x);
        assert(ps.push(x).skip(1) =~= Seq::<Seq<char>>::empty());
        assert(spec_permission_list_bytes(ps.push(x).skip(1))
            == spec_permission_list_bytes(Seq::<Seq<char>>::empty()));
        assert(spec_permission_list_bytes(Seq::<Seq<char>>::empty()) == Seq::<u8>::empty());
        assert(spec_permission_list_bytes(ps.push(x))
            =~= spec_length_prefixed(encode_utf8(x)));
        assert(spec_permission_list_bytes(ps) + spec_length_prefixed(encode_utf8(x))
            =~= spec_length_prefixed(encode_utf8(x)));
    } else {
        assert(ps.push(x)[0] == ps[0]);
        assert(ps.push(x).skip(1) =~= ps.skip(1).push(x));
        lemma_permission_list_bytes_push(ps.skip(1), x);
        assert(spec_permission_list_bytes(ps.push(x))
            =~= spec_permission_list_bytes(ps) + spec_length_prefixed(encode_utf8(x)));
    }
}

/// UTF-8 encoding tells strings apart: equal encodings, equal strings.
pub proof fn lemma_encode_utf8_injective(s1: Seq<char>, s2: Seq<char>)
    requires
        encode_utf8(s1) == encode_utf8(s2),
    ensures
        s1 == s2,
{
    encode_utf8_decode_utf8(s1);
    encode_utf8_decode_utf8(s2);
    assert(s1 == decode_utf8(encode_utf8(s1)));
}

/// A permission list is recoverable from its encoding: two lists of equal
/// length with equal encodings are the same list.
pub proof fn lemma_permission_list_bytes_injective(a: Seq<Seq<char>>, b: Seq<Seq<char>>)
    requires
        a.len() == b.len(),
        permission_list_encodable(a),
        permission_list_encodable(b),
        spec_permission_list_bytes(a) == spec_permission_list_bytes(b),
    ensures
        a == b,
    decreases a.len(),
{
    if a.len() == 0 {
        assert(a =~= b);
    } else {
        lemma_length_prefixed_unambiguous(
            encode_utf8(a[0]),
            spec_permission_list_bytes(a.skip(1)),
            encode_utf8(b[0]),
            spec_permission_list_bytes(b.skip(1)),
        );
        lemma_encode_utf8_injective(a[0], b[0]);
        assert forall|i: int| 0 <= i < a.skip(1).len() implies
            #[trigger] encode_utf8(a.skip(1)[i]).len() <= u32::MAX by {
            assert(a.skip(1)[i] == a[i + 1]);
        }
        assert forall|i: int| 0 <= i < b.skip(1).len() implies
            #[trigger] encode_utf8(b.skip(1)[i]).len() <= u32::MAX by {
            assert(b.skip(1)[i] == b[i + 1]);
        }
        lemma_permission_list_bytes_injective(a.skip(1), b.skip(1));
        assert forall|i: int| 0 <= i < a.len() implies a[i] == b[i] by {
            if i > 0 {
                assert(a.skip(1)[i - 1] == a[i]);
                assert(b.skip(1)[i - 1] == b[i]);
            }
        }
        assert(a =~= b);
    }
}

/// A snapshot is recoverable from its encoding: equal encodings come only
/// from snapshots whose fields agree.
pub proof fn lemma_player_data_bytes_injective(a: PlayerData, b: PlayerData)
    requires
        a.encodable(),
        b.encodable(),
        a.spec_bytes() == b.spec_bytes(),
    ensures
        a.uuid@ == b.uuid@,
        a.nickname@ == b.nickname@,
        a.permissions.deep_view() == b.permissions.deep_view(),
{
    lemma_auto_spec_u32_to_from_le_bytes();
    let a_rest1 = spec_length_prefixed(encode_utf8(a.nickname@))
        + spec_u32_to_le_bytes(a.permissions@.len() as u32)
        + spec_permission_list_bytes(a.permissions.deep_view());
    let b_rest1 = spec_length_prefixed(encode_utf8(b.nickname@))
        + spec_u32_to_le_bytes(b.permissions@.len() as u32)
        + spec_permission_list_bytes(b.permissions.deep_view());
    assert(a.uuid@ + a_rest1 =~= a.spec_bytes());
    assert(b.uuid@ + b_rest1 =~= b.spec_bytes());
    lemma_fixed_prefix_unambiguous(a.uuid@, a_rest1, b.uuid@, b_rest1);
    let a_rest2 = spec_u32_to_le_bytes(a.permissions@.len() as u32)
        + spec_permission_list_bytes(a.permissions.deep_view());
    let b_rest2 = spec_u32_to_le_bytes(b.permissions@.len() as u32)
        + spec_permission_list_bytes(b.permissions.deep_view());
    assert(spec_length_prefixed(encode_utf8(a.nickname@)) + a_rest2 =~= a_rest1);
    assert(spec_length_prefixed(encode_utf8(b.nickname@)) + b_rest2 =~= b_rest1);
    lemma_length_prefixed_unambiguous(
        encode_utf8(a.nickname@),
        a_rest2,
        encode_utf8(b.nickname@),
        b_rest2,
    );
    lemma_encode_utf8_injective(a.nickname@, b.nickname@);
    lemma_fixed_prefix_unambiguous(
        spec_u32_to_le_bytes(a.permissions@.len() as u32),
        spec_permission_list_bytes(a.permissions.deep_view()),
        spec_u32_to_le_bytes(b.permissions@.len() as u32),
        spec_permission_list_bytes(b.permissions.deep_view()),
    );
    assert(a.permissions@.len() == b.permissions@.len());
    assert(a.permissions.deep_view().len() == b.permissions.deep_view().len());
    lemma_permission_list_bytes_injective(a.permissions.deep_view(), b.permissions.deep_view());
}

} // verus!
