//! Deterministic little-endian binary framing.
//!
//! Every record written by this crate is laid out field by field, in
//! declared order, with no implicit padding: integers become little-endian
//! bytes, fixed-size fields are written raw, and variable-length fields are
//! length-prefixed with a `u32`.  The spec functions here are the single
//! definition of that layout; the exec functions are proved to produce it.

use vstd::prelude::*;

verus! {

use vstd::bytes::{
    lemma_auto_spec_u32_to_from_le_bytes,
    spec_u32_to_le_bytes,
    spec_u64_to_le_bytes,
    u32_to_le_bytes,
    u64_to_le_bytes,
};

/// Byte layout of a length-prefixed field: a little-endian `u32` byte count
/// followed by the raw bytes.  Meaningful only when `b` fits in a `u32`.
pub open spec fn spec_length_prefixed(b: Seq<u8>) -> Seq<u8> {
    spec_u32_to_le_bytes(b.len() as u32) + b
}

/// Appends raw bytes to `out`.
pub fn push_bytes(out: &mut Vec<u8>, b: &[u8])
    ensures
        final(out)@ == old(out)@ + b@,
{
    let mut i: usize = 0;
    while i < b.len()
        invariant
            i <= b@.len(),
            out@ == old(out)@ + b@.subrange(0, i as int),
        decreases b@.len() - i,
    {
        out.push(b[i]);
        proof {
            assert(out@ =~= old(out)@ + b@.subrange(0, i + 1));
        }
        i = i + 1;
    }
    proof {
        assert(out@ =~= old(out)@ + b@);
    }
}

/// Appends a `u32` in little-endian order.
pub fn push_u32_le(out: &mut Vec<u8>, v: u32)
    ensures
        final(out)@ == old(out)@ + spec_u32_to_le_bytes(v),
{
    let b = u32_to_le_bytes(v);
    push_bytes(out, b.as_slice());
}

/// Appends a `u64` in little-endian order.
pub fn push_u64_le(out: &mut Vec<u8>, v: u64)
    ensures
        final(out)@ == old(out)@ + spec_u64_to_le_bytes(v),
{
    let b = u64_to_le_bytes(v);
    push_bytes(out, b.as_slice());
}

/// Appends a length-prefixed field: `u32` byte count, then the bytes.
pub fn push_length_prefixed(out: &mut Vec<u8>, b: &[u8])
    requires
        b@.len() <= u32::MAX,
    ensures
        final(out)@ == old(out)@ + spec_length_prefixed(b@),
{
    push_u32_le(out, b.len() as u32);
    push_bytes(out, b);
    proof {
        assert(out@ =~= old(out)@ + spec_length_prefixed(b@));
    }
}

/// Compares two byte strings for equality.
pub fn compare_bytes(a: &[u8], b: &[u8]) -> (r: bool)
    ensures
        r == (a@ == b@),
{
    if a.len() != b.len() {
        return false;
    }
    let mut i: usize = 0;
    while i < a.len()
        invariant
            i <= a@.len(),
            a@.len() == b@.len(),
            forall|j: int| 0 <= j < i ==> a@[j] == b@[j],
        decreases a@.len() - i,
    {
        if a[i] != b[i] {
            return false;
        }
        i = i + 1;
    }
    proof {
        assert(a@ =~= b@);
    }
    true
}

/// Whether the bytes of `tag` stand at position `i` of `b`.
pub fn tag_at(b: &[u8], i: usize, tag: &[u8]) -> (r: bool)
    requires
        i <= b@.len(),
    ensures
        r == (i + tag@.len() <= b@.len() && b@.subrange(i as int, i + tag@.len()) == tag@),
{
    if b.len() - i < tag.len() {
        return false;
    }
    compare_bytes(&b[i..i + tag.len()], tag)
}

/// Peels the first piece off a tail of `s` known to be a concatenation:
/// the piece and the rest each stand at their own places.
pub proof fn lemma_peel(s: Seq<u8>, i: int, a: Seq<u8>, r: Seq<u8>)
    requires
        0 <= i,
        i + a.len() + r.len() == s.len(),
        s.subrange(i, s.len() as int) == a + r,
    ensures
        s.subrange(i, i + a.len()) == a,
        s.subrange(i + a.len(), s.len() as int) == r,
{
    assert forall|j: int| 0 <= j < a.len() implies s.subrange(i, i + a.len())[j] == a[j] by {
        assert((a + r)[j] == a[j]);
        assert(s.subrange(i, s.len() as int)[j] == s[i + j]);
        assert(s.subrange(i, i + a.len())[j] == s[i + j]);
    }
    assert(s.subrange(i, i + a.len()) =~= a);
    assert forall|j: int| 0 <= j < r.len() implies s.subrange(i + a.len(), s.len() as int)[j]
        == r[j] by {
        assert((a + r)[a.len() + j] == r[j]);
        assert(s.subrange(i, s.len() as int)[a.len() + j] == s[i + a.len() + j]);
        assert(s.subrange(i + a.len(), s.len() as int)[j] == s[i + a.len() + j]);
    }
    assert(s.subrange(i + a.len(), s.len() as int) =~= r);
}

/// Joins a piece standing at `i` with the rest of `s` after it: together
/// they are the tail of `s` from `i`.
pub proof fn lemma_join(s: Seq<u8>, i: int, a: Seq<u8>, r: Seq<u8>)
    requires
        0 <= i,
        i + a.len() + r.len() == s.len(),
        s.subrange(i, i + a.len()) == a,
        s.subrange(i + a.len(), s.len() as int) == r,
    ensures
        s.subrange(i, s.len() as int) == a + r,
{
    assert forall|j: int| 0 <= j < a.len() + r.len() implies s.subrange(i, s.len() as int)[j] == (a
        + r)[j] by {
        assert(s.subrange(i, s.len() as int)[j] == s[i + j]);
        if j < a.len() {
            assert((a + r)[j] == a[j]);
            assert(s.subrange(i, i + a.len())[j] == s[i + j]);
        } else {
            assert((a + r)[j] == r[j - a.len()]);
            assert(s.subrange(i + a.len(), s.len() as int)[j - a.len()] == s[i + j]);
        }
    }
    assert(s.subrange(i, s.len() as int) =~= a + r);
}

/// Where each piece of a thirteen-piece concatenation stands inside it.
pub proof fn lemma_split13(
    b: Seq<u8>,
    p1: Seq<u8>,
    p2: Seq<u8>,
    p3: Seq<u8>,
    p4: Seq<u8>,
    p5: Seq<u8>,
    p6: Seq<u8>,
    p7: Seq<u8>,
    p8: Seq<u8>,
    p9: Seq<u8>,
    p10: Seq<u8>,
    p11: Seq<u8>,
    p12: Seq<u8>,
    p13: Seq<u8>,
)
    requires
        b == p1 + (p2 + (p3 + (p4 + (p5 + (p6 + (p7 + (p8 + (p9 + (p10 + (p11 + (p12 + (p13)))))))))))),
    ensures
        b.len() == p1.len() + p2.len() + p3.len() + p4.len() + p5.len() + p6.len() + p7.len() + p8.len() + p9.len() + p10.len() + p11.len() + p12.len() + p13.len(),
        b.subrange((0) as int, (p1.len()) as int) == p1,
        b.subrange((p1.len()) as int, (p1.len() + p2.len()) as int) == p2,
        b.subrange((p1.len() + p2.len()) as int, (p1.len() + p2.len() + p3.len()) as int) == p3,
        b.subrange((p1.len() + p2.len() + p3.len()) as int, (p1.len() + p2.len() + p3.len() + p4.len()) as int) == p4,
        b.subrange((p1.len() + p2.len() + p3.len() + p4.len()) as int, (p1.len() + p2.len() + p3.len() + p4.len() + p5.len()) as int) == p5,
        b.subrange((p1.len() + p2.len() + p3.len() + p4.len() + p5.len()) as int, (p1.len() + p2.len() + p3.len() + p4.len() + p5.len() + p6.len()) as int) == p6,
        b.subrange((p1.len() + p2.len() + p3.len() + p4.len() + p5.len() + p6.len()) as int, (p1.len() + p2.len() + p3.len() + p4.len() + p5.len() + p6.len() + p7.len()) as int) == p7,
        b.subrange((p1.len() + p2.len() + p3.len() + p4.len() + p5.len() + p6.len() + p7.len()) as int, (p1.len() + p2.len() + p3.len() + p4.len() + p5.len() + p6.len() + p7.len() + p8.len()) as int) == p8,
        b.subrange((p1.len() + p2.len() + p3.len() + p4.len() + p5.len() + p6.len() + p7.len() + p8.len()) as int, (p1.len() + p2.len() + p3.len() + p4.len() + p5.len() + p6.len() + p7.len() + p8.len() + p9.len()) as int) == p9,
        b.subrange((p1.len() + p2.len() + p3.len() + p4.len() + p5.len() + p6.len() + p7.len() + p8.len() + p9.len()) as int, (p1.len() + p2.len() + p3.len() + p4.len() + p5.len() + p6.len() + p7.len() + p8.len() + p9.len() + p10.len()) as int) == p10,
        b.subrange((p1.len() + p2.len() + p3.len() + p4.len() + p5.len() + p6.len() + p7.len() + p8.len() + p9.len() + p10.len()) as int, (p1.len() + p2.len() + p3.len() + p4.len() + p5.len() + p6.len() + p7.len() + p8.len() + p9.len() + p10.len() + p11.len()) as int) == p11,
        b.subrange((p1.len() + p2.len() + p3.len() + p4.len() + p5.len() + p6.len() + p7.len() + p8.len() + p9.len() + p10.len() + p11.len()) as int, (p1.len() + p2.len() + p3.len() + p4.len() + p5.len() + p6.len() + p7.len() + p8.len() + p9.len() + p10.len() + p11.len() + p12.len()) as int) == p12,
        b.subrange((p1.len() + p2.len() + p3.len() + p4.len() + p5.len() + p6.len() + p7.len() + p8.len() + p9.len() + p10.len() + p11.len() + p12.len()) as int, (p1.len() + p2.len() + p3.len() + p4.len() + p5.len() + p6.len() + p7.len() + p8.len() + p9.len() + p10.len() + p11.len() + p12.len() + p13.len()) as int) == p13,
{
    let n = b.len() as int;
    let r13 = p13;
    let r12 = p12 + (p13);
    let r11 = p11 + (p12 + (p13));
    let r10 = p10 + (p11 + (p12 + (p13)));
    let r9 = p9 + (p10 + (p11 + (p12 + (p13))));
    let r8 = p8 + (p9 + (p10 + (p11 + (p12 + (p13)))));
    let r7 = p7 + (p8 + (p9 + (p10 + (p11 + (p12 + (p13))))));
    let r6 = p6 + (p7 + (p8 + (p9 + (p10 + (p11 + (p12 + (p13)))))));
    let r5 = p5 + (p6 + (p7 + (p8 + (p9 + (p10 + (p11 + (p12 + (p13))))))));
    let r4 = p4 + (p5 + (p6 + (p7 + (p8 + (p9 + (p10 + (p11 + (p12 + (p13)))))))));
    let r3 = p3 + (p4 + (p5 + (p6 + (p7 + (p8 + (p9 + (p10 + (p11 + (p12 + (p13))))))))));
    let r2 = p2 + (p3 + (p4 + (p5 + (p6 + (p7 + (p8 + (p9 + (p10 + (p11 + (p12 + (p13)))))))))));
    assert(b.subrange(0, n) =~= b);
    lemma_peel(b, (0) as int, p1, r2);
    lemma_peel(b, (p1.len()) as int, p2, r3);
    lemma_peel(b, (p1.len() + p2.len()) as int, p3, r4);
    lemma_peel(b, (p1.len() + p2.len() + p3.len()) as int, p4, r5);
    lemma_peel(b, (p1.len() + p2.len() + p3.len() + p4.len()) as int, p5, r6);
    lemma_peel(b, (p1.len() + p2.len() + p3.len() + p4.len() + p5.len()) as int, p6, r7);
    lemma_peel(b, (p1.len() + p2.len() + p3.len() + p4.len() + p5.len() + p6.len()) as int, p7, r8);
    lemma_peel(b, (p1.len() + p2.len() + p3.len() + p4.len() + p5.len() + p6.len() + p7.len()) as int, p8, r9);
    lemma_peel(b, (p1.len() + p2.len() + p3.len() + p4.len() + p5.len() + p6.len() + p7.len() + p8.len()) as int, p9, r10);
    lemma_peel(b, (p1.len() + p2.len() + p3.len() + p4.len() + p5.len() + p6.len() + p7.len() + p8.len() + p9.len()) as int, p10, r11);
    lemma_peel(b, (p1.len() + p2.len() + p3.len() + p4.len() + p5.len() + p6.len() + p7.len() + p8.len() + p9.len() + p10.len()) as int, p11, r12);
    lemma_peel(b, (p1.len() + p2.len() + p3.len() + p4.len() + p5.len() + p6.len() + p7.len() + p8.len() + p9.len() + p10.len() + p11.len()) as int, p12, r13);
    assert(b.subrange((p1.len() + p2.len() + p3.len() + p4.len() + p5.len() + p6.len() + p7.len() + p8.len() + p9.len() + p10.len() + p11.len() + p12.len()) as int, n) == p13);
    assert(b.subrange((p1.len() + p2.len() + p3.len() + p4.len() + p5.len() + p6.len() + p7.len() + p8.len() + p9.len() + p10.len() + p11.len() + p12.len()) as int, (p1.len() + p2.len() + p3.len() + p4.len() + p5.len() + p6.len() + p7.len() + p8.len() + p9.len() + p10.len() + p11.len() + p12.len() + p13.len()) as int) =~= b.subrange((p1.len() + p2.len() + p3.len() + p4.len() + p5.len() + p6.len() + p7.len() + p8.len() + p9.len() + p10.len() + p11.len() + p12.len()) as int, n));
}

/// The converse: pieces standing at their places make up the whole.
pub proof fn lemma_merge13(
    b: Seq<u8>,
    p1: Seq<u8>,
    p2: Seq<u8>,
    p3: Seq<u8>,
    p4: Seq<u8>,
    p5: Seq<u8>,
    p6: Seq<u8>,
    p7: Seq<u8>,
    p8: Seq<u8>,
    p9: Seq<u8>,
    p10: Seq<u8>,
    p11: Seq<u8>,
    p12: Seq<u8>,
    p13: Seq<u8>,
)
    requires
        b.len() == p1.len() + p2.len() + p3.len() + p4.len() + p5.len() + p6.len() + p7.len() + p8.len() + p9.len() + p10.len() + p11.len() + p12.len() + p13.len(),
        b.subrange((0) as int, (p1.len()) as int) == p1,
        b.subrange((p1.len()) as int, (p1.len() + p2.len()) as int) == p2,
        b.subrange((p1.len() + p2.len()) as int, (p1.len() + p2.len() + p3.len()) as int) == p3,
        b.subrange((p1.len() + p2.len() + p3.len()) as int, (p1.len() + p2.len() + p3.len() + p4.len()) as int) == p4,
        b.subrange((p1.len() + p2.len() + p3.len() + p4.len()) as int, (p1.len() + p2.len() + p3.len() + p4.len() + p5.len()) as int) == p5,
        b.subrange((p1.len() + p2.len() + p3.len() + p4.len() + p5.len()) as int, (p1.len() + p2.len() + p3.len() + p4.len() + p5.len() + p6.len()) as int) == p6,
        b.subrange((p1.len() + p2.len() + p3.len() + p4.len() + p5.len() + p6.len()) as int, (p1.len() + p2.len() + p3.len() + p4.len() + p5.len() + p6.len() + p7.len()) as int) == p7,
        b.subrange((p1.len() + p2.len() + p3.len() + p4.len() + p5.len() + p6.len() + p7.len()) as int, (p1.len() + p2.len() + p3.len() + p4.len() + p5.len() + p6.len() + p7.len() + p8.len()) as int) == p8,
        b.subrange((p1.len() + p2.len() + p3.len() + p4.len() + p5.len() + p6.len() + p7.len() + p8.len()) as int, (p1.len() + p2.len() + p3.len() + p4.len() + p5.len() + p6.len() + p7.len() + p8.len() + p9.len()) as int) == p9,
        b.subrange((p1.len() + p2.len() + p3.len() + p4.len() + p5.len() + p6.len() + p7.len() + p8.len() + p9.len()) as int, (p1.len() + p2.len() + p3.len() + p4.len() + p5.len() + p6.len() + p7.len() + p8.len() + p9.len() + p10.len()) as int) == p10,
        b.subrange((p1.len() + p2.len() + p3.len() + p4.len() + p5.len() + p6.len() + p7.len() + p8.len() + p9.len() + p10.len()) as int, (p1.len() + p2.len() + p3.len() + p4.len() + p5.len() + p6.len() + p7.len() + p8.len() + p9.len() + p10.len() + p11.len()) as int) == p11,
        b.subrange((p1.len() + p2.len() + p3.len() + p4.len() + p5.len() + p6.len() + p7.len() + p8.len() + p9.len() + p10.len() + p11.len()) as int, (p1.len() + p2.len() + p3.len() + p4.len() + p5.len() + p6.len() + p7.len() + p8.len() + p9.len() + p10.len() + p11.len() + p12.len()) as int) == p12,
        b.subrange((p1.len() + p2.len() + p3.len() + p4.len() + p5.len() + p6.len() + p7.len() + p8.len() + p9.len() + p10.len() + p11.len() + p12.len()) as int, (p1.len() + p2.len() + p3.len() + p4.len() + p5.len() + p6.len() + p7.len() + p8.len() + p9.len() + p10.len() + p11.len() + p12.len() + p13.len()) as int) == p13,
    ensures
        b == p1 + (p2 + (p3 + (p4 + (p5 + (p6 + (p7 + (p8 + (p9 + (p10 + (p11 + (p12 + (p13)))))))))))),
{
    let n = b.len() as int;
    let r13 = p13;
    let r12 = p12 + (p13);
    let r11 = p11 + (p12 + (p13));
    let r10 = p10 + (p11 + (p12 + (p13)));
    let r9 = p9 + (p10 + (p11 + (p12 + (p13))));
    let r8 = p8 + (p9 + (p10 + (p11 + (p12 + (p13)))));
    let r7 = p7 + (p8 + (p9 + (p10 + (p11 + (p12 + (p13))))));
    let r6 = p6 + (p7 + (p8 + (p9 + (p10 + (p11 + (p12 + (p13)))))));
    let r5 = p5 + (p6 + (p7 + (p8 + (p9 + (p10 + (p11 + (p12 + (p13))))))));
    let r4 = p4 + (p5 + (p6 + (p7 + (p8 + (p9 + (p10 + (p11 + (p12 + (p13)))))))));
    let r3 = p3 + (p4 + (p5 + (p6 + (p7 + (p8 + (p9 + (p10 + (p11 + (p12 + (p13))))))))));
    let r2 = p2 + (p3 + (p4 + (p5 + (p6 + (p7 + (p8 + (p9 + (p10 + (p11 + (p12 + (p13)))))))))));
    assert(b.subrange((p1.len() + p2.len() + p3.len() + p4.len() + p5.len() + p6.len() + p7.len() + p8.len() + p9.len() + p10.len() + p11.len() + p12.len()) as int, n) == p13);
    lemma_join(b, (p1.len() + p2.len() + p3.len() + p4.len() + p5.len() + p6.len() + p7.len() + p8.len() + p9.len() + p10.len() + p11.len()) as int, p12, r13);
    lemma_join(b, (p1.len() + p2.len() + p3.len() + p4.len() + p5.len() + p6.len() + p7.len() + p8.len() + p9.len() + p10.len()) as int, p11, r12);
    lemma_join(b, (p1.len() + p2.len() + p3.len() + p4.len() + p5.len() + p6.len() + p7.len() + p8.len() + p9.len()) as int, p10, r11);
    lemma_join(b, (p1.len() + p2.len() + p3.len() + p4.len() + p5.len() + p6.len() + p7.len() + p8.len()) as int, p9, r10);
    lemma_join(b, (p1.len() + p2.len() + p3.len() + p4.len() + p5.len() + p6.len() + p7.len()) as int, p8, r9);
    lemma_join(b, (p1.len() + p2.len() + p3.len() + p4.len() + p5.len() + p6.len()) as int, p7, r8);
    lemma_join(b, (p1.len() + p2.len() + p3.len() + p4.len() + p5.len()) as int, p6, r7);
    lemma_join(b, (p1.len() + p2.len() + p3.len() + p4.len()) as int, p5, r6);
    lemma_join(b, (p1.len() + p2.len() + p3.len()) as int, p4, r5);
    lemma_join(b, (p1.len() + p2.len()) as int, p3, r4);
    lemma_join(b, (p1.len()) as int, p2, r3);
    lemma_join(b, (0) as int, p1, r2);
    assert(b.subrange(0, n) =~= b);
}

/// The converse for an eleven-piece concatenation.
pub proof fn lemma_merge11(
    b: Seq<u8>,
    p1: Seq<u8>,
    p2: Seq<u8>,
    p3: Seq<u8>,
    p4: Seq<u8>,
    p5: Seq<u8>,
    p6: Seq<u8>,
    p7: Seq<u8>,
    p8: Seq<u8>,
    p9: Seq<u8>,
    p10: Seq<u8>,
    p11: Seq<u8>,
)
    requires
        b.len() == p1.len() + p2.len() + p3.len() + p4.len() + p5.len() + p6.len() + p7.len() + p8.len() + p9.len() + p10.len() + p11.len(),
        b.subrange((0) as int, (p1.len()) as int) == p1,
        b.subrange((p1.len()) as int, (p1.len() + p2.len()) as int) == p2,
        b.subrange((p1.len() + p2.len()) as int, (p1.len() + p2.len() + p3.len()) as int) == p3,
        b.subrange((p1.len() + p2.len() + p3.len()) as int, (p1.len() + p2.len() + p3.len() + p4.len()) as int) == p4,
        b.subrange((p1.len() + p2.len() + p3.len() + p4.len()) as int, (p1.len() + p2.len() + p3.len() + p4.len() + p5.len()) as int) == p5,
        b.subrange((p1.len() + p2.len() + p3.len() + p4.len() + p5.len()) as int, (p1.len() + p2.len() + p3.len() + p4.len() + p5.len() + p6.len()) as int) == p6,
        b.subrange((p1.len() + p2.len() + p3.len() + p4.len() + p5.len() + p6.len()) as int, (p1.len() + p2.len() + p3.len() + p4.len() + p5.len() + p6.len() + p7.len()) as int) == p7,
        b.subrange((p1.len() + p2.len() + p3.len() + p4.len() + p5.len() + p6.len() + p7.len()) as int, (p1.len() + p2.len() + p3.len() + p4.len() + p5.len() + p6.len() + p7.len() + p8.len()) as int) == p8,
        b.subrange((p1.len() + p2.len() + p3.len() + p4.len() + p5.len() + p6.len() + p7.len() + p8.len()) as int, (p1.len() + p2.len() + p3.len() + p4.len() + p5.len() + p6.len() + p7.len() + p8.len() + p9.len()) as int) == p9,
        b.subrange((p1.len() + p2.len() + p3.len() + p4.len() + p5.len() + p6.len() + p7.len() + p8.len() + p9.len()) as int, (p1.len() + p2.len() + p3.len() + p4.len() + p5.len() + p6.len() + p7.len() + p8.len() + p9.len() + p10.len()) as int) == p10,
        b.subrange((p1.len() + p2.len() + p3.len() + p4.len() + p5.len() + p6.len() + p7.len() + p8.len() + p9.len() + p10.len()) as int, (p1.len() + p2.len() + p3.len() + p4.len() + p5.len() + p6.len() + p7.len() + p8.len() + p9.len() + p10.len() + p11.len()) as int) == p11,
    ensures
        b == p1 + (p2 + (p3 + (p4 + (p5 + (p6 + (p7 + (p8 + (p9 + (p10 + (p11)))))))))),
{
    let n = b.len() as int;
    let r11 = p11;
    let r10 = p10 + (p11);
    let r9 = p9 + (p10 + (p11));
    let r8 = p8 + (p9 + (p10 + (p11)));
    let r7 = p7 + (p8 + (p9 + (p10 + (p11))));
    let r6 = p6 + (p7 + (p8 + (p9 + (p10 + (p11)))));
    let r5 = p5 + (p6 + (p7 + (p8 + (p9 + (p10 + (p11))))));
    let r4 = p4 + (p5 + (p6 + (p7 + (p8 + (p9 + (p10 + (p11)))))));
    let r3 = p3 + (p4 + (p5 + (p6 + (p7 + (p8 + (p9 + (p10 + (p11))))))));
    let r2 = p2 + (p3 + (p4 + (p5 + (p6 + (p7 + (p8 + (p9 + (p10 + (p11)))))))));
    assert(b.subrange((p1.len() + p2.len() + p3.len() + p4.len() + p5.len() + p6.len() + p7.len() + p8.len() + p9.len() + p10.len()) as int, n) == p11);
    lemma_join(b, (p1.len() + p2.len() + p3.len() + p4.len() + p5.len() + p6.len() + p7.len() + p8.len() + p9.len()) as int, p10, r11);
    lemma_join(b, (p1.len() + p2.len() + p3.len() + p4.len() + p5.len() + p6.len() + p7.len() + p8.len()) as int, p9, r10);
    lemma_join(b, (p1.len() + p2.len() + p3.len() + p4.len() + p5.len() + p6.len() + p7.len()) as int, p8, r9);
    lemma_join(b, (p1.len() + p2.len() + p3.len() + p4.len() + p5.len() + p6.len()) as int, p7, r8);
    lemma_join(b, (p1.len() + p2.len() + p3.len() + p4.len() + p5.len()) as int, p6, r7);
    lemma_join(b, (p1.len() + p2.len() + p3.len() + p4.len()) as int, p5, r6);
    lemma_join(b, (p1.len() + p2.len() + p3.len()) as int, p4, r5);
    lemma_join(b, (p1.len() + p2.len()) as int, p3, r4);
    lemma_join(b, (p1.len()) as int, p2, r3);
    lemma_join(b, (0) as int, p1, r2);
    assert(b.subrange(0, n) =~= b);
}

/// Two length-prefixed fields written one after the other can be told apart
/// again: equal concatenations come only from equal fields and equal rests.
pub proof fn lemma_length_prefixed_unambiguous(a: Seq<u8>, ra: Seq<u8>, b: Seq<u8>, rb: Seq<u8>)
    requires
        a.len() <= u32::MAX,
        b.len() <= u32::MAX,
        spec_length_prefixed(a) + ra == spec_length_prefixed(b) + rb,
    ensures
        a == b,
        ra == rb,
{
    lemma_auto_spec_u32_to_from_le_bytes();
    let la = spec_length_prefixed(a) + ra;
    let lb = spec_length_prefixed(b) + rb;
    assert(la.subrange(0, 4) =~= spec_u32_to_le_bytes(a.len() as u32));
    assert(lb.subrange(0, 4) =~= spec_u32_to_le_bytes(b.len() as u32));
    assert(a.len() == b.len());
    assert(a =~= la.subrange(4, 4 + a.len() as int));
    assert(b =~= lb.subrange(4, 4 + b.len() as int));
    assert(a == b);
    assert(ra =~= la.subrange(4 + a.len() as int, la.len() as int));
    assert(rb =~= lb.subrange(4 + b.len() as int, lb.len() as int));
    assert(ra == rb);
}

/// Equal fixed-width prefixes of equal concatenations leave equal rests.
pub proof fn lemma_fixed_prefix_unambiguous(a: Seq<u8>, ra: Seq<u8>, b: Seq<u8>, rb: Seq<u8>)
    requires
        a.len() == b.len(),
        a + ra == b + rb,
    ensures
        a == b,
        ra == rb,
{
    let la = a + ra;
    let lb = b + rb;
    assert(a =~= la.subrange(0, a.len() as int));
    assert(b =~= lb.subrange(0, b.len() as int));
    assert(ra =~= la.subrange(a.len() as int, la.len() as int));
    assert(rb =~= lb.subrange(b.len() as int, lb.len() as int));
}

} // verus!
