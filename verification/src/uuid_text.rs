//! The hyphenated lowercase hex text form of a 16-byte identifier, as it
//! appears inside claims: 8-4-4-4-12 hex digits with `-` between the
//! groups, 36 bytes in all.

use vstd::prelude::*;

verus! {

/// Lowercase hex digit of a nibble.
pub open spec fn spec_hex_digit(v: u8) -> u8
    recommends
        v < 16,
{
    if v < 10 {
        (48 + v) as u8
    } else {
        (87 + v) as u8
    }
}

/// An ASCII lowercase hex digit.
pub open spec fn is_lower_hex_digit(b: u8) -> bool {
    (48 <= b <= 57) || (97 <= b <= 102)
}

/// The nibble a lowercase hex digit denotes.
pub open spec fn spec_hex_value(b: u8) -> u8
    recommends
        is_lower_hex_digit(b),
{
    if b <= 57 {
        (b - 48) as u8
    } else {
        (b - 87) as u8
    }
}

/// Two hex digits of a byte, high nibble first.
pub open spec fn spec_hex_byte(v: u8) -> Seq<u8> {
    seq![spec_hex_digit(v / 16), spec_hex_digit(v % 16)]
}

/// Hex digits of the bytes `u[from..to]`, in order.
pub open spec fn spec_hex_seq(u: Seq<u8>, from: int, to: int) -> Seq<u8>
    decreases to - from,
{
    if from >= to {
        Seq::empty()
    } else {
        spec_hex_byte(u[from]) + spec_hex_seq(u, from + 1, to)
    }
}

/// The full hyphenated text form of a 16-byte identifier.
pub open spec fn spec_uuid_str(u: Seq<u8>) -> Seq<u8>
    recommends
        u.len() == 16,
{
    spec_hex_seq(u, 0, 4) + seq![45u8] + spec_hex_seq(u, 4, 6) + seq![45u8]
        + spec_hex_seq(u, 6, 8) + seq![45u8] + spec_hex_seq(u, 8, 10) + seq![45u8]
        + spec_hex_seq(u, 10, 16)
}

/// Text offset of byte `k` of the identifier within the 36-byte form.
pub open spec fn spec_uuid_off(k: int) -> int {
    2 * k + if k >= 10 {
        4int
    } else if k >= 8 {
        3int
    } else if k >= 6 {
        2int
    } else if k >= 4 {
        1int
    } else {
        0int
    }
}

/// Which identifier byte the non-hyphen text position `j` belongs to.
pub open spec fn spec_uuid_pos_byte(j: int) -> int {
    if j < 8 {
        j / 2
    } else if j < 13 {
        4 + (j - 9) / 2
    } else if j < 18 {
        6 + (j - 14) / 2
    } else if j < 23 {
        8 + (j - 19) / 2
    } else {
        10 + (j - 24) / 2
    }
}

proof fn lemma_hex_seq_len(u: Seq<u8>, from: int, to: int)
    requires
        from <= to,
    ensures
        spec_hex_seq(u, from, to).len() == 2 * (to - from),
    decreases to - from,
{
    if from < to {
        lemma_hex_seq_len(u, from + 1, to);
    }
}

proof fn lemma_hex_seq_snoc(u: Seq<u8>, from: int, i: int)
    requires
        from <= i,
    ensures
        spec_hex_seq(u, from, i + 1) == spec_hex_seq(u, from, i) + spec_hex_byte(u[i]),
    decreases i - from,
{
    if from == i {
        assert(spec_hex_seq(u, i + 1, i + 1) == Seq::<u8>::empty());
        assert(spec_hex_seq(u, from, i) == Seq::<u8>::empty());
        assert(spec_hex_seq(u, from, i + 1) =~= spec_hex_seq(u, from, i) + spec_hex_byte(u[i]));
    } else {
        lemma_hex_seq_snoc(u, from + 1, i);
        assert(spec_hex_seq(u, from, i + 1) =~= spec_hex_seq(u, from, i) + spec_hex_byte(u[i]));
    }
}

proof fn lemma_hex_seq_index(u: Seq<u8>, from: int, to: int, k: int)
    requires
        from <= k < to,
    ensures
        spec_hex_seq(u, from, to)[2 * (k - from)] == spec_hex_digit(u[k] / 16),
        spec_hex_seq(u, from, to)[2 * (k - from) + 1] == spec_hex_digit(u[k] % 16),
    decreases k - from,
{
    lemma_hex_seq_len(u, from, to);
    if from == k {
        lemma_hex_seq_len(u, from + 1, to);
    } else {
        lemma_hex_seq_index(u, from + 1, to, k);
        lemma_hex_seq_len(u, from + 1, to);
    }
}

/// Character-by-character description of the 36-byte form: hyphens at the
/// four group breaks, hex digits of byte `k` at `spec_uuid_off(k)`.
pub proof fn lemma_uuid_str_chars(u: Seq<u8>)
    requires
        u.len() == 16,
    ensures
        spec_uuid_str(u).len() == 36,
        forall|k: int|
            0 <= k < 16 ==> spec_uuid_str(u)[#[trigger] spec_uuid_off(k)] == spec_hex_digit(
                u[k] / 16,
            ) && spec_uuid_str(u)[spec_uuid_off(k) + 1] == spec_hex_digit(u[k] % 16),
        spec_uuid_str(u)[8] == 45,
        spec_uuid_str(u)[13] == 45,
        spec_uuid_str(u)[18] == 45,
        spec_uuid_str(u)[23] == 45,
{
    lemma_hex_seq_len(u, 0, 4);
    lemma_hex_seq_len(u, 4, 6);
    lemma_hex_seq_len(u, 6, 8);
    lemma_hex_seq_len(u, 8, 10);
    lemma_hex_seq_len(u, 10, 16);
    assert forall|k: int| 0 <= k < 16 implies spec_uuid_str(u)[#[trigger] spec_uuid_off(k)]
        == spec_hex_digit(u[k] / 16) && spec_uuid_str(u)[spec_uuid_off(k) + 1] == spec_hex_digit(
        u[k] % 16,
    ) by {
        if k < 4 {
            lemma_hex_seq_index(u, 0, 4, k);
        } else if k < 6 {
            lemma_hex_seq_index(u, 4, 6, k);
        } else if k < 8 {
            lemma_hex_seq_index(u, 6, 8, k);
        } else if k < 10 {
            lemma_hex_seq_index(u, 8, 10, k);
        } else {
            lemma_hex_seq_index(u, 10, 16, k);
        }
    }
}

/// Appends the hex digits of `u[from..to]`.
fn push_hex_range(out: &mut Vec<u8>, u: &[u8; 16], from: usize, to: usize)
    requires
        from <= to <= 16,
    ensures
        final(out)@ == old(out)@ + spec_hex_seq(u@, from as int, to as int),
{
    let mut i: usize = from;
    while i < to
        invariant
            from <= i <= to <= 16,
            out@ == old(out)@ + spec_hex_seq(u@, from as int, i as int),
        decreases to - i,
    {
        let hi = u[i] / 16;
        let lo = u[i] % 16;
        out.push(if hi < 10 { 48 + hi } else { 87 + hi });
        out.push(if lo < 10 { 48 + lo } else { 87 + lo });
        proof {
            lemma_hex_seq_snoc(u@, from as int, i as int);
            assert(out@ =~= old(out)@ + spec_hex_seq(u@, from as int, i + 1));
        }
        i = i + 1;
    }
}

/// Appends the hyphenated text form of the identifier.
pub fn push_uuid_str(out: &mut Vec<u8>, u: &[u8; 16])
    ensures
        final(out)@ == old(out)@ + spec_uuid_str(u@),
{
    push_hex_range(out, u, 0, 4);
    out.push(45);
    push_hex_range(out, u, 4, 6);
    out.push(45);
    push_hex_range(out, u, 6, 8);
    out.push(45);
    push_hex_range(out, u, 8, 10);
    out.push(45);
    push_hex_range(out, u, 10, 16);
    proof {
        assert(out@ =~= old(out)@ + spec_uuid_str(u@));
    }
}

/// Reads the hyphenated text form at `start`: `Some(u)` means the 36
/// bytes there are exactly `spec_uuid_str(u@)`, and whenever they are the
/// text form of some identifier, that identifier is read.  Uppercase
/// digits and any other deviation are refused.
pub fn parse_uuid_str(b: &[u8], start: usize) -> (r: Option<[u8; 16]>)
    requires
        start <= b@.len(),
    ensures
        r is Some ==> start + 36 <= b@.len() && b@.subrange(start as int, start + 36)
            == spec_uuid_str(r->0@),
        forall|u: Seq<u8>|
            (u.len() == 16 && start + 36 <= b@.len() && b@.subrange(start as int, start + 36)
                == #[trigger] spec_uuid_str(u)) ==> r is Some && r->0@ == u,
{
    if b.len() < 36 || start > b.len() - 36 {
        proof {
            assert forall|u: Seq<u8>|
                !(u.len() == 16 && start + 36 <= b@.len() && b@.subrange(start as int, start + 36)
                    == #[trigger] spec_uuid_str(u)) by {}
        }
        return None;
    }
    if !(b[start + 8] == 45 && b[start + 13] == 45 && b[start + 18] == 45 && b[start + 23] == 45) {
        proof {
            assert forall|u: Seq<u8>|
                !(u.len() == 16 && start + 36 <= b@.len() && b@.subrange(start as int, start + 36)
                    == #[trigger] spec_uuid_str(u)) by {
                if u.len() == 16 && start + 36 <= b@.len() && b@.subrange(start as int, start + 36)
                    == spec_uuid_str(u) {
                    lemma_uuid_str_chars(u);
                    assert(b@[start + 8] == spec_uuid_str(u)[8]);
                    assert(b@[start + 13] == spec_uuid_str(u)[13]);
                    assert(b@[start + 18] == spec_uuid_str(u)[18]);
                    assert(b@[start + 23] == spec_uuid_str(u)[23]);
                    assert(false);
                }
            }
        }
        return None;
    }
    let n = b.len();
    let mut arr: [u8; 16] = [0u8; 16];
    let mut k: usize = 0;
    while k < 16
        invariant
            k <= 16,
            n == b@.len(),
            start + 36 <= b@.len(),
            forall|j: int|
                0 <= j < k ==> b@[start + #[trigger] spec_uuid_off(j)] == spec_hex_digit(
                    arr@[j] / 16,
                ) && b@[start + spec_uuid_off(j) + 1] == spec_hex_digit(arr@[j] % 16),
        decreases 16 - k,
    {
        let skip: usize = if k >= 10 {
            4
        } else if k >= 8 {
            3
        } else if k >= 6 {
            2
        } else if k >= 4 {
            1
        } else {
            0
        };
        let off: usize = 2 * k + skip;
        proof {
            assert(off == spec_uuid_off(k as int));
            assert(off <= 34);
        }
        let hi = b[start + off];
        let lo = b[start + off + 1];
        let hv: u8;
        let lv: u8;
        if 48 <= hi && hi <= 57 {
            hv = hi - 48;
        } else if 97 <= hi && hi <= 102 {
            hv = hi - 87;
        } else {
            proof {
                uuid_digit_mismatch(b@, start as int, k as int);
            }
            return None;
        }
        if 48 <= lo && lo <= 57 {
            lv = lo - 48;
        } else if 97 <= lo && lo <= 102 {
            lv = lo - 87;
        } else {
            proof {
                uuid_digit_mismatch(b@, start as int, k as int);
            }
            return None;
        }
        let ghost old_arr = arr@;
        arr[k] = hv * 16 + lv;
        proof {
            assert(arr@ == old_arr.update(k as int, (hv * 16 + lv) as u8));
            assert(arr@[k as int] / 16 == hv && arr@[k as int] % 16 == lv);
            assert(spec_hex_digit(hv) == hi && spec_hex_digit(lv) == lo);
            assert forall|j: int|
                0 <= j < k + 1 implies b@[start + #[trigger] spec_uuid_off(j)] == spec_hex_digit(
                arr@[j] / 16,
            ) && b@[start + spec_uuid_off(j) + 1] == spec_hex_digit(arr@[j] % 16) by {
                if j < k {
                    assert(arr@[j] == old_arr[j]);
                }
            }
        }
        k = k + 1;
    }
    proof {
        lemma_uuid_str_chars(arr@);
        assert forall|j: int| 0 <= j < 36 implies b@.subrange(start as int, start + 36)[j]
            == spec_uuid_str(arr@)[j] by {
            if j == 8 || j == 13 || j == 18 || j == 23 {
            } else {
                let kk = spec_uuid_pos_byte(j);
                assert(0 <= kk < 16);
                assert(j == spec_uuid_off(kk) || j == spec_uuid_off(kk) + 1);
            }
        }
        assert(b@.subrange(start as int, start + 36) =~= spec_uuid_str(arr@));
        assert forall|u: Seq<u8>|
            (u.len() == 16 && b@.subrange(start as int, start + 36) == #[trigger] spec_uuid_str(
                u,
            )) implies arr@ == u by {
            lemma_uuid_str_chars(u);
            assert forall|j: int| 0 <= j < 16 implies arr@[j] == u[j] by {
                assert(spec_uuid_str(u)[spec_uuid_off(j)] == b@[start + spec_uuid_off(j)]);
                assert(spec_uuid_str(u)[spec_uuid_off(j) + 1] == b@[start + spec_uuid_off(j) + 1]);
                assert(spec_hex_digit(u[j] / 16) == spec_hex_digit(arr@[j] / 16));
                assert(spec_hex_digit(u[j] % 16) == spec_hex_digit(arr@[j] % 16));
                assert(u[j] / 16 == arr@[j] / 16 && u[j] % 16 == arr@[j] % 16);
            }
            assert(arr@ =~= u);
        }
    }
    Some(arr)
}

/// When a byte at a digit position of the claimed text form is not a
/// lowercase hex digit, no identifier has that text form there.
proof fn uuid_digit_mismatch(b: Seq<u8>, start: int, k: int)
    requires
        0 <= k < 16,
        start >= 0,
        start + 36 <= b.len(),
        !(is_lower_hex_digit(b[start + spec_uuid_off(k)]) && is_lower_hex_digit(
            b[start + spec_uuid_off(k) + 1],
        )),
    ensures
        forall|u: Seq<u8>|
            !(u.len() == 16 && b.subrange(start, start + 36) == #[trigger] spec_uuid_str(u)),
{
    assert forall|u: Seq<u8>|
        !(u.len() == 16 && b.subrange(start, start + 36) == #[trigger] spec_uuid_str(u)) by {
        if u.len() == 16 && b.subrange(start, start + 36) == spec_uuid_str(u) {
            lemma_uuid_str_chars(u);
            assert(b[start + spec_uuid_off(k)] == spec_uuid_str(u)[spec_uuid_off(k)]);
            assert(b[start + spec_uuid_off(k) + 1] == spec_uuid_str(u)[spec_uuid_off(k) + 1]);
            assert(is_lower_hex_digit(spec_hex_digit(u[k] / 16)));
            assert(is_lower_hex_digit(spec_hex_digit(u[k] % 16)));
            assert(false);
        }
    }
}

} // verus!
