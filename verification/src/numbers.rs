//! Decimal text forms of the numbers carried in claims.
//!
//! The spec functions define the canonical forms — no leading zeros, a
//! lone `-` only on negative values — and the exec functions are proved to
//! write and to read exactly those forms.

use vstd::prelude::*;

verus! {

/// An ASCII decimal digit.
pub open spec fn is_dec_digit(b: u8) -> bool {
    48 <= b <= 57
}

/// Canonical decimal bytes of `v`: most significant digit first, no
/// leading zeros.
pub open spec fn spec_dec_u64(v: u64) -> Seq<u8>
    decreases v,
{
    if v < 10 {
        seq![(48 + v) as u8]
    } else {
        spec_dec_u64(v / 10) + seq![(48 + v % 10) as u8]
    }
}

/// Canonical decimal bytes of `v`, with a `-` sign when negative.
pub open spec fn spec_dec_i32(v: i32) -> Seq<u8> {
    if v >= 0 {
        spec_dec_u64(v as u64)
    } else {
        seq![45u8] + spec_dec_u64((-(v as int)) as u64)
    }
}

/// The number a digit string denotes.
pub open spec fn spec_dec_value(s: Seq<u8>) -> int
    decreases s.len(),
{
    if s.len() == 0 {
        0
    } else {
        spec_dec_value(s.drop_last()) * 10 + (s.last() - 48)
    }
}

/// The decimal form of a number is nonempty, all digits, and free of
/// leading zeros.
pub proof fn lemma_dec_u64_shape(v: u64)
    ensures
        spec_dec_u64(v).len() >= 1,
        forall|i: int| 0 <= i < spec_dec_u64(v).len() ==> is_dec_digit(#[trigger] spec_dec_u64(v)[i]),
        spec_dec_u64(v).len() > 1 ==> spec_dec_u64(v)[0] != 48,
        v < 10 ==> spec_dec_u64(v).len() == 1,
    decreases v,
{
    if v >= 10 {
        lemma_dec_u64_shape(v / 10);
        assert(spec_dec_u64(v) == spec_dec_u64(v / 10) + seq![(48 + v % 10) as u8]);
        assert(spec_dec_u64(v)[0] == spec_dec_u64(v / 10)[0]);
        if v / 10 < 10 {
            assert(v / 10 >= 1);
            assert(spec_dec_u64(v / 10) == seq![(48 + v / 10) as u8]);
            assert(spec_dec_u64(v / 10)[0] != 48);
        } else {
            lemma_dec_u64_shape(v / 10 / 10);
            assert(spec_dec_u64(v / 10) == spec_dec_u64(v / 10 / 10) + seq![(48 + (v / 10) % 10) as u8]);
            assert(spec_dec_u64(v / 10).len() > 1);
        }
    }
}

/// Reading the decimal form of `v` gives `v` back.
pub proof fn lemma_dec_u64_value(v: u64)
    ensures
        spec_dec_value(spec_dec_u64(v)) == v,
    decreases v,
{
    if v < 10 {
        assert(spec_dec_u64(v).drop_last() =~= Seq::<u8>::empty());
        assert(spec_dec_u64(v).last() == (48 + v) as u8);
        assert(spec_dec_value(Seq::<u8>::empty()) == 0);
    } else {
        lemma_dec_u64_value(v / 10);
        assert(spec_dec_u64(v).drop_last() =~= spec_dec_u64(v / 10));
        assert(spec_dec_u64(v).last() == (48 + v % 10) as u8);
        assert(spec_dec_value(spec_dec_u64(v)) == (v / 10) * 10 + v % 10);
    }
}

/// A nonempty all-digit string whose first digit is not zero denotes at
/// least 1.
proof fn lemma_dec_value_positive(s: Seq<u8>)
    requires
        s.len() >= 1,
        forall|i: int| 0 <= i < s.len() ==> is_dec_digit(#[trigger] s[i]),
        s[0] != 48,
    ensures
        spec_dec_value(s) >= 1,
    decreases s.len(),
{
    if s.len() == 1 {
        assert(spec_dec_value(s.drop_last()) == 0);
    } else {
        assert(s.drop_last()[0] == s[0]);
        lemma_dec_value_positive(s.drop_last());
    }
}

/// The value of a digit string is never negative.
proof fn lemma_dec_value_nonneg(s: Seq<u8>)
    requires
        forall|i: int| 0 <= i < s.len() ==> is_dec_digit(#[trigger] s[i]),
    ensures
        spec_dec_value(s) >= 0,
    decreases s.len(),
{
    if s.len() > 0 {
        lemma_dec_value_nonneg(s.drop_last());
    }
}

/// A canonical digit string is the decimal form of its value: the decimal
/// form is unique.
pub proof fn lemma_dec_canonical(s: Seq<u8>)
    requires
        s.len() >= 1,
        forall|i: int| 0 <= i < s.len() ==> is_dec_digit(#[trigger] s[i]),
        s[0] != 48 || s.len() == 1,
        spec_dec_value(s) <= u64::MAX,
    ensures
        spec_dec_u64(spec_dec_value(s) as u64) == s,
    decreases s.len(),
{
    lemma_dec_value_nonneg(s.drop_last());
    let v = spec_dec_value(s);
    if s.len() == 1 {
        assert(spec_dec_value(s.drop_last()) == 0);
        assert(v == s[0] - 48);
        assert(spec_dec_u64(v as u64) =~= s);
    } else {
        let t = s.drop_last();
        assert(t[0] == s[0]);
        lemma_dec_value_positive(t);
        let q = spec_dec_value(t);
        let d = s.last() - 48;
        assert(v == q * 10 + d);
        assert(q >= 1 && 0 <= d < 10);
        assert(v >= 10);
        assert(v as u64 / 10 == q && v as u64 % 10 == d);
        lemma_dec_canonical(t);
        assert(spec_dec_u64(v as u64) == spec_dec_u64(q as u64) + seq![(48 + d) as u8]);
        assert(spec_dec_u64(v as u64) =~= s);
    }
}

/// A digit string's value only grows as digits are appended.
pub proof fn lemma_dec_value_prefix(s: Seq<u8>, k: int)
    requires
        forall|i: int| 0 <= i < s.len() ==> is_dec_digit(#[trigger] s[i]),
        0 <= k <= s.len(),
    ensures
        spec_dec_value(s.subrange(0, k)) <= spec_dec_value(s),
    decreases s.len() - k,
{
    if k < s.len() {
        lemma_dec_value_prefix(s, k + 1);
        let a = s.subrange(0, k);
        let b = s.subrange(0, k + 1);
        assert(b.drop_last() =~= a);
        assert(b.last() == s[k]);
        lemma_dec_value_nonneg(a);
        assert(spec_dec_value(b) == spec_dec_value(a) * 10 + (s[k] - 48));
        assert(spec_dec_value(a) <= spec_dec_value(b));
    } else {
        assert(s.subrange(0, k) =~= s);
    }
}

/// The conditions under which `parse_dec_u64` is owed the answer
/// `Some((v, start + |dec v|))`: the canonical form of `v` sits at
/// `start` and the digit run stops with it.
pub open spec fn dec_at(b: Seq<u8>, start: int, v: u64) -> bool {
    let d = spec_dec_u64(v);
    &&& start + d.len() <= b.len()
    &&& b.subrange(start, start + d.len()) == d
    &&& (start + d.len() == b.len() || !is_dec_digit(b[start + d.len()]))
}

/// Appends the canonical decimal form of `v`.
pub fn push_dec_u64(out: &mut Vec<u8>, v: u64)
    ensures
        final(out)@ == old(out)@ + spec_dec_u64(v),
    decreases v,
{
    if v >= 10 {
        push_dec_u64(out, v / 10);
    }
    out.push(48 + (v % 10) as u8);
    proof {
        assert(out@ =~= old(out)@ + spec_dec_u64(v));
    }
}

/// Appends the canonical decimal form of `v`, sign included.
pub fn push_dec_i32(out: &mut Vec<u8>, v: i32)
    ensures
        final(out)@ == old(out)@ + spec_dec_i32(v),
{
    if v >= 0 {
        push_dec_u64(out, v as u64);
    } else {
        out.push(45);
        let wide: i64 = v as i64;
        push_dec_u64(out, (-wide) as u64);
        proof {
            assert(out@ =~= old(out)@ + spec_dec_i32(v));
        }
    }
}

/// The conditions under which `parse_dec_i32` is owed the answer
/// `Some((v, start + |dec v|))`.
pub open spec fn i32_dec_at(b: Seq<u8>, start: int, v: i32) -> bool {
    let d = spec_dec_i32(v);
    &&& start + d.len() <= b.len()
    &&& b.subrange(start, start + d.len()) == d
    &&& (start + d.len() == b.len() || !is_dec_digit(b[start + d.len()]))
}

/// Reads a canonical decimal `i32` starting at `start`: an optional `-`
/// followed by digits without leading zeros, `-0` and out-of-range values
/// refused.  Sound and complete in the same sense as `parse_dec_u64`.
pub fn parse_dec_i32(b: &[u8], start: usize) -> (r: Option<(i32, usize)>)
    requires
        start <= b@.len(),
    ensures
        r is Some ==> ({
            let (v, end) = r->0;
            &&& start < end <= b@.len()
            &&& b@.subrange(start as int, end as int) == spec_dec_i32(v)
            &&& (end == b@.len() || !is_dec_digit(b@[end as int]))
        }),
        forall|v: i32|
            i32_dec_at(b@, start as int, v) ==> r == Some(
                (v, (start + spec_dec_i32(v).len()) as usize),
            ),
{
    if start < b.len() && b[start] == 45 {
        proof {
            assert forall|v: i32| v >= 0 implies !i32_dec_at(b@, start as int, v) by {
                lemma_dec_u64_shape(v as u64);
                if i32_dec_at(b@, start as int, v) {
                    assert(b@[start as int] == spec_dec_u64(v as u64)[0]);
                    assert(is_dec_digit(b@[start as int]));
                    assert(false);
                }
            }
            assert forall|v: i32| v < 0 && i32_dec_at(b@, start as int, v) implies dec_at(
                b@,
                start as int + 1,
                ((-(v as int)) as u64),
            ) by {
                let m = (-(v as int)) as u64;
                let d = spec_dec_i32(v);
                assert(d == seq![45u8] + spec_dec_u64(m));
                lemma_dec_u64_shape(m);
                assert forall|j: int| 0 <= j < spec_dec_u64(m).len() implies b@[start + 1 + j]
                    == spec_dec_u64(m)[j] by {
                    assert(b@.subrange(start as int, start + d.len())[j + 1] == d[j + 1]);
                }
                assert(b@.subrange(start as int + 1, start as int + d.len()) =~= spec_dec_u64(m));
            }
        }
        match parse_dec_u64(b, start + 1) {
            Some((m, end)) => {
                if 1 <= m && m <= 2147483648u64 {
                    let wide: i64 = -(m as i64);
                    let v: i32 = wide as i32;
                    proof {
                        assert(v as int == -(m as int));
                        assert(spec_dec_i32(v) == seq![45u8] + spec_dec_u64(m));
                        assert(b@.subrange(start as int, end as int) =~= spec_dec_i32(v));
                        assert forall|w: i32| i32_dec_at(b@, start as int, w) implies w == v by {
                            if w >= 0 {
                                assert(false);
                            } else {
                                let mw = (-(w as int)) as u64;
                                assert(dec_at(b@, start as int + 1, mw));
                                assert(mw == m);
                            }
                        }
                    }
                    Some((v, end))
                } else {
                    proof {
                        assert forall|w: i32| !i32_dec_at(b@, start as int, w) by {
                            if i32_dec_at(b@, start as int, w) && w < 0 {
                                let mw = (-(w as int)) as u64;
                                assert(dec_at(b@, start as int + 1, mw));
                                assert(mw == m);
                                assert(1 <= mw <= 2147483648u64);
                                assert(false);
                            }
                        }
                    }
                    None
                }
            },
            None => {
                proof {
                    assert forall|w: i32| !i32_dec_at(b@, start as int, w) by {
                        if i32_dec_at(b@, start as int, w) && w < 0 {
                            let mw = (-(w as int)) as u64;
                            assert(dec_at(b@, start as int + 1, mw));
                            assert(false);
                        }
                    }
                }
                None
            },
        }
    } else {
        proof {
            assert forall|v: i32| v < 0 implies !i32_dec_at(b@, start as int, v) by {
                if i32_dec_at(b@, start as int, v) {
                    let d = spec_dec_i32(v);
                    assert(d[0] == 45);
                    assert(b@[start as int] == 45);
                    assert(start < b@.len());
                    assert(false);
                }
            }
            assert forall|v: i32| v >= 0 && i32_dec_at(b@, start as int, v) implies dec_at(
                b@,
                start as int,
                v as u64,
            ) by {
                assert(spec_dec_i32(v) == spec_dec_u64(v as u64));
            }
        }
        match parse_dec_u64(b, start) {
            Some((m, end)) => {
                if m <= 2147483647u64 {
                    let v: i32 = m as i32;
                    proof {
                        assert(v as int == m as int);
                        assert(spec_dec_i32(v) == spec_dec_u64(m));
                        assert forall|w: i32| i32_dec_at(b@, start as int, w) implies w == v by {
                            if w >= 0 {
                                assert(dec_at(b@, start as int, w as u64));
                                assert(w as u64 == m);
                            }
                        }
                    }
                    Some((v, end))
                } else {
                    proof {
                        assert forall|w: i32| !i32_dec_at(b@, start as int, w) by {
                            if i32_dec_at(b@, start as int, w) && w >= 0 {
                                assert(dec_at(b@, start as int, w as u64));
                                assert(w as u64 == m);
                                assert(false);
                            }
                        }
                    }
                    None
                }
            },
            None => {
                proof {
                    assert forall|w: i32| !i32_dec_at(b@, start as int, w) by {
                        if i32_dec_at(b@, start as int, w) && w >= 0 {
                            assert(dec_at(b@, start as int, w as u64));
                            assert(false);
                        }
                    }
                }
                None
            },
        }
    }
}

/// Reads a canonical decimal `u64` starting at `start`.
///
/// `Some((v, end))` means the bytes `start..end` are exactly the decimal
/// form of `v` and the run of digits stops at `end`; and whenever
/// `dec_at(b@, start, v)` holds for some `v`, that answer is returned.
/// Leading zeros and values beyond `u64` are refused.
pub fn parse_dec_u64(b: &[u8], start: usize) -> (r: Option<(u64, usize)>)
    requires
        start <= b@.len(),
    ensures
        r is Some ==> ({
            let (v, end) = r->0;
            &&& start < end <= b@.len()
            &&& b@.subrange(start as int, end as int) == spec_dec_u64(v)
            &&& (end == b@.len() || !is_dec_digit(b@[end as int]))
        }),
        forall|v: u64|
            dec_at(b@, start as int, v) ==> r == Some(
                (v, (start + spec_dec_u64(v).len()) as usize),
            ),
{
    let n = b.len();
    if start == n || !(48 <= b[start] && b[start] <= 57) {
        proof {
            assert forall|v: u64| !dec_at(b@, start as int, v) by {
                lemma_dec_u64_shape(v);
                if dec_at(b@, start as int, v) {
                    assert(b@[start as int] == spec_dec_u64(v)[0]);
                    assert(is_dec_digit(b@[start as int]));
                    assert(false);
                }
            }
        }
        return None;
    }
    if b[start] == 48 {
        // a leading zero is canonical only as the single digit 0
        if start + 1 < n && 48 <= b[start + 1] && b[start + 1] <= 57 {
            proof {
                assert forall|v: u64| !dec_at(b@, start as int, v) by {
                    lemma_dec_u64_shape(v);
                    if dec_at(b@, start as int, v) {
                        let d = spec_dec_u64(v);
                        assert(b@[start as int] == d[0]);
                        if d.len() > 1 {
                            assert(d[0] != 48);
                        } else {
                            assert(is_dec_digit(b@[start as int + 1]));
                        }
                        assert(false);
                    }
                }
            }
            return None;
        }
        proof {
            assert(b@.subrange(start as int, start + 1) =~= spec_dec_u64(0));
            assert forall|v: u64| dec_at(b@, start as int, v) implies v == 0 by {
                lemma_dec_u64_shape(v);
                let d = spec_dec_u64(v);
                assert(b@[start as int] == d[0]);
                if d.len() > 1 {
                    assert(d[0] != 48);
                    assert(false);
                } else {
                    assert(d =~= b@.subrange(start as int, start + 1));
                    assert(d == spec_dec_u64(0));
                    lemma_dec_u64_value(v);
                    lemma_dec_u64_value(0);
                }
            }
            lemma_dec_u64_shape(0);
        }
        return Some((0, start + 1));
    }
    let ghost gb = b@;
    let mut i: usize = start;
    let mut val: u64 = 0;
    while i < n && 48 <= b[i] && b[i] <= 57
        invariant
            start <= i <= n,
            start < n,
            n == gb.len(),
            gb == b@,
            forall|j: int| start <= j < i ==> is_dec_digit(#[trigger] gb[j]),
            val == spec_dec_value(gb.subrange(start as int, i as int)),
            is_dec_digit(gb[start as int]),
            gb[start as int] != 48,
        decreases n - i,
    {
        let d: u64 = (b[i] - 48) as u64;
        let stepped = match val.checked_mul(10) {
            Some(x) => x.checked_add(d),
            None => None,
        };
        match stepped {
            Some(x) => {
                proof {
                    assert(gb.subrange(start as int, i + 1).drop_last() =~= gb.subrange(
                        start as int,
                        i as int,
                    ));
                    assert(gb.subrange(start as int, i + 1).last() == gb[i as int]);
                }
                val = x;
            },
            None => {
                // the digit run at `start` denotes a value beyond u64
                proof {
                    assert(val * 10 + d > u64::MAX);
                    assert forall|v: u64| !dec_at(gb, start as int, v) by {
                        lemma_dec_u64_shape(v);
                        if dec_at(gb, start as int, v) {
                            let d2 = spec_dec_u64(v);
                            let e = start + d2.len();
                            if e <= i {
                                assert(is_dec_digit(gb[e]));
                                assert(false);
                            }
                            assert(gb.subrange(start as int, i + 1) =~= d2.subrange(
                                0,
                                i + 1 - start,
                            ));
                            lemma_dec_value_prefix(d2, i + 1 - start);
                            lemma_dec_u64_value(v);
                            assert(gb.subrange(start as int, i + 1).drop_last() =~= gb.subrange(
                                start as int,
                                i as int,
                            ));
                            assert(gb.subrange(start as int, i + 1).last() == gb[i as int]);
                            assert(spec_dec_value(gb.subrange(start as int, i + 1)) == val * 10 + (
                            gb[i as int] - 48));
                            assert(spec_dec_value(d2) <= u64::MAX);
                            assert(false);
                        }
                    }
                }
                return None;
            },
        }
        i = i + 1;
    }
    proof {
        assert(i > start);
        let run = gb.subrange(start as int, i as int);
        assert(run[0] == gb[start as int]);
        lemma_dec_canonical(run);
        assert(spec_dec_u64(val) == run);
        assert forall|v: u64| dec_at(gb, start as int, v) implies v == val && start
            + spec_dec_u64(v).len() == i by {
            lemma_dec_u64_shape(v);
            let d2 = spec_dec_u64(v);
            let e = start + d2.len();
            if e < i {
                assert(is_dec_digit(gb[e]));
                assert(false);
            }
            if e > i {
                assert(d2[i - start] == gb[i as int]);
                assert(is_dec_digit(gb[i as int]));
                assert(i < n);
                assert(false);
            }
            assert(d2 =~= run);
            lemma_dec_u64_value(v);
            lemma_dec_u64_value(val);
        }
    }
    Some((val, i))
}

} // verus!
