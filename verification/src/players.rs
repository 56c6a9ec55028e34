//! Validation of player-supplied values before any database work.
//!
//! A nickname is trimmed of surrounding whitespace and must be nonempty,
//! short enough, and — unless the service allows more — made of ASCII
//! letters, digits, spaces and underscores.  An opaque player token must
//! be nonempty and at most 64 bytes before it is looked up.

use vstd::prelude::*;

verus! {

use vstd::string::StringSliceAdditionalSpecFns;

use crate::errors::ServerErrorCode;

/// An ASCII whitespace byte, as trimming removes it.
pub open spec fn is_ascii_space(b: u8) -> bool {
    b == 9 || b == 10 || b == 11 || b == 12 || b == 13 || b == 32
}

/// A byte a nickname may carry when only ASCII is allowed: letters,
/// digits, space or underscore.
pub open spec fn allowed_nickname_byte(b: u8) -> bool {
    (48 <= b <= 57) || (65 <= b <= 90) || (97 <= b <= 122) || b == 32 || b == 95
}

/// Checks a submitted nickname: trimmed of surrounding ASCII whitespace
/// it must be nonempty, at most `maxlength` bytes, and — unless
/// `allow_non_ascii` — made only of allowed bytes.  The error names the
/// first rule broken, in that order.
pub fn validate_nickname(nickname: &str, maxlength: usize, allow_non_ascii: bool) -> (r: Result<
    (),
    ServerErrorCode,
>)
    ensures
        exists|lo: int, hi: int|
            #![trigger nickname.spec_bytes().subrange(lo, hi)]
            {
                let b = nickname.spec_bytes();
                &&& 0 <= lo <= hi <= b.len()
                &&& (forall|i: int| 0 <= i < lo ==> is_ascii_space(#[trigger] b[i]))
                &&& (forall|i: int| hi <= i < b.len() ==> is_ascii_space(#[trigger] b[i]))
                &&& (lo == hi ==> hi == b.len())
                &&& (lo < hi ==> !is_ascii_space(b[lo]) && !is_ascii_space(b[hi - 1]))
                &&& (lo == hi ==> r == Err::<(), ServerErrorCode>(ServerErrorCode::NicknameEmpty))
                &&& (lo < hi && hi - lo > maxlength ==> r == Err::<(), ServerErrorCode>(
                    ServerErrorCode::NicknameToolong,
                ))
                &&& (lo < hi && hi - lo <= maxlength && !allow_non_ascii && (exists|i: int|
                    lo <= i < hi && !allowed_nickname_byte(#[trigger] b[i])) ==> r == Err::<
                    (),
                    ServerErrorCode,
                >(ServerErrorCode::NicknameForbiddenCharacters))
                &&& (lo < hi && hi - lo <= maxlength && (allow_non_ascii || forall|i: int|
                    lo <= i < hi ==> allowed_nickname_byte(#[trigger] b[i])) ==> r == Ok::<
                    (),
                    ServerErrorCode,
                >(()))
            },
{
    let b = nickname.as_bytes();
    let n = b.len();
    let mut lo: usize = 0;
    while lo < n && (b[lo] == 9 || b[lo] == 10 || b[lo] == 11 || b[lo] == 12 || b[lo] == 13
        || b[lo] == 32)
        invariant
            lo <= n,
            n == b@.len(),
            forall|i: int| 0 <= i < lo ==> is_ascii_space(#[trigger] b@[i]),
        decreases n - lo,
    {
        lo = lo + 1;
    }
    if lo == n {
        proof {
            assert(nickname.spec_bytes().subrange(n as int, n as int)
                =~= Seq::<u8>::empty());
        }
        return Err(ServerErrorCode::NicknameEmpty);
    }
    let mut hi: usize = n;
    while hi > lo && (b[hi - 1] == 9 || b[hi - 1] == 10 || b[hi - 1] == 11 || b[hi - 1] == 12 || b[hi
        - 1] == 13 || b[hi - 1] == 32)
        invariant
            lo <= hi <= n,
            n == b@.len(),
            forall|i: int| hi <= i < n ==> is_ascii_space(#[trigger] b@[i]),
        decreases hi,
    {
        hi = hi - 1;
    }
    proof {
        assert(hi > lo);
        assert(nickname.spec_bytes().subrange(lo as int, hi as int)
            == nickname.spec_bytes().subrange(lo as int, hi as int));
    }
    if hi - lo > maxlength {
        return Err(ServerErrorCode::NicknameToolong);
    }
    if !allow_non_ascii {
        let mut i: usize = lo;
        while i < hi
            invariant
                lo <= i <= hi <= n,
                n == b@.len(),
                b@ == nickname.spec_bytes(),
                lo < hi,
                hi - lo <= maxlength,
                !allow_non_ascii,
                !is_ascii_space(b@[lo as int]),
                !is_ascii_space(b@[hi - 1]),
                forall|j: int| 0 <= j < lo ==> is_ascii_space(#[trigger] b@[j]),
                forall|j: int| hi <= j < n ==> is_ascii_space(#[trigger] b@[j]),
                forall|j: int| lo <= j < i ==> allowed_nickname_byte(#[trigger] b@[j]),
            decreases hi - i,
        {
            let c = b[i];
            if !((48 <= c && c <= 57) || (65 <= c && c <= 90) || (97 <= c && c <= 122) || c == 32
                || c == 95) {
                proof {
                    let ghost cut = nickname.spec_bytes().subrange(lo as int, hi as int);
                    assert(!allowed_nickname_byte(nickname.spec_bytes()[i as int]));
                    assert(exists|j: int|
                        lo <= j < hi && !allowed_nickname_byte(
                            #[trigger] nickname.spec_bytes()[j],
                        ));
                }
                return Err(ServerErrorCode::NicknameForbiddenCharacters);
            }
            i = i + 1;
        }
    }
    Ok(())
}

/// Whether an opaque player token has an acceptable shape: nonempty and
/// at most 64 bytes.  Anything else is rejected before the store is
/// asked.
pub fn acceptable_player_token(token: &str) -> (r: bool)
    ensures
        r == (1 <= token.spec_bytes().len() <= 64),
{
    let n = token.as_bytes().len();
    1 <= n && n <= 64
}

} // verus!
