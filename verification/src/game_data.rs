//! Release metadata helpers: the repository coordinates a fetcher works
//! on, and the platform name hidden in a release asset's file name.

use vstd::prelude::*;

verus! {

/// The owner and repository a release fetcher reads from.
pub struct Repo {
    pub owner: String,
    pub repository: String,
}

impl Repo {
    pub fn new(owner: &str, repository: &str) -> (r: Repo)
        ensures
            r.owner@ == owner@,
            r.repository@ == repository@,
    {
        Repo { owner: owner.to_owned(), repository: repository.to_owned() }
    }

    pub fn owner(&self) -> (r: &str)
        ensures
            r@ == self.owner@,
    {
        self.owner.as_str()
    }

    pub fn repository(&self) -> (r: &str)
        ensures
            r@ == self.repository@,
    {
        self.repository.as_str()
    }
}

/// The bytes of `needle` stand at position `k` of `s`.
pub open spec fn subseq_at(s: Seq<u8>, needle: Seq<u8>, k: int) -> bool {
    &&& 0 <= k
    &&& k + needle.len() <= s.len()
    &&& s.subrange(k, k + needle.len()) == needle
}

/// Finds the first occurrence of `needle` in `haystack`.
fn find_subslice(haystack: &[u8], needle: &[u8]) -> (r: Option<usize>)
    ensures
        r is Some ==> subseq_at(haystack@, needle@, r->0 as int) && (forall|j: int|
            0 <= j < r->0 ==> !subseq_at(haystack@, needle@, j)),
        r is None ==> forall|j: int| !subseq_at(haystack@, needle@, j),
{
    let n = haystack.len();
    if needle.len() > n {
        return None;
    }
    if needle.len() == 0 {
        proof {
            assert(haystack@.subrange(0, 0) =~= needle@);
        }
        return Some(0);
    }
    let mut j: usize = 0;
    while j <= n - needle.len()
        invariant
            1 <= needle@.len() <= n,
            n == haystack@.len(),
            j <= n - needle@.len() + 1,
            forall|i: int| 0 <= i < j ==> !subseq_at(haystack@, needle@, i),
        decreases n - j,
    {
        if crate::codec::tag_at(haystack, j, needle) {
            return Some(j);
        }
        j = j + 1;
    }
    proof {
        assert forall|i: int| !subseq_at(haystack@, needle@, i) by {
            if subseq_at(haystack@, needle@, i) {
                assert(i < j);
            }
        }
    }
    None
}

/// Strips a release asset's file name down to its platform: everything
/// from the first `.` on goes, then everything from the first
/// `_releasedbg` on.
pub fn remove_game_suffix(asset_name: &[u8]) -> (r: &[u8])
    ensures
        exists|k: int, m: int|
            #![trigger asset_name@.subrange(0, k), asset_name@.subrange(0, m)]
            {
                let s = asset_name@;
                let marker = spec_releasedbg_marker();
                &&& 0 <= m <= k <= s.len()
                &&& (k == s.len() || s[k] == 46)
                &&& (forall|i: int| 0 <= i < k ==> s[i] != 46)
                &&& (m + marker.len() <= k && subseq_at(s.subrange(0, k), marker, m) || (m == k
                    && forall|j: int| !subseq_at(s.subrange(0, k), marker, j)))
                &&& (forall|j: int| 0 <= j < m ==> !subseq_at(s.subrange(0, k), marker, j))
                &&& r@ == s.subrange(0, m)
            },
{
    let n = asset_name.len();
    let mut k: usize = 0;
    while k < n && asset_name[k] != 46
        invariant
            k <= n,
            n == asset_name@.len(),
            forall|i: int| 0 <= i < k ==> asset_name@[i] != 46,
        decreases n - k,
    {
        k = k + 1;
    }
    let platform = &asset_name[0..k];
    let marker: [u8; 11] = [95, 114, 101, 108, 101, 97, 115, 101, 100, 98, 103];
    proof {
        assert(marker@ =~= spec_releasedbg_marker());
    }
    let m = match find_subslice(platform, marker.as_slice()) {
        Some(p) => p,
        None => k,
    };
    &asset_name[0..m]
}

/// The `_releasedbg` marker a debug release carries in its name.
pub open spec fn spec_releasedbg_marker() -> Seq<u8> {
    Seq::new(11, |i: int| if i == 0 { 95u8 } else if i == 1 { 114u8 } else if i == 2 { 101u8 } else if i == 3 { 108u8 } else if i == 4 { 101u8 } else if i == 5 { 97u8 } else if i == 6 { 115u8 } else if i == 7 { 101u8 } else if i == 8 { 100u8 } else if i == 9 { 98u8 } else { 103u8 })
}

} // verus!
