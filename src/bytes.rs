use vstd::prelude::*;
use vstd::string::*;
use vstd::utf8::*;

verus! {

broadcast use vstd::utf8::group_utf8_lib;

/// Whether `n` occurs in `h` starting at byte `k`.
pub open spec fn occurs_at(h: Seq<u8>, n: Seq<u8>, k: int) -> bool {
    0 <= k && k + n.len() <= h.len() && h.subrange(k, k + n.len()) == n
}

/// The first position at or after `k` where `n` occurs in `h`, if any.
pub open spec fn first_match_from(h: Seq<u8>, n: Seq<u8>, k: int) -> Option<int>
    decreases h.len() + 1 - k,
{
    if k < 0 || k + n.len() > h.len() {
        None
    } else if h.subrange(k, k + n.len()) == n {
        Some(k)
    } else {
        first_match_from(h, n, k + 1)
    }
}

/// The first position where `n` occurs in `h`, if any; an empty `n` occurs
/// at 0.
pub open spec fn first_occurrence(h: Seq<u8>, n: Seq<u8>) -> Option<int> {
    first_match_from(h, n, 0)
}

fn matches_at(h: &[u8], n: &[u8], k: usize) -> (r: bool)
    requires
        k + n@.len() <= h@.len(),
    ensures
        r == (h@.subrange(k as int, k + n@.len()) == n@),
{
    let hl: usize = h.len();
    let mut i: usize = 0;
    while i < n.len()
        invariant
            hl == h@.len(),
            k + n@.len() <= h@.len(),
            i <= n@.len(),
            forall|j: int| 0 <= j < i ==> h@[k + j] == n@[j],
        decreases n@.len() - i,
    {
        if h[k + i] != n[i] {
            assert(h@.subrange(k as int, k + n@.len())[i as int] != n@[i as int]);
            return false;
        }
        i = i + 1;
    }
    assert(h@.subrange(k as int, k + n@.len()) =~= n@);
    true
}

/// Finds the first occurrence of `n` in `h`, as a byte offset into `h`.
pub fn find_bytes(h: &[u8], n: &[u8]) -> (r: Option<usize>)
    ensures
        r matches Some(k) ==> first_occurrence(h@, n@) == Some(k as int),
        r is None ==> first_occurrence(h@, n@) is None,
{
    if n.len() > h.len() {
        return None;
    }
    let last: usize = h.len() - n.len();
    let mut k: usize = 0;
    loop
        invariant
            last == h@.len() - n@.len(),
            k <= last,
            first_match_from(h@, n@, 0) == first_match_from(h@, n@, k as int),
        decreases last - k,
    {
        if matches_at(h, n, k) {
            return Some(k);
        }
        if k == last {
            assert(first_match_from(h@, n@, k + 1) is None);
            return None;
        }
        k = k + 1;
    }
}

/// The first character boundary of `b` at or after `i` (for `i` past the
/// end, `i` itself).
pub open spec fn boundary_at_or_after(b: Seq<u8>, i: int) -> int
    decreases b.len() - i,
{
    if i >= b.len() || is_char_boundary(b, i) {
        i
    } else {
        boundary_at_or_after(b, i + 1)
    }
}

/// A match found from `k` on lies at or after `k`.
pub proof fn lemma_first_match_not_before(h: Seq<u8>, n: Seq<u8>, k: int)
    ensures
        first_match_from(h, n, k) matches Some(j) ==> j >= k,
    decreases h.len() + 1 - k,
{
    if !(k < 0 || k + n.len() > h.len()) && h.subrange(k, k + n.len()) != n {
        lemma_first_match_not_before(h, n, k + 1);
    }
}

/// Rounding up never moves an offset backwards.
pub proof fn lemma_boundary_not_before(b: Seq<u8>, i: int)
    ensures
        boundary_at_or_after(b, i) >= i,
    decreases b.len() - i,
{
    if !(i >= b.len() || is_char_boundary(b, i)) {
        lemma_boundary_not_before(b, i + 1);
    }
}

/// Rounds `i` up to the next character boundary of `s`.
pub fn round_up_to_boundary(s: &str, i: usize) -> (r: usize)
    requires
        i <= s.spec_bytes().len(),
    ensures
        r == boundary_at_or_after(s.spec_bytes(), i as int),
        i <= r <= s.spec_bytes().len(),
        is_char_boundary(s.spec_bytes(), r as int),
{
    let n: usize = s.as_bytes().len();
    let mut j: usize = i;
    while j < n && !s.is_char_boundary(j)
        invariant
            n == s.spec_bytes().len(),
            i <= j <= n,
            boundary_at_or_after(s.spec_bytes(), i as int) == boundary_at_or_after(
                s.spec_bytes(),
                j as int,
            ),
        decreases n - j,
    {
        j = j + 1;
    }
    proof {
        is_char_boundary_start_end_of_seq(s.spec_bytes());
    }
    j
}

} // verus!
