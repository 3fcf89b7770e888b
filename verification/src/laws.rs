//! The laws of the searcher, stated and proved once over the contracts that
//! every search operation in the crate carries.

use vstd::prelude::*;

use crate::theory::lemma_no_smaller_period_in_scope;
use crate::theory::lemma_period_restrict;
use crate::words::Hrp;
use crate::words::has_period;
use crate::words::is_first_match;
use crate::words::match_at;
use crate::words::simple_pattern;

verus! {

/// Reference equivalence: the leftmost-occurrence contract determines the
/// result, so any two searches that meet it — the linear searcher and the
/// brute-force reference — return the same answer on the same inputs.
pub proof fn lemma_first_match_unique<T>(
    text: Seq<T>,
    pat: Seq<T>,
    r1: Option<usize>,
    r2: Option<usize>,
)
    requires
        is_first_match(text, pat, r1),
        is_first_match(text, pat, r2),
    ensures
        r1 == r2,
{
    match (r1, r2) {
        (Some(i1), Some(i2)) => {
            if i1 < i2 {
                assert(!match_at(text, pat, i1 as int));
            }
            if i2 < i1 {
                assert(!match_at(text, pat, i2 as int));
            }
        },
        (Some(i1), None) => {
            assert(!match_at(text, pat, i1 as int));
        },
        (None, Some(i2)) => {
            assert(!match_at(text, pat, i2 as int));
        },
        (None, None) => {
        },
    }
}

/// Self-match: a search that meets the leftmost-occurrence contract finds
/// every pattern in itself at offset zero.
pub proof fn lemma_self_match<T>(pat: Seq<T>, r: Option<usize>)
    requires
        is_first_match(pat, pat, r),
    ensures
        r == Some(0usize),
{
    assert(match_at(pat, pat, 0));
    match r {
        Some(i) => {
            if i != 0 {
                assert(!match_at(pat, pat, 0));
            }
        },
        None => {
            assert(!match_at(pat, pat, 0));
        },
    }
}

/// Empty-pattern identity: the empty pattern is found at offset zero in
/// every text, including the empty text.
pub proof fn lemma_empty_pattern<T>(text: Seq<T>, r: Option<usize>)
    requires
        is_first_match(text, Seq::<T>::empty(), r),
    ensures
        r == Some(0usize),
{
    assert(match_at(text, Seq::<T>::empty(), 0));
    match r {
        Some(i) => {
            if i != 0 {
                assert(!match_at(text, Seq::<T>::empty(), 0));
            }
        },
        None => {
            assert(!match_at(text, Seq::<T>::empty(), 0));
        },
    }
}

/// Length guard: a pattern longer than the text is never found.
pub proof fn lemma_length_guard<T>(text: Seq<T>, pat: Seq<T>, r: Option<usize>)
    requires
        pat.len() > text.len(),
        is_first_match(text, pat, r),
    ensures
        r is None,
{
    if let Some(i) = r {
        assert(match_at(text, pat, i as int));
        assert(false);
    }
}

/// Known-substring bound: searching a text for one of its own sub-ranges
/// succeeds, at the range's start or earlier (the first occurrence may
/// precede it when the substring recurs).
pub proof fn lemma_known_substring<T>(text: Seq<T>, lo: int, hi: int, r: Option<usize>)
    requires
        0 <= lo <= hi <= text.len(),
        is_first_match(text, text.subrange(lo, hi), r),
    ensures
        r is Some,
        r.unwrap() <= lo,
{
    let sub = text.subrange(lo, hi);
    assert(match_at(text, sub, lo));
    match r {
        Some(i) => {
            if lo < i as int {
                assert(!match_at(text, sub, lo));
            }
        },
        None => {
            assert(!match_at(text, sub, lo));
        },
    }
}

/// A word repeated: `block` written out `n` times.
pub open spec fn repeated<T>(block: Seq<T>, n: nat) -> Seq<T>
    decreases n,
{
    if n == 0 {
        Seq::empty()
    } else {
        repeated(block, (n - 1) as nat) + block
    }
}

/// Periodic stress, first half: a repeated word — "ab" written out n times,
/// for any n at least one — is found in itself at offset zero.  (The second
/// half, agreement with the brute-force reference on the periodic stress
/// texts, is `lemma_first_match_unique` applied to those inputs.)
pub proof fn lemma_periodic_self_match<T>(block: Seq<T>, n: nat, r: Option<usize>)
    requires
        1 <= n,
        is_first_match(repeated(block, n), repeated(block, n), r),
    ensures
        r == Some(0usize),
{
    lemma_self_match(repeated(block, n), r);
}

/// Scope invariant: for the record returned alongside any k-simple `v`,
/// every prefix of `v` whose length falls in the scope `[2 * period, len]`
/// has shortest period exactly `period`.
pub proof fn lemma_scope_invariant<T>(v: Seq<T>, h: Hrp, len: int)
    requires
        simple_pattern(v, Some(h)),
        2 * (h.period as int) <= len <= h.len as int,
    ensures
        has_period(v, len, h.period as int),
        forall|d: int| 1 <= d < h.period as int ==> !has_period(v, len, d),
{
    lemma_period_restrict(v, h.len as int, len, h.period as int);
    assert forall|d: int| 1 <= d < h.period as int implies !has_period(v, len, d) by {
        lemma_no_smaller_period_in_scope(v, h.period as int, h.len as int, len, d);
    }
}

} // verus!
