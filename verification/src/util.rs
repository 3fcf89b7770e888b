//! Brute-force reference search, comparing element by element.

use vstd::prelude::*;

use crate::words::is_first_match;
use crate::words::match_at;

verus! {

/// Naive quadratic search: try every offset in turn, comparing one element
/// at a time.  The contract is the same leftmost-occurrence statement that
/// the linear searcher carries, so the two provably agree.
pub fn brute_force_search<T: Eq>(text: &[T], pattern: &[T]) -> (r: Option<usize>)
    requires
        vstd::laws_eq::obeys_concrete_eq::<T>(),
    ensures
        is_first_match(text@, pattern@, r),
{
    let ghost t = text@;
    let ghost p = pattern@;
    let n = text.len();
    let m = pattern.len();
    if n < m {
        return None;
    }
    if m == 0 {
        proof {
            assert(match_at(t, p, 0));
        }
        return Some(0);
    }
    let mut i: usize = 0;
    while i < n - m + 1
        invariant
            vstd::laws_eq::obeys_concrete_eq::<T>(),
            t == text@,
            p == pattern@,
            n == text@.len(),
            m == pattern@.len(),
            1 <= m <= n,
            i <= n - m + 1,
            forall|q: int| 0 <= q < i as int ==> !match_at(t, p, q),
        decreases n - m + 1 - i,
    {
        let mut j: usize = 0;
        while j < m && text[i + j] == pattern[j]
            invariant
                vstd::laws_eq::obeys_concrete_eq::<T>(),
                t == text@,
                p == pattern@,
                n == text@.len(),
                m == pattern@.len(),
                i + m <= n,
                j <= m,
                forall|x: int| 0 <= x < j as int ==> t[i as int + x] == #[trigger] p[x],
            decreases m - j,
        {
            proof {
                reveal(vstd::laws_eq::obeys_concrete_eq);
            }
            j = j + 1;
        }
        proof {
            reveal(vstd::laws_eq::obeys_concrete_eq);
        }
        if j == m {
            return Some(i);
        }
        proof {
            assert(t[i as int + j as int] != p[j as int]);
        }
        i = i + 1;
    }
    proof {
        assert forall|q: int| !match_at(t, p, q) by {
            if match_at(t, p, q) {
                assert(q + m as int <= n as int);
            }
        }
    }
    None
}

} // verus!
