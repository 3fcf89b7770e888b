//! Brute-force reference search, comparing a whole window at each offset.

use vstd::prelude::*;

use crate::prefix::text_has_prefix;
use crate::words::is_first_match;
use crate::words::match_at;

verus! {

/// Naive quadratic search: try every offset in turn, comparing the whole
/// window against the pattern.  Same leftmost-occurrence contract as the
/// linear searcher.
pub fn brute_force_search<T: Eq>(text: &[T], pattern: &[T]) -> (r: Option<usize>)
    requires
        vstd::laws_eq::obeys_concrete_eq::<T>(),
    ensures
        is_first_match(text@, pattern@, r),
{
    let ghost t = text@;
    let ghost p = pattern@;
    let n = text.len();
    let m = pattern.len();
    if n < m {
        return None;
    }
    if m == 0 {
        proof {
            assert(match_at(t, p, 0));
        }
        return Some(0);
    }
    let mut i: usize = 0;
    while i < n - m + 1
        invariant
            vstd::laws_eq::obeys_concrete_eq::<T>(),
            t == text@,
            p == pattern@,
            n == text@.len(),
            m == pattern@.len(),
            1 <= m <= n,
            i <= n - m + 1,
            forall|q: int| 0 <= q < i as int ==> !match_at(t, p, q),
        decreases n - m + 1 - i,
    {
        let window = &text[i..n];
        if text_has_prefix(window, pattern) {
            proof {
                assert forall|x: int| 0 <= x < m as int implies t[i as int + x]
                    == #[trigger] p[x] by {
                    assert(window@[x] == p[x]);
                }
            }
            return Some(i);
        }
        proof {
            if match_at(t, p, i as int) {
                assert forall|x: int| 0 <= x < m as int implies window@[x] == #[trigger] p[x] by {
                    assert(t[i as int + x] == p[x]);
                }
                assert(match_at(window@, p, 0));
                assert(false);
            }
        }
        i = i + 1;
    }
    proof {
        assert forall|q: int| !match_at(t, p, q) by {
            if match_at(t, p, q) {
                assert(q + m as int <= n as int);
            }
        }
    }
    None
}

} // verus!
