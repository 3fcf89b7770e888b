//! The repeating-prefix finder: scans a pattern for its first two
//! k-highly-repeating prefixes in linear time, and a quadratic reference
//! finder used by the decomposition self-check.

use vstd::prelude::*;

use crate::prefix::longest_common_prefix_from;
use crate::theory::lemma_khrp_between_bounded;
use crate::theory::lemma_no_smaller_period_in_scope;
use crate::theory::lemma_max_hrp_bounds_len;
use crate::theory::lemma_skip_period;
use crate::words::Hrp;
use crate::words::has_period;
use crate::words::is_khrp;
use crate::words::is_max_hrp;
use crate::words::khrp_exists;
use crate::words::khrps_fit_scope;
use crate::words::no_khrp;
use crate::words::no_khrp_below;

verus! {

/// The second record is asked for only when the first record's period is no
/// smaller than the given bound.
pub open spec fn second_hrp_wanted(limit: Option<usize>, h1: Hrp) -> bool {
    match limit {
        None => true,
        Some(lim) => lim <= h1.period,
    }
}

/// Find the first two k-highly-repeating prefixes of `pattern` whose period
/// is at least `period`, for k = 3.
///
/// The first record returned is maximal for its period and, when no
/// repeating prefix with a period below the starting bound exists, it is the
/// record with the least period overall, and every repeating prefix with a
/// larger period lies inside its scope unless the second record reports one.
/// The search for a second record is abandoned when the first record's
/// period falls below `hrp2_period`.
#[verifier::rlimit(60)]
pub fn hrp<T: Eq>(period: usize, pattern: &[T], hrp2_period: Option<usize>) -> (r: (
    Option<Hrp>,
    Option<Hrp>,
))
    requires
        vstd::laws_eq::obeys_concrete_eq::<T>(),
        1 <= period,
    ensures
        r.0 is None ==> r.1 is None,
        r.0 is None && no_khrp_below(pattern@, period as int) ==> no_khrp(pattern@),
        match r.0 {
            Some(h1) => {
                &&& period <= h1.period
                &&& is_max_hrp(pattern@, h1.period as int, h1.len as int)
                &&& (no_khrp_below(pattern@, period as int) ==> no_khrp_below(
                    pattern@,
                    h1.period as int,
                ))
                &&& match r.1 {
                    Some(h2) => {
                        &&& is_max_hrp(pattern@, h2.period as int, h2.len as int)
                        &&& h1.len - h1.period <= h2.period
                        &&& 2 * h1.period < h2.period
                    },
                    None => (no_khrp_below(pattern@, period as int) && second_hrp_wanted(
                        hrp2_period,
                        h1,
                    )) ==> khrps_fit_scope(pattern@, h1.period as int, h1.len as int),
                }
            },
            None => true,
        },
{
    let ghost s = pattern@;
    let ghost seed = period as int;
    let ghost clean = no_khrp_below(s, seed);
    let m = pattern.len();
    let hrp2_period_limit = match hrp2_period {
        Some(p) => p,
        None => 0,
    };
    let mut per = period;
    let mut j: usize = 0;
    let mut hrp1: Option<Hrp> = None;

    while per + j < m
        invariant
            seed == period as int,
            hrp2_period_limit == match hrp2_period {
                Some(p) => p,
                None => 0usize,
            },
            vstd::laws_eq::obeys_concrete_eq::<T>(),
            s == pattern@,
            m == pattern@.len(),
            clean == no_khrp_below(s, seed),
            1 <= seed <= per,
            j == 0 || per + j <= m,
            j < 2 * per,
            forall|x: int| 0 <= x < j as int ==> #[trigger] s[x] == s[x + per as int],
            match hrp1 {
                None => clean ==> no_khrp_below(s, per as int),
                Some(h1) => {
                    &&& seed <= h1.period as int
                    &&& is_max_hrp(s, h1.period as int, h1.len as int)
                    &&& h1.len - h1.period <= per
                    &&& (clean ==> no_khrp_below(s, h1.period as int))
                    &&& (clean ==> forall|q: int, len: int|
                        (h1.period as int) < q < (per as int) && #[trigger] is_khrp(s, q, len)
                            ==> 2 * (h1.period as int) <= len <= h1.len as int)
                },
            },
        decreases 3 * (m as int - per as int) - j as int,
    {
        let tail = &pattern[per..m];
        let j2 = longest_common_prefix_from(j, pattern, tail);
        proof {
            assert forall|x: int| 0 <= x < j2 as int implies #[trigger] s[x] == s[x
                + per as int] by {
                if j as int <= x {
                    assert(s[x] == tail@[x]);
                }
            }
        }
        j = j2;
        let prefix_length = per + j;
        proof {
            // The current candidate period admits no repeating prefix beyond
            // `prefix_length`, so none at all unless that is long enough.
            assert forall|len: int|
                (prefix_length as int) < len <= (m as int) implies !has_period(s, len, per as int) by {
                if has_period(s, len, per as int) {
                    assert(j < m - per);
                    assert(s[j as int] == s[j as int + per as int]);
                    assert(false);
                }
            }
        }
        if per <= prefix_length / 3 {
            proof {
                assert(3 * (prefix_length / 3) <= prefix_length);
                assert(is_max_hrp(s, per as int, prefix_length as int));
            }
            let next = Hrp { period: per, len: prefix_length };
            match hrp1 {
                Some(h1) => {
                    proof {
                        // The second record's period strictly exceeds twice
                        // the first's: at exactly twice, the first record's
                        // periodicity would extend by one more element.
                        let p1 = h1.period as int;
                        let l1 = h1.len as int;
                        if per as int == 2 * p1 {
                            assert(l1 == 3 * p1);
                            assert(s[p1] == s[p1 + per as int]);
                            assert(s[p1] == s[p1 + p1]);
                            assert(false);
                        }
                    }
                    return (hrp1, Some(next));
                },
                None => {
                    hrp1 = Some(next);
                    if per < hrp2_period_limit {
                        return (hrp1, None);
                    }
                    proof {
                        let p1 = per as int;
                        let l1 = prefix_length as int;
                        assert forall|q: int, len: int|
                            clean && p1 < q < j as int && #[trigger] is_khrp(s, q, len) implies 2
                            * p1 <= len <= l1 by {
                            lemma_khrp_between_bounded(s, p1, l1, q, len);
                        }
                    }
                    per = j;
                    j = 0;
                },
            }
        } else {
            let scope_skip = match hrp1 {
                Some(h) => h.period * 2 <= j && j <= h.len,
                None => false,
            };
            proof {
                // No repeating prefix has the current candidate period:
                // its longest periodic prefix falls short of three blocks.
                assert forall|len: int| !is_khrp(s, per as int, len) by {
                    if is_khrp(s, per as int, len) {
                        assert(len <= prefix_length as int);
                    }
                }
                // Under a clean start, the candidate periods skipped by this
                // advance admit no repeating prefix either.
                let q0 = per as int;
                let jj = j as int;
                let skip_to = if scope_skip {
                    q0 + hrp1.unwrap().period as int
                } else {
                    q0 + jj / 3 + 1
                };
                assert forall|q: int, len: int|
                    clean && q0 < q < skip_to && #[trigger] is_khrp(s, q, len) implies false by {
                    if prefix_length == m {
                        assert(3 * q > q0 + jj);
                    } else {
                        assert(s[jj] != s[jj + q0]);
                        let t = q - q0;
                        assert(3 * (jj / 3) <= jj);
                        lemma_skip_period(s, q0, jj, q, len);
                        match hrp1 {
                            None => {
                                assert(is_khrp(s, t, jj));
                                assert(khrp_exists(s, t));
                            },
                            Some(h1) => {
                                let p1 = h1.period as int;
                                let l1 = h1.len as int;
                                if t < p1 {
                                    if scope_skip {
                                        lemma_no_smaller_period_in_scope(s, p1, l1, jj, t);
                                    } else {
                                        assert(is_khrp(s, t, jj));
                                        assert(khrp_exists(s, t));
                                    }
                                } else if t == p1 {
                                    lemma_max_hrp_bounds_len(s, p1, l1, jj);
                                } else {
                                    assert(is_khrp(s, t, jj));
                                }
                            },
                        }
                    }
                }
            }
            if scope_skip {
                let h = match hrp1 {
                    Some(h) => h,
                    None => Hrp { period: 0, len: 0 },
                };
                proof {
                    let p1 = h.period as int;
                    assert forall|x: int| 0 <= x < j as int - p1 implies #[trigger] s[x] == s[x
                        + (per as int + p1)] by {
                        assert(s[x] == s[x + p1]);
                        assert(s[x + p1] == s[x + p1 + per as int]);
                    }
                }
                per = per + h.period;
                j = j - h.period;
            } else {
                per = per + j / 3 + 1;
                proof {
                    assert(3 * (j / 3) <= j as int);
                }
                j = 0;
            }
        }
    }
    proof {
        // Beyond the final candidate no repeating prefix fits: three blocks
        // would outrun the pattern.
        assert forall|q: int, len: int|
            (per as int) <= q && #[trigger] is_khrp(s, q, len) implies false by {
            assert(len <= m as int);
            assert(m as int <= per as int + j as int);
        }
        assert forall|q: int| (per as int) <= q implies !khrp_exists(s, q) by {
            if khrp_exists(s, q) {
                let len = choose|len: int| is_khrp(s, q, len);
                assert(is_khrp(s, q, len));
            }
        }
    }
    (hrp1, None)
}

/// Reference finder: the least period, at least `period`, of some
/// k-highly-repeating prefix of `x`, by trying every candidate period in
/// turn.  Quadratic, used only to cross-check a decomposition.
pub fn find_k_hrp<T: Eq>(period: usize, x: &[T]) -> (r: Option<usize>)
    requires
        vstd::laws_eq::obeys_concrete_eq::<T>(),
        1 <= period,
    ensures
        match r {
            Some(p) => {
                &&& period <= p < x@.len()
                &&& khrp_exists(x@, p as int)
                &&& forall|q: int| (period as int) <= q < (p as int) ==> !khrp_exists(x@, q)
            },
            None => forall|q: int| period as int <= q ==> !khrp_exists(x@, q),
        },
{
    let ghost s = x@;
    let m = x.len();
    let mut pos: usize = 0;
    let mut per = period;
    while per < m
        invariant
            vstd::laws_eq::obeys_concrete_eq::<T>(),
            s == x@,
            m == x@.len(),
            1 <= period <= per,
            pos == 0,
            forall|q: int| (period as int) <= q < (per as int) ==> !khrp_exists(s, q),
        decreases m - per,
    {
        while pos < m - per && x[pos] == x[pos + per]
            invariant
                vstd::laws_eq::obeys_concrete_eq::<T>(),
                s == x@,
                m == x@.len(),
                1 <= per < m,
                pos <= m - per,
                forall|i: int| 0 <= i < pos as int ==> #[trigger] s[i] == s[i + per as int],
            decreases m - per - pos,
        {
            proof {
                reveal(vstd::laws_eq::obeys_concrete_eq);
            }
            pos = pos + 1;
        }
        proof {
            reveal(vstd::laws_eq::obeys_concrete_eq);
        }
        if per <= pos / 2 {
            proof {
                assert(2 * (pos / 2) <= pos);
                assert(is_khrp(s, per as int, pos as int + per as int));
                assert(khrp_exists(s, per as int));
            }
            return Some(per);
        }
        proof {
            assert forall|len: int| !is_khrp(s, per as int, len) by {
                if is_khrp(s, per as int, len) {
                    if (pos as int) + (per as int) < len {
                        assert(s[pos as int] == s[pos as int + per as int]);
                    }
                    assert(2 * (pos / 2) + 1 >= pos);
                    assert(false);
                }
            }
            assert(!khrp_exists(s, per as int)) by {
                if khrp_exists(s, per as int) {
                    let len = choose|len: int| is_khrp(s, per as int, len);
                    assert(is_khrp(s, per as int, len));
                }
            }
        }
        pos = 0;
        per = per + 1;
    }
    proof {
        assert forall|q: int| (per as int) <= q implies !khrp_exists(s, q) by {
            if khrp_exists(s, q) {
                let len = choose|len: int| is_khrp(s, q, len);
                assert(len <= m as int);
            }
        }
    }
    None
}

} // verus!
