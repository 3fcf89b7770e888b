//! The decomposer: factors a pattern into a short prefix `u` and a k-simple
//! suffix `v`, by repeatedly stripping one least-period block while two
//! repeating prefixes remain.

use vstd::prelude::*;

use crate::finder::find_k_hrp;
use crate::finder::hrp;
use crate::theory::lemma_khrp_period_multiple;
use crate::theory::lemma_max_hrp_bounds_len;
use crate::theory::lemma_suffix_no_small_khrp;
use crate::words::Hrp;
use crate::words::is_khrp;
use crate::words::is_max_hrp;
use crate::words::khrp_exists;
use crate::words::khrps_fit_scope;
use crate::words::no_khrp;
use crate::words::no_khrp_below;
use crate::words::simple_pattern;

verus! {

/// Decompose `pattern` into two words `u`, `v` where `u` is short and `v` is
/// k-simple, returning the one maximal repeating-prefix record of `v`, if
/// any, alongside.
///
/// While the suffix under consideration has two repeating prefixes, its
/// least-period block is stripped off the front; period lengths are
/// nondecreasing along this narrowing, so the scan of each new suffix starts
/// from the period already established.
pub fn decompose<T: Eq>(pattern: &[T]) -> (r: (&[T], &[T], Option<Hrp>))
    requires
        vstd::laws_eq::obeys_concrete_eq::<T>(),
    ensures
        r.0@ == pattern@.subrange(0, r.0@.len() as int),
        r.1@ == pattern@.subrange(r.0@.len() as int, pattern@.len() as int),
        r.0@ + r.1@ == pattern@,
        pattern@.len() > 0 ==> r.1@.len() > 0,
        simple_pattern(r.1@, r.2),
{
    let ghost s = pattern@;
    let m = pattern.len();
    let mut j: usize = 0;
    proof {
        assert(no_khrp_below(s, 1));
        assert(s.subrange(0, m as int) =~= s);
    }
    let (mut hrp1_opt, mut hrp2_opt) = hrp(1, pattern, None);

    while hrp1_opt.is_some() && hrp2_opt.is_some()
        invariant
            vstd::laws_eq::obeys_concrete_eq::<T>(),
            s == pattern@,
            m == pattern@.len(),
            j <= m,
            m == 0 || j < m,
            match hrp1_opt {
                None => no_khrp(s.subrange(j as int, m as int)),
                Some(h1) => {
                    &&& 1 <= h1.period
                    &&& is_max_hrp(
                        s.subrange(j as int, m as int),
                        h1.period as int,
                        h1.len as int,
                    )
                    &&& no_khrp_below(s.subrange(j as int, m as int), h1.period as int)
                    &&& (hrp2_opt is None ==> khrps_fit_scope(
                        s.subrange(j as int, m as int),
                        h1.period as int,
                        h1.len as int,
                    ))
                },
            },
        decreases m - j,
    {
        let h1 = hrp1_opt.unwrap();
        let h2 = hrp2_opt.unwrap();
        proof {
            let y = s.subrange(j as int, m as int);
            assert forall|q: int| 1 <= q < h1.period as int implies !khrp_exists(
                y.subrange(h1.period as int, y.len() as int),
                q,
            ) by {
                lemma_suffix_no_small_khrp(y, h1.period as int, h1.len as int, q);
            }
            assert(y.subrange(h1.period as int, y.len() as int) =~= s.subrange(
                j as int + h1.period as int,
                m as int,
            ));
        }
        j = j + h1.period;
        let tail = &pattern[j..m];
        let (h1n, h2n) = hrp(h1.period, tail, Some(h2.period));
        hrp1_opt = h1n;
        match h1n {
            Some(h1new) => {
                if h1new.period >= h2.period {
                    hrp2_opt = h2n;
                }
            },
            None => {
            },
        }
    }
    proof {
        assert(s.subrange(0, j as int) + s.subrange(j as int, m as int) =~= s);
    }
    let u = &pattern[0..j];
    let v = &pattern[j..m];
    (u, v, hrp1_opt)
}

/// Check, by independent scans, that `u`, `v` is a perfect factorization:
/// `v` must be k-simple, that is, have at most one k-highly-repeating
/// prefix, and any further repeating prefix found from twice the least
/// period on must be a multiple of the least period.  The check succeeds
/// exactly when `v` is k-simple.
pub fn is_perfect_decomposition<T: Eq>(k: usize, u: &[T], v: &[T]) -> (ok: bool)
    requires
        vstd::laws_eq::obeys_concrete_eq::<T>(),
        k == 3,
    ensures
        ok == exists|h: Option<Hrp>| simple_pattern(v@, h),
{
    proof {
        assert(no_khrp_below(v@, 1));
    }
    let (h1, h2) = hrp(1, v, None);
    let mut ok = h2.is_none();
    proof {
        if ok {
            assert(simple_pattern(v@, h1));
        } else {
            // A second record rules every witness out: its length outgrows
            // the scope of the one candidate least-period record.
            let h1v = h1.unwrap();
            let h2v = h2.unwrap();
            let p2 = h2v.period as int;
            let l2 = h2v.len as int;
            assert forall|h: Option<Hrp>| !simple_pattern(v@, h) by {
                if simple_pattern(v@, h) {
                    match h {
                        None => {
                            assert(khrp_exists(v@, h1v.period as int));
                        },
                        Some(hh) => {
                            let p = hh.period as int;
                            let l = hh.len as int;
                            assert(khrp_exists(v@, h1v.period as int));
                            assert(khrp_exists(v@, p));
                            assert(p == h1v.period as int);
                            lemma_max_hrp_bounds_len(v@, p, l, h1v.len as int);
                            lemma_max_hrp_bounds_len(v@, p, h1v.len as int, l);
                            assert(is_khrp(v@, p2, l2));
                            assert(2 * p <= l2 <= l);
                            assert(3 * p2 >= 3 * (l - p) >= 2 * l);
                            assert(false);
                        },
                    }
                }
            }
        }
    }
    // Independent cross-check with the quadratic reference finder.
    let n = v.len();
    match find_k_hrp(1, v) {
        Some(prefix_period1) => {
            proof {
                let len = choose|len: int| is_khrp(v@, prefix_period1 as int, len);
                assert(is_khrp(v@, prefix_period1 as int, len));
                assert(3 * (prefix_period1 as int) <= n as int);
                assert(2 * (prefix_period1 as int) + 1 <= usize::MAX);
            }
            match find_k_hrp(2 * prefix_period1 + 1, v) {
                Some(prefix_period2) => {
                    if prefix_period2 % prefix_period1 != 0 {
                        proof {
                            // A non-multiple further period rules every
                            // witness out as well.
                            let p1 = prefix_period1 as int;
                            let len2 = choose|len: int| is_khrp(v@, prefix_period2 as int, len);
                            assert(is_khrp(v@, prefix_period2 as int, len2));
                            assert forall|h: Option<Hrp>| !simple_pattern(v@, h) by {
                                if simple_pattern(v@, h) {
                                    match h {
                                        None => {
                                            assert(khrp_exists(v@, p1));
                                        },
                                        Some(hh) => {
                                            let p = hh.period as int;
                                            assert(khrp_exists(v@, p1));
                                            assert(khrp_exists(v@, p));
                                            assert(p == p1);
                                            lemma_khrp_period_multiple(
                                                v@,
                                                p,
                                                hh.len as int,
                                                prefix_period2 as int,
                                                len2,
                                            );
                                        },
                                    }
                                }
                            }
                        }
                        ok = false;
                    }
                },
                None => {
                },
            }
        },
        None => {
        },
    }
    ok
}

} // verus!
