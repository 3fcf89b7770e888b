//! The scoped linear search for a k-simple pattern, and the orchestrator
//! that ties decomposition, search and prefix verification together.

use vstd::prelude::*;

use crate::decompose::decompose;
use crate::prefix::longest_common_prefix_from;
use crate::prefix::text_has_prefix;
use crate::theory::lemma_match_at_concat;
use crate::theory::lemma_match_at_tail;
use crate::theory::lemma_max_hrp_bounds_len;
use crate::theory::lemma_no_smaller_period_in_scope;
use crate::theory::lemma_overlap_period;
use crate::words::Hrp;
use crate::words::is_first_match;
use crate::words::is_khrp;
use crate::words::khrp_exists;
use crate::words::match_at;
use crate::words::simple_pattern;

verus! {

/// The cursor `(pos, j)` is consistent: `j` elements of `pattern` match the
/// text at offset `pos`.
pub open spec fn cursor_ok<T>(text: Seq<T>, pattern: Seq<T>, pos: int, j: int) -> bool {
    &&& 0 <= pos
    &&& 0 <= j <= pattern.len()
    &&& pos + j <= text.len()
    &&& forall|x: int| 0 <= x < j ==> text[pos + x] == #[trigger] pattern[x]
}

/// Search `text` for `pattern` with the requirement that the pattern is
/// k-simple, witnessed by `hrp1`.  `(start_pos, start_j)` is the cursor the
/// search resumes from, and is updated so that repeated calls enumerate
/// successive occurrences: on a match at `i`, every position between the
/// resumption point and `i`, and between `i` and the new cursor, holds no
/// occurrence; on `None`, no position from the resumption point on does.
pub fn search_simple<T: Eq>(
    text: &[T],
    pattern: &[T],
    start_pos: &mut usize,
    start_j: &mut usize,
    hrp1: &Option<Hrp>,
) -> (r: Option<usize>)
    requires
        vstd::laws_eq::obeys_concrete_eq::<T>(),
        simple_pattern(pattern@, *hrp1),
        1 <= pattern@.len() <= text@.len(),
        cursor_ok(text@, pattern@, *old(start_pos) as int, *old(start_j) as int),
    ensures
        match r {
            Some(i) => {
                &&& *old(start_pos) <= i
                &&& match_at(text@, pattern@, i as int)
                &&& forall|q: int|
                    (*old(start_pos) as int) <= q < (i as int) ==> !match_at(text@, pattern@, q)
                &&& (i as int) < (*final(start_pos) as int)
                &&& forall|q: int|
                    (i as int) < q < (*final(start_pos) as int) ==> !match_at(text@, pattern@, q)
                &&& cursor_ok(text@, pattern@, *final(start_pos) as int, *final(start_j) as int)
            },
            None => {
                &&& forall|q: int|
                    (*old(start_pos) as int) <= q ==> !match_at(text@, pattern@, q)
                &&& cursor_ok(text@, pattern@, *final(start_pos) as int, *final(start_j) as int)
            },
        },
{
    let ghost t = text@;
    let ghost v = pattern@;
    let ghost opos = *start_pos as int;
    let n = text.len();
    let m = pattern.len();

    let (has_scope, scope_l, scope_r) = match hrp1 {
        Some(h) => {
            proof {
                assert(3 * (h.period as int) <= h.len as int <= m as int);
            }
            (true, h.period * 2, h.len)
        },
        None => (false, 0usize, 0usize),
    };

    let mut pos = *start_pos;
    let mut j = *start_j;
    while pos <= n - m
        invariant
            vstd::laws_eq::obeys_concrete_eq::<T>(),
            t == text@,
            v == pattern@,
            n == text@.len(),
            m == pattern@.len(),
            1 <= m <= n,
            simple_pattern(v, *hrp1),
            has_scope == (hrp1 is Some),
            match *hrp1 {
                Some(h) => scope_l == 2 * h.period && scope_r == h.len,
                None => true,
            },
            opos == *old(start_pos) as int,
            opos <= pos as int,
            cursor_ok(t, v, pos as int, j as int),
            forall|q: int| opos <= q < pos as int ==> !match_at(t, v, q),
        decreases n - pos,
    {
        let tl = &text[pos..n];
        let j2 = longest_common_prefix_from(j, tl, pattern);
        proof {
            assert forall|x: int| 0 <= x < j2 as int implies t[pos as int + x] == #[trigger] v[x] by {
                if j as int <= x {
                    assert(tl@[x] == v[x]);
                }
            }
            if (j2 as int) < m as int {
                assert(t[pos as int + j2 as int] != v[j2 as int]) by {
                    assert(tl@[j2 as int] != v[j2 as int]);
                }
            }
        }
        j = j2;
        let found: Option<usize> = if j == m {
            Some(pos)
        } else {
            None
        };
        let ghost old_pos = pos as int;
        let ghost old_j = j as int;
        if has_scope && scope_l <= j && j <= scope_r {
            let half = scope_l / 2;
            proof {
                let h = hrp1.unwrap();
                let p = h.period as int;
                assert(half as int == p);
                assert forall|q: int|
                    old_pos < q < old_pos + p implies !match_at(t, v, q) by {
                    if match_at(t, v, q) {
                        lemma_overlap_period(t, v, old_pos, q - old_pos, old_j);
                        lemma_no_smaller_period_in_scope(
                            v,
                            p,
                            h.len as int,
                            old_j,
                            q - old_pos,
                        );
                    }
                }
            }
            pos = pos + half;
            j = j - half;
            proof {
                let h = hrp1.unwrap();
                let p = h.period as int;
                assert forall|x: int| 0 <= x < j as int implies t[pos as int + x]
                    == #[trigger] v[x] by {
                    assert(t[old_pos + (p + x)] == v[p + x]);
                    assert(v[x] == v[x + p]);
                }
            }
        } else {
            proof {
                assert(3 * (j as int / 3) <= j as int);
                assert forall|q: int|
                    old_pos < q < old_pos + (j as int) / 3 + 1 implies !match_at(t, v, q) by {
                    if match_at(t, v, q) {
                        let d = q - old_pos;
                        lemma_overlap_period(t, v, old_pos, d, old_j);
                        assert(is_khrp(v, d, old_j));
                        match *hrp1 {
                            None => {
                                assert(khrp_exists(v, d));
                            },
                            Some(h) => {
                                let p = h.period as int;
                                let l = h.len as int;
                                if d < p {
                                    assert(khrp_exists(v, d));
                                } else if d == p {
                                    lemma_max_hrp_bounds_len(v, p, l, old_j);
                                } else {
                                    assert(2 * p <= old_j <= l);
                                }
                            },
                        }
                    }
                }
            }
            pos = pos + j / 3 + 1;
            j = 0;
        }
        match found {
            Some(match_pos) => {
                *start_pos = pos;
                *start_j = j;
                return Some(match_pos);
            },
            None => {
                proof {
                    assert(!match_at(t, v, old_pos));
                }
            },
        }
    }
    proof {
        assert forall|q: int| opos <= q implies !match_at(t, v, q) by {
            if match_at(t, v, q) {
                assert(q + m as int <= n as int);
            }
        }
    }
    *start_pos = pos;
    *start_j = j;
    None
}

/// The Galil-Seiferas string matching algorithm: the lowest offset at which
/// `pattern` occurs as a substring of `text`, or `None` when it does not
/// occur.  Runs in linear time and constant extra space.
#[verifier::rlimit(60)]
pub fn gs_find<T: Eq>(text: &[T], pattern: &[T]) -> (r: Option<usize>)
    requires
        vstd::laws_eq::obeys_concrete_eq::<T>(),
    ensures
        is_first_match(text@, pattern@, r),
{
    let ghost t = text@;
    let ghost p = pattern@;
    let n = text.len();
    let m = pattern.len();
    if m > n {
        return None;
    }
    if m == 0 {
        proof {
            assert(match_at(t, p, 0));
        }
        return Some(0);
    }

    // Preprocess the pattern into u, v with v k-simple.
    let (u, v, hrp1) = decompose(pattern);
    let ulen = u.len();
    let sub = &text[ulen..n];

    // Find each occurrence of v in the text beyond u's length; an occurrence
    // of v at offset i of that tail leaves exactly room for u at offset i of
    // the text, so the candidate position in original coordinates is i.
    let mut pos: usize = 0;
    let mut j: usize = 0;
    loop
        invariant
            vstd::laws_eq::obeys_concrete_eq::<T>(),
            t == text@,
            p == pattern@,
            n == text@.len(),
            m == pattern@.len(),
            1 <= m <= n,
            u@ == p.subrange(0, u@.len() as int),
            v@ == p.subrange(u@.len() as int, m as int),
            u@ + v@ == p,
            1 <= v@.len(),
            ulen == u@.len(),
            ulen + v@.len() == m,
            simple_pattern(v@, hrp1),
            sub@ == t.subrange(ulen as int, n as int),
            cursor_ok(sub@, v@, pos as int, j as int),
            forall|q: int| 0 <= q < pos as int ==> !match_at(t, p, q),
        decreases n - ulen - pos,
    {
        let ghost oldpos = pos as int;
        let found = search_simple(sub, v, &mut pos, &mut j, &hrp1);
        proof {
            // Positions the inner search has ruled out hold no occurrence of
            // the whole pattern either.
            assert forall|q: int|
                0 <= q && !match_at(sub@, v@, q) implies !match_at(t, p, q) by {
                lemma_match_at_concat(t, u@, v@, q);
                lemma_match_at_tail(t, v@, ulen as int, q);
            }
        }
        match found {
            Some(i) => {
                proof {
                    lemma_match_at_tail(t, v@, ulen as int, i as int);
                }
                let tail = &text[i..n];
                if text_has_prefix(tail, u) {
                    proof {
                        lemma_match_at_tail(t, u@, i as int, 0);
                        assert(t.subrange(i as int, n as int) == tail@);
                        lemma_match_at_concat(t, u@, v@, i as int);
                    }
                    return Some(i);
                }
                proof {
                    // u does not precede this occurrence of v, so the whole
                    // pattern does not occur here.
                    lemma_match_at_tail(t, u@, i as int, 0);
                    lemma_match_at_concat(t, u@, v@, i as int);
                    assert(!match_at(t, p, i as int));
                }
            },
            None => {
                proof {
                    assert forall|q: int| !match_at(t, p, q) by {
                        if match_at(t, p, q) {
                            lemma_match_at_concat(t, u@, v@, q);
                            lemma_match_at_tail(t, v@, ulen as int, q);
                        }
                    }
                }
                return None;
            },
        }
    }
}

} // verus!
