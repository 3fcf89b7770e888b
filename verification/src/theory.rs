//! Combinatorics on words: the lemmas about periods and highly repeating
//! prefixes that justify every skip the searcher and the preprocessor make.

use vstd::prelude::*;

use crate::words::has_period;
use crate::words::is_khrp;
use crate::words::is_max_hrp;
use crate::words::khrp_exists;
use crate::words::match_at;
use crate::words::no_khrp_below;

verus! {

/// `d` divides `n`.
pub open spec fn divides(d: int, n: int) -> bool {
    exists|k: int| n == #[trigger] (d * k)
}

/// Greatest common divisor, by subtraction.
pub open spec fn gcd(a: int, b: int) -> int
    recommends
        1 <= a,
        1 <= b,
    decreases a + b when 1 <= a && 1 <= b
{
    if a == b {
        a
    } else if a < b {
        gcd(a, b - a)
    } else {
        gcd(a - b, b)
    }
}

/// The gcd of two positive integers is positive, at most either of them,
/// and divides both.
pub proof fn lemma_gcd(a: int, b: int)
    requires
        1 <= a,
        1 <= b,
    ensures
        1 <= gcd(a, b) <= a,
        gcd(a, b) <= b,
        divides(gcd(a, b), a),
        divides(gcd(a, b), b),
    decreases a + b,
{
    let g = gcd(a, b);
    if a == b {
        assert(a == a * 1);
    } else if a < b {
        lemma_gcd(a, b - a);
        let k1 = choose|k: int| a == #[trigger] (gcd(a, b - a) * k);
        let k2 = choose|k: int| b - a == #[trigger] (gcd(a, b - a) * k);
        assert(b == g * (k1 + k2)) by (nonlinear_arith)
            requires
                a == g * k1,
                b - a == g * k2,
        ;
    } else {
        lemma_gcd(a - b, b);
        let k1 = choose|k: int| a - b == #[trigger] (gcd(a - b, b) * k);
        let k2 = choose|k: int| b == #[trigger] (gcd(a - b, b) * k);
        assert(a == g * (k1 + k2)) by (nonlinear_arith)
            requires
                a - b == g * k1,
                b == g * k2,
        ;
    }
}

/// A proper divisor of `p` is at most half of `p`.
pub proof fn lemma_proper_divisor_half(g: int, p: int)
    requires
        1 <= g < p,
        divides(g, p),
    ensures
        2 * g <= p,
{
    let k = choose|k: int| p == #[trigger] (g * k);
    assert(k >= 2 && g * k >= g * 2) by (nonlinear_arith)
        requires
            p == g * k,
            1 <= g < p,
    ;
}

/// A period of a prefix is a period of every shorter prefix.
pub proof fn lemma_period_restrict<T>(s: Seq<T>, len: int, len2: int, p: int)
    requires
        has_period(s, len, p),
        len2 <= len,
    ensures
        has_period(s, len2, p),
{
}

/// Elements a multiple of the period apart agree, inside the periodic prefix.
pub proof fn lemma_period_multiple<T>(s: Seq<T>, len: int, p: int, x: int, k: int)
    requires
        has_period(s, len, p),
        1 <= p,
        0 <= x,
        0 <= k,
        x + k * p < len,
    ensures
        s[x] == s[x + k * p],
    decreases k,
{
    if k == 0 {
        assert(k * p == 0) by (nonlinear_arith)
            requires
                k == 0,
        ;
    } else {
        assert((k - 1) * p == k * p - p) by (nonlinear_arith);
        assert(0 <= (k - 1) * p) by (nonlinear_arith)
            requires
                1 <= p,
                1 <= k,
        ;
        lemma_period_multiple(s, len, p, x, k - 1);
        assert(s[x + (k - 1) * p] == s[x + (k - 1) * p + p]);
    }
}

/// A maximal record bounds the length of every prefix with its period.
pub proof fn lemma_max_hrp_bounds_len<T>(s: Seq<T>, p: int, l: int, len: int)
    requires
        is_max_hrp(s, p, l),
        has_period(s, len, p),
        len <= s.len(),
    ensures
        len <= l,
{
    if len > l {
        assert(s[l - p] == s[l]);
        assert(false);
    }
}

/// The weak periodicity lemma of Fine and Wilf: a word with periods `p` and
/// `q`, no shorter than `p + q`, also has their gcd as a period.
pub proof fn lemma_two_periods<T>(s: Seq<T>, len: int, p: int, q: int)
    requires
        1 <= p,
        1 <= q,
        p + q <= len <= s.len(),
        has_period(s, len, p),
        has_period(s, len, q),
    ensures
        has_period(s, len, gcd(p, q)),
    decreases p + q,
{
    if p == q {
    } else if p < q {
        assert forall|x: int| 0 <= x && x + (q - p) < len implies #[trigger] s[x] == s[x + (q - p)] by {
            if x + q < len {
                assert(s[x] == s[x + q]);
                assert(s[x + q - p] == s[x + q - p + p]);
            } else {
                assert(s[x - p] == s[x - p + p]);
                assert(s[x - p] == s[x - p + q]);
            }
        }
        lemma_two_periods(s, len, p, q - p);
    } else {
        assert forall|x: int| 0 <= x && x + (p - q) < len implies #[trigger] s[x] == s[x + (p - q)] by {
            if x + p < len {
                assert(s[x] == s[x + p]);
                assert(s[x + p - q] == s[x + p - q + q]);
            } else {
                assert(s[x - q] == s[x - q + q]);
                assert(s[x - q] == s[x - q + p]);
            }
        }
        lemma_two_periods(s, len, p - q, q);
    }
}

/// Inside the scope of the least-period maximal record, no prefix has a
/// period below the record's: a second period would combine with it, by the
/// periodicity lemma, into a repeating prefix below the least period.
pub proof fn lemma_no_smaller_period_in_scope<T>(v: Seq<T>, p: int, l: int, len: int, d: int)
    requires
        is_max_hrp(v, p, l),
        no_khrp_below(v, p),
        2 * p <= len <= l,
        1 <= d < p,
    ensures
        !has_period(v, len, d),
{
    if has_period(v, len, d) {
        lemma_period_restrict(v, l, len, p);
        lemma_two_periods(v, len, d, p);
        lemma_gcd(d, p);
        let g = gcd(d, p);
        if g < p {
            lemma_proper_divisor_half(g, p);
        }
        assert(is_khrp(v, g, len));
        assert(khrp_exists(v, g));
        assert(false);
    }
}

/// A repeating prefix whose period lies between the least period and the
/// record length cannot outgrow the record: its length stays at most `l`.
pub proof fn lemma_khrp_between_bounded<T>(s: Seq<T>, p1: int, l1: int, q: int, len: int)
    requires
        is_max_hrp(s, p1, l1),
        no_khrp_below(s, p1),
        p1 <= q,
        q + p1 <= l1,
        is_khrp(s, q, len),
    ensures
        len <= l1,
{
    if len > l1 {
        assert(l1 < s.len());
        lemma_period_restrict(s, len, l1, q);
        lemma_two_periods(s, l1, p1, q);
        lemma_gcd(p1, q);
        let g = gcd(p1, q);
        if g < p1 {
            lemma_proper_divisor_half(g, p1);
            assert(is_khrp(s, g, l1));
            assert(khrp_exists(s, g));
            assert(false);
        } else {
            let k = choose|k: int| q == #[trigger] (p1 * k);
            assert(k >= 1) by (nonlinear_arith)
                requires
                    q == p1 * k,
                    1 <= p1 <= q,
            ;
            assert(s[l1 - q] == s[l1]);
            assert(l1 - q + (k - 1) * p1 == l1 - p1) by (nonlinear_arith)
                requires
                    q == p1 * k,
            ;
            lemma_period_multiple(s, l1, p1, l1 - q, k - 1);
            assert(s[l1] == s[l1 - p1]);
            assert(false);
        }
    }
}

/// Every k-highly-repeating prefix of a k-simple word whose period is above
/// the least period has a period that is a multiple of the least period.
pub proof fn lemma_khrp_period_multiple<T>(v: Seq<T>, p: int, l: int, q: int, len: int)
    requires
        is_max_hrp(v, p, l),
        no_khrp_below(v, p),
        crate::words::khrps_fit_scope(v, p, l),
        p < q,
        is_khrp(v, q, len),
    ensures
        q % p == 0,
{
    assert(2 * p <= len <= l);
    lemma_period_restrict(v, l, len, p);
    lemma_two_periods(v, len, p, q);
    lemma_gcd(p, q);
    let g = gcd(p, q);
    if g < p {
        lemma_proper_divisor_half(g, p);
        assert(is_khrp(v, g, len));
        assert(khrp_exists(v, g));
        assert(false);
    }
    let k = choose|k: int| q == #[trigger] (p * k);
    assert(k >= 1 && q % p == 0) by (nonlinear_arith)
        requires
            q == p * k,
            1 <= p <= q,
    ;
}

/// The skip step of the repeating-prefix scan: when the length-`q0 + j`
/// prefix has period `q0`, breaks exactly at `j`, and a repeating prefix with
/// period `q` a little above `q0` exists, then `q - q0` is a period of the
/// length-`j` prefix, and breaks exactly at `j` as well.
pub proof fn lemma_skip_period<T>(s: Seq<T>, q0: int, j: int, q: int, len: int)
    requires
        1 <= q0 < q,
        q - q0 <= j,
        j < 2 * q0,
        has_period(s, q0 + j, q0),
        j + q0 < s.len(),
        s[j] != s[j + q0],
        is_khrp(s, q, len),
    ensures
        has_period(s, j, q - q0),
        s[j] != s[j - (q - q0)],
{
    let t = q - q0;
    assert forall|x: int| 0 <= x && x + t < j implies #[trigger] s[x] == s[x + t] by {
        assert(s[x + t] == s[x + t + q0]);
        assert(s[x] == s[x + q]);
    }
    assert(s[j - t] == s[j - t + q]);
}

/// Stripping one least-period block off the front cannot create a repeating
/// prefix with a smaller period: period lengths are nondecreasing along the
/// decomposition.
pub proof fn lemma_suffix_no_small_khrp<T>(s: Seq<T>, p1: int, l1: int, q: int)
    requires
        is_max_hrp(s, p1, l1),
        no_khrp_below(s, p1),
        1 <= q < p1,
    ensures
        !khrp_exists(s.subrange(p1, s.len() as int), q),
{
    let y = s.subrange(p1, s.len() as int);
    if khrp_exists(y, q) {
        let len = choose|len: int| is_khrp(y, q, len);
        assert(is_khrp(y, q, len));
        // The first l1 - p1 elements of the suffix repeat the front of s.
        assert forall|x: int| 0 <= x < l1 - p1 implies #[trigger] y[x] == s[x] by {
            assert(s[x] == s[x + p1]);
        }
        if len <= l1 - p1 {
            assert forall|x: int| 0 <= x && x + q < len implies #[trigger] s[x] == s[x + q] by {
                assert(y[x] == y[x + q]);
            }
            assert(is_khrp(s, q, len));
            assert(khrp_exists(s, q));
            assert(false);
        } else {
            // Both q and p1 are periods of the shared stretch of length l1 - p1.
            assert forall|x: int| 0 <= x && x + q < l1 - p1 implies #[trigger] s[x] == s[x + q] by {
                assert(y[x] == y[x + q]);
            }
            assert(has_period(s, l1 - p1, q));
            lemma_period_restrict(s, l1, l1 - p1, p1);
            lemma_two_periods(s, l1 - p1, q, p1);
            lemma_gcd(q, p1);
            let g = gcd(q, p1);
            lemma_proper_divisor_half(g, p1);
            assert(is_khrp(s, g, l1 - p1));
            assert(khrp_exists(s, g));
            assert(false);
        }
    }
}

/// An occurrence of `v` a small distance `d` after a position where the
/// first `j` elements of `v` already match the text forces `d` to be a
/// period of the length-`j` prefix of `v`.
pub proof fn lemma_overlap_period<T>(text: Seq<T>, v: Seq<T>, pos: int, d: int, j: int)
    requires
        0 <= pos,
        pos + j <= text.len(),
        j <= v.len(),
        forall|x: int| 0 <= x < j ==> text[pos + x] == #[trigger] v[x],
        match_at(text, v, pos + d),
        1 <= d <= j,
    ensures
        has_period(v, j, d),
{
    assert forall|x: int| 0 <= x && x + d < j implies #[trigger] v[x] == v[x + d] by {
        assert(text[pos + d + x] == v[x]);
        assert(text[pos + (d + x)] == v[d + x]);
    }
}

/// An occurrence of the concatenation `u + v` is an occurrence of `u` there
/// and an occurrence of `v` just after it.
pub proof fn lemma_match_at_concat<T>(text: Seq<T>, u: Seq<T>, v: Seq<T>, i: int)
    ensures
        match_at(text, u + v, i) <==> match_at(text, u, i) && match_at(text, v, i + u.len()),
{
    let p = u + v;
    if match_at(text, p, i) {
        assert forall|x: int| 0 <= x < u.len() implies text[i + x] == #[trigger] u[x] by {
            assert(text[i + x] == p[x]);
        }
        assert forall|x: int| 0 <= x < v.len() implies text[i + u.len() + x] == #[trigger] v[x] by {
            assert(text[i + (u.len() + x)] == p[u.len() + x]);
        }
    }
    if match_at(text, u, i) && match_at(text, v, i + u.len()) {
        assert forall|x: int| 0 <= x < p.len() implies text[i + x] == #[trigger] p[x] by {
            if x < u.len() {
                assert(text[i + x] == u[x]);
            } else {
                assert(text[i + u.len() + (x - u.len())] == v[x - u.len()]);
            }
        }
    }
}

/// An occurrence in a suffix of the text is an occurrence in the text,
/// shifted by where the suffix starts.
pub proof fn lemma_match_at_tail<T>(text: Seq<T>, v: Seq<T>, a: int, i: int)
    requires
        0 <= a <= text.len(),
        0 <= i,
    ensures
        match_at(text.subrange(a, text.len() as int), v, i) <==> match_at(text, v, a + i),
{
    let tail = text.subrange(a, text.len() as int);
    if match_at(tail, v, i) {
        assert forall|x: int| 0 <= x < v.len() implies text[a + i + x] == #[trigger] v[x] by {
            assert(tail[i + x] == v[x]);
        }
    }
    if match_at(text, v, a + i) {
        assert forall|x: int| 0 <= x < v.len() implies tail[i + x] == #[trigger] v[x] by {
            assert(text[a + i + x] == v[x]);
        }
    }
}

} // verus!
