//! The mathematical vocabulary of the crate: occurrences, periods, and
//! highly repeating prefixes, stated over `Seq<T>` views of the borrowed
//! slices that the executable functions take.

use vstd::prelude::*;

verus! {

/// `pat` occurs in `text` at offset `i`.
pub open spec fn match_at<T>(text: Seq<T>, pat: Seq<T>, i: int) -> bool {
    &&& 0 <= i
    &&& i + pat.len() <= text.len()
    &&& forall|x: int| 0 <= x < pat.len() ==> text[i + x] == #[trigger] pat[x]
}

/// `r` names the leftmost occurrence of `pat` in `text`, or `None` when
/// `pat` does not occur at all.  This is the contract of every search
/// operation in the crate.
pub open spec fn is_first_match<T>(text: Seq<T>, pat: Seq<T>, r: Option<usize>) -> bool {
    match r {
        Some(i) => {
            &&& match_at(text, pat, i as int)
            &&& forall|q: int| 0 <= q < i as int ==> !match_at(text, pat, q)
        },
        None => forall|q: int| !match_at(text, pat, q),
    }
}

/// `p` is a period of the length-`len` prefix of `s`: elements `p` apart
/// agree everywhere inside that prefix.
pub open spec fn has_period<T>(s: Seq<T>, len: int, p: int) -> bool {
    forall|x: int| 0 <= x && x + p < len ==> #[trigger] s[x] == s[x + p]
}

/// The length-`len` prefix of `s` is covered by at least three repetitions
/// of its length-`p` block: a k-highly-repeating prefix for k = 3.
pub open spec fn is_khrp<T>(s: Seq<T>, p: int, len: int) -> bool {
    &&& 1 <= p
    &&& 3 * p <= len <= s.len()
    &&& has_period(s, len, p)
}

/// Some prefix of `s` is a k-highly-repeating prefix with period `p`.
pub open spec fn khrp_exists<T>(s: Seq<T>, p: int) -> bool {
    exists|len: int| is_khrp(s, p, len)
}

/// No k-highly-repeating prefix of `s` has a period below `b`.
pub open spec fn no_khrp_below<T>(s: Seq<T>, b: int) -> bool {
    forall|q: int| 1 <= q < b ==> !(#[trigger] khrp_exists(s, q))
}

/// `s` has no k-highly-repeating prefix at all.
pub open spec fn no_khrp<T>(s: Seq<T>) -> bool {
    forall|q: int| !(#[trigger] khrp_exists(s, q))
}

/// `(p, l)` is a k-highly-repeating prefix of `s` of maximal length for its
/// period: the periodicity cannot be extended by even one element.
pub open spec fn is_max_hrp<T>(s: Seq<T>, p: int, l: int) -> bool {
    &&& is_khrp(s, p, l)
    &&& l == s.len() || s[l] != s[l - p]
}

/// Every k-highly-repeating prefix of `s` with a period above `p` has its
/// length inside the scope `[2p, l]` of the record `(p, l)`.
pub open spec fn khrps_fit_scope<T>(s: Seq<T>, p: int, l: int) -> bool {
    forall|q: int, len: int| q > p && #[trigger] is_khrp(s, q, len) ==> 2 * p <= len <= l
}

/// Highly-repeating-prefix record: the prefix of length `len` has period
/// `period`, and `len >= 3 * period`.
#[derive(Clone, Copy, Debug, PartialEq, Eq, Structural)]
pub struct Hrp {
    pub period: usize,
    pub len: usize,
}

/// `v` is k-simple, as witnessed by `h`: when `h` is `None`, `v` has no
/// k-highly-repeating prefix; when `h` is `Some`, it names the one maximal
/// record with the least period, no record has a smaller period, and every
/// other record lies inside its scope.
pub open spec fn simple_pattern<T>(v: Seq<T>, h: Option<Hrp>) -> bool {
    match h {
        None => no_khrp(v),
        Some(h) => {
            &&& is_max_hrp(v, h.period as int, h.len as int)
            &&& no_khrp_below(v, h.period as int)
            &&& khrps_fit_scope(v, h.period as int, h.len as int)
        },
    }
}

} // verus!
