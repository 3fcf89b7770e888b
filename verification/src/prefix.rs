//! Element-by-element prefix comparison: the workhorse of every scan in
//! the crate, reporting how far two words agree and where they part.

use vstd::prelude::*;

use crate::words::match_at;

verus! {

/// Find the greatest shared prefix, starting at `from`, of `text` and
/// `pattern`.  Returns the length of the shared prefix (including the
/// elements before `from`, which the caller asserts already match).
pub fn longest_common_prefix_from<T: Eq>(from: usize, text: &[T], pattern: &[T]) -> (r: usize)
    requires
        vstd::laws_eq::obeys_concrete_eq::<T>(),
        pattern@.len() <= text@.len(),
        from <= pattern@.len(),
    ensures
        from <= r <= pattern@.len(),
        forall|x: int| from <= x < r ==> text@[x] == pattern@[x],
        r < pattern@.len() ==> text@[r as int] != pattern@[r as int],
{
    proof {
        reveal(vstd::laws_eq::obeys_concrete_eq);
    }
    let mut i = from;
    while i < pattern.len()
        invariant
            vstd::laws_eq::obeys_concrete_eq::<T>(),
            pattern@.len() <= text@.len(),
            from <= i <= pattern@.len(),
            forall|x: int| from <= x < i ==> text@[x] == pattern@[x],
        decreases pattern@.len() - i,
    {
        proof {
            reveal(vstd::laws_eq::obeys_concrete_eq);
        }
        if text[i] != pattern[i] {
            return i;
        }
        i = i + 1;
    }
    i
}

/// Test whether `text` starts with `pattern`.
pub fn text_has_prefix<T: Eq>(text: &[T], pattern: &[T]) -> (r: bool)
    requires
        vstd::laws_eq::obeys_concrete_eq::<T>(),
        pattern@.len() <= text@.len(),
    ensures
        r == match_at(text@, pattern@, 0),
{
    let r = longest_common_prefix_from(0, text, pattern);
    r == pattern.len()
}

} // verus!
