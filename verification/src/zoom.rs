//! The zooming sequence: a compact representation of nested prefix/suffix
//! narrowings of a nonperiodic word, read back one bit at a time.

use vstd::prelude::*;

verus! {

/// One narrowing step of a zooming sequence.  The next word keeps three
/// quarters of the current one; the low bit of `zoom` says whether it is the
/// suffix (bit set) or the prefix (bit clear), and is consumed.  A
/// single-element word ends the sequence.
pub fn read_zoom<'a, T>(p: &'a [T], i: usize, zoom: &mut u64) -> (r: &'a [T])
    requires
        p@.len() <= usize::MAX / 3,
    ensures
        p@.len() == 1 ==> r@ == Seq::<T>::empty() && *final(zoom) == *old(zoom),
        p@.len() != 1 ==> {
            &&& *final(zoom) == *old(zoom) / 2
            &&& (*old(zoom) % 2 == 1 ==> r@ == p@.subrange(
                p@.len() - p@.len() * 3 / 4,
                p@.len() as int,
            ))
            &&& (*old(zoom) % 2 == 0 ==> r@ == p@.subrange(0, (p@.len() * 3 / 4) as int))
        },
{
    if p.len() == 1 {
        &p[0..0]
    } else {
        let last_bit = *zoom & 1;
        proof {
            assert(*zoom & 1 == *zoom % 2) by (bit_vector);
            assert(*zoom >> 1 == *zoom / 2) by (bit_vector);
        }
        *zoom = *zoom >> 1;
        let len = p.len() * 3 / 4;
        if last_bit != 0 {
            &p[p.len() - len..p.len()]
        } else {
            &p[0..len]
        }
    }
}

/// Notes on zooming, kept as a stub alongside the searcher.
///
/// For a nonperiodic word `P`, `ZoomSeq(P)` is `(P1, P2, .., Pk)` where
/// `P1 = P` and `|Pk| = 1`; each following word is a prefix or suffix of the
/// one before, three quarters of its length, and nonperiodic (when both the
/// prefix and the suffix qualify, the prefix is taken).  The whole sequence
/// is stored as one integer whose j-th bit is clear when the next word is
/// the prefix and set when it is the suffix — for example `a^12 b^5`
/// compresses to `1010000`.  `per(P)` is the shortest period of `P`; `P` is
/// periodic exactly when `per(P) <= |P| / 6`, and `quasiper(P)` is `per(P)`
/// for periodic words and `|P|` otherwise.  No searching is done here.
pub fn notes_on_zooming(_text: &[u8], _pattern: &[u8]) -> (r: Option<usize>)
    ensures
        r is None,
{
    None
}

} // verus!
