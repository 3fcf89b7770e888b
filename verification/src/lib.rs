//! Substring search in linear time and constant extra space, for alphabets
//! that support only equality comparison.
//!
//! The entry point is the Galil-Seiferas string matcher: it reports the
//! lowest offset at which `pattern` occurs in `text`, or `None`, using only
//! a handful of integer variables besides the two borrowed slices.  The
//! algorithm first factors the pattern into a short prefix `u` and a
//! *k-simple* suffix `v` (a word with at most one highly repeating prefix),
//! then scans the text for `v`, using the single known periodicity interval
//! of `v` to skip ahead without a failure table.
//!
//! Every function carries a contract, and the top-level contract pins the
//! result down to the leftmost occurrence, so the searcher provably agrees
//! with the brute-force reference search in `util` and `test_util`.  The
//! element type is generic: each entry point asks only that the type's `==`
//! agree with mathematical equality (`vstd::laws_eq::obeys_concrete_eq`),
//! which holds for the primitive types.

pub mod decompose;
pub mod finder;
pub mod laws;
pub mod prefix;
pub mod search;
pub mod test_util;
pub mod theory;
pub mod util;
pub mod words;
pub mod zoom;

pub use decompose::decompose;
pub use decompose::is_perfect_decomposition;
pub use finder::find_k_hrp;
pub use finder::hrp;
pub use prefix::longest_common_prefix_from;
pub use prefix::text_has_prefix;
pub use search::gs_find;
pub use search::search_simple;
pub use test_util::brute_force_search;
pub use words::Hrp;
pub use zoom::notes_on_zooming;
pub use zoom::read_zoom;
