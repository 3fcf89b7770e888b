//! Scenario tests for the stated properties of the searcher: agreement with
//! the brute-force reference, self-match, the empty pattern, the length
//! guard, known substrings, literal scenarios, periodic stress inputs, and
//! the scope invariant of the decomposition.

use galil_seiferas::decompose;
use galil_seiferas::gs_find;
use galil_seiferas::is_perfect_decomposition;
use galil_seiferas::util::brute_force_search;

fn check_against_reference(text: &[u8], pattern: &[u8]) {
    assert_eq!(gs_find(text, pattern), brute_force_search(text, pattern));
}

#[test]
fn reference_equivalence_corpus() {
    let texts: &[&str] = &[
        "",
        "a",
        "ab",
        "abbaababx",
        "substrinstring",
        "bbbaaaaaaaaaaaaaaaaaaa",
        "aabaabaabaabaabaabbbb",
        "ananananananananan in the face",
        "abaababaabaababaababa",
        "aaabaaabaaabaabbbb",
    ];
    let patterns: &[&str] = &[
        "",
        "a",
        "b",
        "ab",
        "ba",
        "aba",
        "string",
        "aaaaaa",
        "abab",
        "aab",
        "aabaab",
        "abaababaabaab",
        "zzz",
    ];
    for t in texts {
        for p in patterns {
            check_against_reference(t.as_bytes(), p.as_bytes());
            assert_eq!(t.find(p), gs_find(t.as_bytes(), p.as_bytes()));
        }
    }
}

#[test]
fn self_match_scenarios() {
    let patterns: &[&str] =
        &["a", "ab", "abab", "aaaaaa", "banana", "aabaabaabaabaabaabbbb", "abaababa"];
    for p in patterns {
        assert_eq!(gs_find(p.as_bytes(), p.as_bytes()), Some(0));
    }
}

#[test]
fn empty_pattern_identity_scenarios() {
    assert_eq!(gs_find(b"", b""), Some(0));
    assert_eq!(gs_find(b"a", b""), Some(0));
    assert_eq!(gs_find(b"some text goes here", b""), Some(0));
}

#[test]
fn length_guard_scenarios() {
    assert_eq!(gs_find(b"", b"a"), None);
    assert_eq!(gs_find(b"abc", b"abcd"), None);
    assert_eq!(gs_find(b"aaaaa", b"aaaaaa"), None);
}

#[test]
fn known_substring_bound_scenarios() {
    let text = b"abaababaabaababaababa";
    for lo in 0..text.len() {
        for hi in lo..text.len() + 1 {
            let needle = &text[lo..hi];
            let found = gs_find(text, needle);
            match found {
                Some(i) => assert!(i <= lo),
                None => panic!("expected a match at {} or before", lo),
            }
        }
    }
}

#[test]
fn literal_scenarios() {
    assert_eq!(gs_find(b"abbaababx", b"abab"), Some(4));
    assert_eq!(gs_find(b"substrinstring", b"string"), Some(8));
    assert_eq!(gs_find(b"", b""), Some(0));
    assert_eq!(gs_find(b"", b"aaaaaa"), None);
    assert_eq!(gs_find(b"bbbaaaaaaaaaaaaaaaaaaa", b"aaaaaa"), Some(3));
    assert_eq!(gs_find(b"bbbbbbbbbbbbbbbbaaaaaa", b"aaaaaa"), Some(16));
}

#[test]
fn periodic_stress() {
    for n in 1..40 {
        let pattern = "ab".repeat(n);
        assert_eq!(gs_find(pattern.as_bytes(), pattern.as_bytes()), Some(0));
        let haystack = ("ab".repeat(n - 1) + "bb").repeat(n);
        check_against_reference(haystack.as_bytes(), pattern.as_bytes());
    }
}

/// Shortest period of `s`, by trying each candidate in turn.
fn shortest_period(s: &[u8]) -> usize {
    let mut p = 1;
    loop {
        let mut ok = true;
        let mut x = 0;
        while x + p < s.len() {
            if s[x] != s[x + p] {
                ok = false;
                break;
            }
            x += 1;
        }
        if ok {
            return p;
        }
        p += 1;
    }
}

#[test]
fn scope_invariant_exhaustive() {
    let blocks: &[&str] = &["a", "ab", "aab", "aaaaacargo", "abaab"];
    for block in blocks {
        for reps in 3..8 {
            for extra in 0..3 {
                let pattern = block.repeat(reps) + &"x".repeat(extra);
                let (_u, v, hrp) = decompose(pattern.as_bytes());
                if let Some(h) = hrp {
                    for len in 2 * h.period..h.len + 1 {
                        assert_eq!(shortest_period(&v[..len]), h.period);
                    }
                }
            }
        }
    }
}

#[test]
fn decompositions_are_perfect() {
    let patterns: &[&str] = &[
        "",
        "banana",
        "aaabaaabaaabaabbbb",
        "abababababababababababcabcabcabcabc",
        "aaaaaaaaaaaaaaaaaaaa",
        "abaababaabaababaababa",
    ];
    for p in patterns {
        let (u, v, _) = decompose(p.as_bytes());
        assert!(is_perfect_decomposition(3, u, v));
        assert_eq!(u.len() + v.len(), p.len());
    }
    // A word with two highly repeating prefixes is not k-simple.
    assert!(!is_perfect_decomposition(3, b"", b"aaabaaabaaabaa"));
}

#[test]
fn resumable_search_enumerates_occurrences() {
    let text = b"abababa";
    let (u, v, hrp) = decompose(b"aba");
    assert_eq!(u.len(), 0);
    let mut pos: usize = 0;
    let mut j: usize = 0;
    let mut found = Vec::new();
    while let Some(i) = galil_seiferas::search_simple(text, v, &mut pos, &mut j, &hrp) {
        found.push(i);
    }
    assert_eq!(found, vec![0, 2, 4]);
}

#[test]
fn search_over_wide_alphabet() {
    // The elements need only equality: search over 16-bit values.
    let text: Vec<i16> = vec![-7, 300, 300, -7, 300, 300, 300, 9, 0, 9];
    let pattern: Vec<i16> = vec![300, 300, 300, 9];
    assert_eq!(gs_find(&text, &pattern), Some(4));
    let absent: Vec<i16> = vec![300, 300, 300, 300];
    assert_eq!(gs_find(&text, &absent), None);
}
