//! Tests of the full searcher against the standard library's substring
//! search, and on inputs that fuzzing once flagged as delicate.

use galil_seiferas::gs_find;
use galil_seiferas::text_has_prefix;

// Check that gs_find(text, pat) has the same result as str::find.
fn check_str(text: &str, pat: &str) {
    assert_eq!(text.find(pat), gs_find(text.as_bytes(), pat.as_bytes()));
}

#[test]
fn test_gs_find_vs_str_find() {
    check_str("abc", "");
    check_str("abc", "a");
    check_str("abc", "z");
    check_str("abbaababx", "abab");
    check_str("bbbaaaaaaaaaaaaaaaaaaa", "aaaaaa");
    check_str("bbbaaaaaaaaaaaaaaaaaaaanananananananananan", "anananananananananan");
    check_str("nananananananananananabcabc", "anananananananananan");
    check_str("anananananananananananabcabc", "anananananananananan");
    check_str("aa\u{0}\u{0}a", "aaaa");
    check_str("bbbbabaa", "bbbbbbaa");
    check_str("ababaaabbbabbbbbbbabaabababbbaaaaaaaaaabbbbabaa", "bbbbbba");
    check_str("abbbbbaabab", "bbbbbbab");
    check_str("abbbbbaabaaaab", "bbbbbbab");
    check_str("aaaaaabaaab", "aaaaaabaab");
    check_str("", "");
    check_str("", "aaaaaa");
}

#[test]
fn test_gs_find2() {
    // found by cargo fuzz; no bug but proved the need of scope_l/scope_r
    // check in hrp
    let s = "\x0abaaabaaabaaabaaabaaabbbbb";
    let n = "aaabaaabaaabaaabbbbb";
    check_str(s, n);
}

// Check that the substring &text[range] is found inside text.
// Note that we can only find the first of identical substrings.
fn check_find_substring(text: &[u8], start: usize, end: usize) {
    let needle = &text[start..end];
    assert!(text_has_prefix(&text[start..], needle));
    assert_eq!(Some(start), gs_find(text, needle));
}

#[test]
fn test_find_fuzz_1() {
    // cargo fuzz found this one, but it required feeding it with fib words
    // as dict
    let data = b"\x9caababaababaabaababaababaabaababaabaabaababaababaabaababaab\
               aabaababaababaabaababaabaababaababaabaababaabaababaababaabaababa\
               ababaabababaabaababaababaabaababaababaabaababaababaabaababaabaab\
               \x9c\x9c\x9cbaabaabababaabababaabababaabaababaabaab\x9c\x9c\x9c\
               \x9c\x9c\x28\x9c\x9c\x9c\x9c\x9c\x9c\x2a\x9c\x9c\x9c\x9c\x9c\x9c\
               \x9caabaababaabaab\x9c\x9c\x9c\x9c\x9c\x28\x9c\x9c\x9c\x9c\x9c\
               \x9c\x9c\x9c\x27\x9c\x9c\x9c\x9c\x9c\x9c\x9c\x9c\x9c";
    check_find_substring(data, 13, 13 + 266);
}

#[test]
fn test_find_fuzz_2() {
    let data = b"abaabaababaababaabaababaabaababababaabaababababaabaababababaab\
               aababaab\xffaabaabaab\x00\x00\xff\x28\xffaab\xffaabaabaab\x00\
               \x00\xff\x28\xff";
    check_find_substring(data, 21, 21 + 68);
}
