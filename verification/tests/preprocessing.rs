//! Tests of the prefix comparison, the repeating-prefix finder and the
//! decomposer.

use galil_seiferas::decompose;
use galil_seiferas::find_k_hrp;
use galil_seiferas::hrp;
use galil_seiferas::longest_common_prefix_from;
use galil_seiferas::text_has_prefix;
use galil_seiferas::Hrp;

#[test]
fn test_has_prefix() {
    let data = b"some text goes here";
    for i in 0..data.len() + 1 {
        assert!(text_has_prefix(data, &data[..i]));
    }
}

#[test]
fn test_longest_common_prefix_from() {
    let a = b"abcabcaabc";
    let b = b"abcabcabc";
    assert_eq!(longest_common_prefix_from(0, a, b), 7);
    assert_eq!(longest_common_prefix_from(0, a, &b[1..]), 0);
}

#[test]
fn test_hrp_1() {
    let s = b"aabaabaabaabaabaabbbb";

    assert!(matches!(hrp(1, s, None), (Some(Hrp { period: 3, len: 18 }), None)));
    assert!(matches!(hrp(2, s, None), (Some(Hrp { period: 3, len: 18 }), None)));
    // the next is not a proper HRP since it is not basic (we're calling it
    // with a too low starting period)
    assert!(matches!(hrp(4, s, None), (Some(Hrp { period: 6, len: 18 }), None)));
}

#[test]
fn test_hrp_2() {
    //        1..
    //        2222...|...|..
    let s = b"aaabaaabaaabaa";
    assert!(matches!(
        hrp(1, s, None),
        (Some(Hrp { period: 1, len: 3 }), Some(Hrp { period: 4, len: 14 }))
    ));
}

#[test]
fn test_hrp_length() {
    // test a string short one char
    let mut s = "aab".repeat(3);
    assert!(matches!(hrp(1, s.as_bytes(), None), (Some(Hrp { period: 3, .. }), None)));
    s.pop();
    assert!(matches!(hrp(1, s.as_bytes(), None), (None, None)));
}

#[test]
fn test_hrp_fuzz_1() {
    // this input is tricky because hrp1.len < hrp2.period
    let s = b"baababaababaabaababaabaabaababaababaabaababaabaabaababaababaabaab\
            abaabaababaababaabaababaabaababaababaabaababaababaabababaabaababaab\
            abaabaababaababaabaababaababaabaababaabaab";
    let hrps = hrp(1, s, None);
    assert!(matches!(hrps, (Some(Hrp { period: 5, len: 15 }), Some(Hrp { period: 24, len: 74 }))));
    let (u, _, hrp1) = decompose(s);
    assert_eq!(u.len(), 5);
    assert!(matches!(hrp1, None));
}

#[test]
fn test_find_period() {
    assert!(matches!(find_k_hrp(1, b"aab"), None));
    assert!(matches!(find_k_hrp(1, b"aaab"), Some(1)));
    assert!(matches!(find_k_hrp(2, b"abababac"), Some(2)));
    assert!(matches!(find_k_hrp(1, b""), None));
}

#[test]
fn test_decompose() {
    let s = b"banana";
    assert!(matches!(decompose(s), (_, _, None)));

    // aaa as HRP1 (per=1) and aaabaaabaaab.. as HRP2 (per=4)
    let s = "aaab".repeat(4) + "bbbb";
    let (_u, _v, hrp) = decompose(s.as_bytes());
    assert!(matches!(hrp, Some(Hrp { period: 4, len: 15 })));

    let s = String::from("aaa") + &"ab".repeat(4);
    let (u, _v, hrp) = decompose(s.as_bytes());
    assert_eq!(u.len(), 0);
    assert!(matches!(hrp, Some(Hrp { period: 1, .. })));

    let s = b"aaabaaabaaabaabbbb";
    let (u, _v, hrp) = decompose(s);
    assert_eq!(u.len(), 1);
    assert!(matches!(hrp, Some(Hrp { period: 4, .. })));

    let s = b"abababababababababababcabcabcabcabc";
    assert!(matches!(decompose(s), (_, _, Some(Hrp { period: 2, len: _ }))));
    let s = b"ananananananananan in the face";
    assert!(matches!(decompose(s), (_, _, Some(Hrp { period: 2, .. }))));
}

#[test]
fn test_decompose_2() {
    let period = "aaaaacargo";
    let pattern = period.repeat(50 / period.len());
    let pattern = pattern.as_bytes();
    let (u, v, hrp) = decompose(pattern);
    assert_eq!(u, &pattern[..u.len()]);
    assert_eq!(v, &pattern[u.len()..]);
    assert_eq!(u.len(), 3);
    assert!(matches!(hrp, Some(Hrp { period: 10, len: _ })));
}

#[test]
fn test_decompose_period_1() {
    let period = "a";
    let pattern = period.repeat(50 / period.len());
    let pattern = pattern.as_bytes();
    let (u, v, hrp) = decompose(pattern);
    assert!(matches!(galil_seiferas::hrp(1, pattern, None), (Some(_), None)));
    assert_eq!(u, &pattern[..u.len()]);
    assert_eq!(v, &pattern[u.len()..]);
    assert_eq!(u.len(), 0);
    assert!(matches!(hrp, Some(Hrp { period: 1, len: 50 })));
}

#[test]
fn test_decompose_period_2() {
    let n = 10;
    let pattern = "ab".repeat(n);
    let (u, _v, hrp) = decompose(pattern.as_bytes());
    assert_eq!(u.len(), 0);
    assert!(matches!(hrp, Some(Hrp { period: 2, .. })));
}

#[test]
fn test_decompose_period_mega() {
    let alphabet = "abcdefghi";
    let mut s = String::from("");
    for ch in alphabet.chars() {
        s.push(ch);
        s = s.repeat(4);
    }
    println!("{}", &s[..70]);

    let (u, v, hrp) = decompose(s.as_bytes());
    assert_eq!(u.len() + v.len(), s.len());
    assert!(matches!(hrp, Some(Hrp { period: 87381, .. })));
}
