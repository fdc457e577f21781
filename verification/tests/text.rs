use codepop::text::{decimal_string, split, starts_with, str_eq, trim};

#[test]
fn decimal_rendering() {
    assert_eq!(decimal_string(0), "0");
    assert_eq!(decimal_string(7), "7");
    assert_eq!(decimal_string(10), "10");
    assert_eq!(decimal_string(20000), "20000");
    assert_eq!(decimal_string(u128::MAX), u128::MAX.to_string());
}

#[test]
fn splitting_matches_std() {
    for s in ["", "a", "a+b", "+", "a++b+", "한+글"] {
        let ours = split(s, '+');
        let std: Vec<String> = s.split('+').map(|x| x.to_string()).collect();
        assert_eq!(ours, std);
    }
}

#[test]
fn trimming_matches_std() {
    for s in ["", "  ", " a ", "\u{3000}x\u{2009}", "\t\n y z \r", "\u{85}q\u{a0}", "\u{200b}k"] {
        assert_eq!(trim(s), s.trim());
    }
}

#[test]
fn comparing() {
    assert!(str_eq("abc", "abc"));
    assert!(!str_eq("abc", "abd"));
    assert!(!str_eq("ab", "abc"));
    assert!(starts_with("ko-KR", "ko"));
    assert!(!starts_with("k", "ko"));
    assert!(starts_with("x", ""));
}
