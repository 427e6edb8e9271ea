use replicated_log::text::{concat_strs, parse_u16, prefix_chars, push_decimal, replace_all, str_le, trim_leading};

#[test]
fn str_le_orders_lexicographically() {
    assert!(str_le("2024-01-01T00:00:00+00:00", "2024-01-02T00:00:00+00:00"));
    assert!(!str_le("2024-01-02T00:00:00+00:00", "2024-01-01T00:00:00+00:00"));
    assert!(str_le("abc", "abc"));
    assert!(str_le("ab", "abc"));
    assert!(!str_le("abc", "ab"));
    assert!(str_le("", ""));
    assert!(str_le("", "a"));
    assert!(!str_le("b", "a"));
}

#[test]
fn str_le_agrees_with_string_order() {
    let samples = ["", "a", "b", "ab", "ba", "é", "z", "2024", "2023-12", "Zeta", "alpha"];
    for a in samples.iter() {
        for b in samples.iter() {
            assert_eq!(str_le(a, b), a <= b, "{a:?} {b:?}");
        }
    }
}

#[test]
fn prefix_chars_takes_at_most_n() {
    assert_eq!(prefix_chars("0123456789abcdef", 12), "0123456789ab");
    assert_eq!(prefix_chars("short", 12), "short");
    assert_eq!(prefix_chars("", 3), "");
    assert_eq!(prefix_chars("héllo", 2), "hé");
}

#[test]
fn trim_leading_strips_all_leading() {
    assert_eq!(trim_leading("/web", '/'), "web");
    assert_eq!(trim_leading("//web/x", '/'), "web/x");
    assert_eq!(trim_leading("web", '/'), "web");
    assert_eq!(trim_leading("///", '/'), "");
}

#[test]
fn replace_all_matches_str_replace() {
    let cases = [
        ("app-master", "-master", "-secondary"),
        ("a-master-master", "-master", "-secondary"),
        ("nothing here", "-master", "-secondary"),
        ("aaaa", "aa", "b"),
        ("-master", "-master", ""),
        ("x-maste", "-master", "-secondary"),
    ];
    for (s, from, to) in cases.iter() {
        assert_eq!(replace_all(s, from, to), s.replace(from, to));
    }
}

#[test]
fn joining_and_pushing() {
    assert_eq!(concat_strs("ab", "cd"), "abcd");
    assert_eq!(concat_strs("", "cd"), "cd");
}

#[test]
fn push_decimal_writes_digits() {
    for n in [0u64, 7, 10, 42, 4000, 65535, u64::MAX].iter() {
        let mut s = String::from("n=");
        push_decimal(&mut s, *n);
        assert_eq!(s, format!("n={n}"));
    }
}

#[test]
fn parse_u16_agrees_with_from_str() {
    let cases = [
        "", "+", "-", "-5", "0", "4000", "+80", "007", "65535", "65536", "99999999", " 80", "80 ", "8a", "+-1", "١",
    ];
    for c in cases.iter() {
        assert_eq!(parse_u16(c), c.parse::<u16>().ok(), "{c:?}");
    }
    assert_eq!(parse_u16("4000"), Some(4000));
    assert_eq!(parse_u16("65536"), None);
}
