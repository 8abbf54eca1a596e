use terms::text::{
    chars_of, i32_to_string, lines_of, parse_i32_str, split_fields, string_of, trim_str, u32_to_string,
    IntErrorKind,
};

fn strings(v: Vec<Vec<char>>) -> Vec<String> {
    v.into_iter().map(|f| f.into_iter().collect()).collect()
}

#[test]
fn trim_removes_unicode_whitespace_at_both_ends() {
    assert_eq!(trim_str("  /bin/zsh\n"), "/bin/zsh");
    assert_eq!(trim_str("\t\r\n"), "");
    assert_eq!(trim_str(""), "");
    assert_eq!(trim_str("\u{a0}a b\u{3000}"), "a b");
    assert_eq!(trim_str("x"), "x");
}

#[test]
fn split_keeps_empty_fields() {
    let v = chars_of("a::b:");
    assert_eq!(strings(split_fields(&v, ':')), vec!["a", "", "b", ""]);
    let e = chars_of("");
    assert_eq!(strings(split_fields(&e, ':')), vec![""]);
}

#[test]
fn lines_follow_bufread() {
    let v = chars_of("one\r\ntwo\n\nthree");
    assert_eq!(strings(lines_of(&v)), vec!["one", "two", "", "three"]);
    let w = chars_of("one\n");
    assert_eq!(strings(lines_of(&w)), vec!["one"]);
    let e = chars_of("");
    assert!(lines_of(&e).is_empty());
    let cr = chars_of("tail\r");
    assert_eq!(strings(lines_of(&cr)), vec!["tail\r"]);
}

#[test]
fn decimal_formatting() {
    assert_eq!(u32_to_string(0), "0");
    assert_eq!(u32_to_string(1000), "1000");
    assert_eq!(u32_to_string(u32::MAX), "4294967295");
    assert_eq!(i32_to_string(-42), "-42");
    assert_eq!(i32_to_string(i32::MIN), "-2147483648");
    assert_eq!(i32_to_string(7), "7");
}

#[test]
fn parse_matches_std() {
    for s in ["0", "42", "+17", "-2147483648", "2147483647", "", "+", "-", "2147483648", "-2147483649", "12a", " 1", "1 ", "99999999999x", "-0"] {
        let ours = parse_i32_str(s);
        let std = s.parse::<i32>();
        match (ours, std) {
            (Ok(a), Ok(b)) => assert_eq!(a, b, "{s}"),
            (Err(k), Err(e)) => {
                let expected = match e.kind() {
                    std::num::IntErrorKind::Empty => IntErrorKind::Empty,
                    std::num::IntErrorKind::InvalidDigit => IntErrorKind::InvalidDigit,
                    std::num::IntErrorKind::PosOverflow => IntErrorKind::PosOverflow,
                    std::num::IntErrorKind::NegOverflow => IntErrorKind::NegOverflow,
                    _ => unreachable!(),
                };
                assert_eq!(k, expected, "{s}");
            },
            (a, b) => panic!("{s}: {a:?} vs {b:?}"),
        }
    }
}

#[test]
fn printed_i32_parses_back() {
    for n in [0, 1, -1, 123456, i32::MAX, i32::MIN] {
        assert_eq!(parse_i32_str(&i32_to_string(n)), Ok(n));
    }
}

#[test]
fn string_of_collects_chars() {
    assert_eq!(string_of(&vec!['h', 'é', '!']), "hé!");
}
