use lcars_core::numbers::{capped_value, decimal_string, leading_digits_of, parse_i32};
use lcars_core::text::{
    chars_of, join_text, contains_slice, find_char, lines_of, split_slice, starts_with_slice,
    string_of, strip_trailing_char, trim_slice,
};

fn chars(s: &str) -> Vec<char> {
    s.chars().collect()
}

fn texts(pieces: Vec<&[char]>) -> Vec<String> {
    pieces.into_iter().map(|p| p.iter().collect()).collect()
}

#[test]
fn joining_digits() {
    assert_eq!(lcars_core::brightness::joined(&chars("12"), &chars("345")), chars("12345"));
    assert_eq!(lcars_core::brightness::joined(&chars(""), &chars("")), chars(""));
}

#[test]
fn characters_round_trip() {
    assert_eq!(chars_of("héllo\n"), chars("héllo\n"));
    assert_eq!(string_of(&chars("héllo\n")), "héllo\n");
    assert_eq!(chars_of(""), Vec::<char>::new());
    assert_eq!(join_text("ab", "cd"), "abcd");
    assert_eq!(join_text("", ""), "");
}

#[test]
fn lines_agree_with_the_standard_library() {
    for text in [
        "",
        "\n",
        "a",
        "a\n",
        "a\nb",
        "a\r\nb\r\n",
        "a\r",
        "a\r\r\n",
        "\r\n\r\n",
        "\n\na\n\n",
        "a\rb\nc",
        "x\n\r",
    ] {
        let cs = chars(text);
        let expected: Vec<String> = text.lines().map(|l| l.to_string()).collect();
        assert_eq!(texts(lines_of(&cs)), expected, "lines of {:?}", text);
    }
}

#[test]
fn split_agrees_with_the_standard_library() {
    for text in ["", "=", "a=b", "a==b", "=a=", "abc", "a=b=c="] {
        let cs = chars(text);
        let expected: Vec<String> = text.split('=').map(|l| l.to_string()).collect();
        assert_eq!(texts(split_slice(&cs, '=')), expected, "split of {:?}", text);
    }
}

#[test]
fn trim_agrees_with_the_standard_library() {
    for text in ["", " ", " a ", "\t\na b\r\n", "\u{85}x\u{2028}", "\u{1680}\u{205f}y\u{202f}", "a", "\u{feff}a"] {
        let cs = chars(text);
        let got: String = trim_slice(&cs).iter().collect();
        assert_eq!(got, text.trim(), "trim of {:?}", text);
    }
}

#[test]
fn searching() {
    assert!(contains_slice(&chars("discharging"), &chars("charging")));
    assert!(contains_slice(&chars("abc"), &chars("")));
    assert!(contains_slice(&chars(""), &chars("")));
    assert!(!contains_slice(&chars("ab"), &chars("abc")));
    assert!(!contains_slice(&chars("abab"), &chars("bb")));
    assert!(contains_slice(&chars("aab"), &chars("ab")));
    assert!(starts_with_slice(&chars("Connected: yes"), &chars("Connected:")));
    assert!(!starts_with_slice(&chars("Not Connected:"), &chars("Connected:")));
    assert_eq!(find_char(&chars("a.b.c"), '.'), 1);
    assert_eq!(find_char(&chars("abc"), '.'), 3);
    assert_eq!(find_char(&chars(""), '.'), 0);
}

#[test]
fn trailing_runs_are_cut() {
    let got: String = strip_trailing_char(&chars("Name:::"), ':').iter().collect();
    assert_eq!(got, "Name");
    let got: String = strip_trailing_char(&chars(":::"), ':').iter().collect();
    assert_eq!(got, "");
    let got: String = strip_trailing_char(&chars("a:b"), ':').iter().collect();
    assert_eq!(got, "a:b");
}

#[test]
fn digit_runs() {
    let got: String = leading_digits_of(&chars("87%; charging")).iter().collect();
    assert_eq!(got, "87");
    let got: String = leading_digits_of(&chars("x87")).iter().collect();
    assert_eq!(got, "");
    assert_eq!(capped_value(&chars("0123"), 1000), 123);
    assert_eq!(capped_value(&chars("1001"), 1000), 1000);
    assert_eq!(capped_value(&chars(""), 1000), 0);
    let top = u64::MAX as u128;
    assert_eq!(capped_value(&chars("18446744073709551615"), top), top);
    assert_eq!(capped_value(&chars("18446744073709551614"), top), top - 1);
    assert_eq!(capped_value(&chars("99999999999999999999999"), top), top);
    assert_eq!(capped_value(&chars("340282366920938463463374607431768211455"), u128::MAX), u128::MAX);
    assert_eq!(capped_value(&chars("340282366920938463463374607431768211456"), u128::MAX), u128::MAX);
    assert_eq!(capped_value(&chars("340282366920938463463374607431768211454"), u128::MAX), u128::MAX - 1);
    assert_eq!(capped_value(&chars("7"), 0), 0);
}

#[test]
fn integers_agree_with_the_standard_library() {
    for text in ["0", "-0", "+0", "12", "-12", "+12", "2147483647", "2147483648", "-2147483648", "-2147483649", "", "-", "+", "1 2", "0x10", "１２", "99999999999999999999", "--1", "+-1"] {
        assert_eq!(parse_i32(&chars(text)), text.parse::<i32>().ok(), "integer of {:?}", text);
    }
}

#[test]
fn numerals_agree_with_the_standard_library() {
    for n in [0u64, 1, 9, 10, 11, 99, 100, 12345, u64::MAX / 10, u64::MAX] {
        assert_eq!(decimal_string(n), n.to_string());
    }
}
