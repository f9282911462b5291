use esgi_bot::text::{
    chars_of, find, push_decimal, push_signed_decimal, same_text, take_until, text_of,
};

fn chars(text: &str) -> Vec<char> {
    text.chars().collect()
}

#[test]
fn chars_and_text_round_trip() {
    for text in ["", "a", "!hello", "ça existe", "📅 Cours", "👨‍🏫 **x**\n"] {
        assert_eq!(chars_of(text), chars(text));
        assert_eq!(text_of(&chars(text)), text);
        assert_eq!(text_of(&chars_of(text)), text);
    }
    assert_eq!(chars_of("é📅").len(), 2);
}

#[test]
fn same_text_compares_every_character() {
    assert!(same_text("", ""));
    assert!(same_text("!ping", "!ping"));
    assert!(!same_text("!ping", "!pin"));
    assert!(!same_text("!ping", "!pinG"));
    assert!(!same_text("", " "));
    assert!(same_text("ça", "ça"));
}

#[test]
fn decimal_numerals() {
    for (n, written) in [
        (0u128, "0"),
        (7, "7"),
        (9, "9"),
        (10, "10"),
        (11, "11"),
        (99, "99"),
        (100, "100"),
        (1_696_118_400_000, "1696118400000"),
        (u128::MAX, "340282366920938463463374607431768211455"),
    ] {
        let mut out = String::new();
        push_decimal(&mut out, n);
        assert_eq!(out, written);
    }
}

#[test]
fn decimal_is_appended_to_what_is_there() {
    let mut out = String::from("n=");
    push_decimal(&mut out, 42);
    push_decimal(&mut out, 0);
    assert_eq!(out, "n=420");
}

#[test]
fn signed_decimal_numerals() {
    for (i, written) in [
        (0i64, "0"),
        (1, "1"),
        (-1, "-1"),
        (-10, "-10"),
        (1_698_796_800_000, "1698796800000"),
        (i64::MAX, "9223372036854775807"),
        (i64::MIN, "-9223372036854775808"),
    ] {
        let mut out = String::from("x");
        push_signed_decimal(&mut out, i);
        assert_eq!(out, format!("x{}", written));
        assert_eq!(out, format!("x{}", i));
    }
}

#[test]
fn find_gives_the_leftmost_occurrence() {
    assert_eq!(find(&chars("abcabc"), &chars("bc")), Some(1));
    assert_eq!(find(&chars("abcabc"), &chars("abc")), Some(0));
    assert_eq!(find(&chars("abcabc"), &chars("c")), Some(2));
    assert_eq!(find(&chars("aaab"), &chars("aab")), Some(1));
    assert_eq!(find(&chars("abc"), &chars("abc")), Some(0));
    assert_eq!(find(&chars("xxabc"), &chars("abc")), Some(2));
    assert_eq!(find(&chars("é=1"), &chars("=")), Some(1));
}

#[test]
fn find_gives_none_where_the_pattern_is_absent() {
    assert_eq!(find(&chars("abcabc"), &chars("cb")), None);
    assert_eq!(find(&chars("ab"), &chars("abc")), None);
    assert_eq!(find(&chars(""), &chars("a")), None);
    assert_eq!(find(&chars("access_token"), &chars("access_token=")), None);
}

#[test]
fn the_empty_pattern_stands_at_the_start() {
    assert_eq!(find(&chars("abc"), &chars("")), Some(0));
    assert_eq!(find(&chars(""), &chars("")), Some(0));
}

#[test]
fn take_until_stops_at_the_first_stop() {
    assert_eq!(take_until(&chars("abc&def&g"), 0, '&'), chars("abc"));
    assert_eq!(take_until(&chars("abc&def&g"), 4, '&'), chars("def"));
    assert_eq!(take_until(&chars("abc&def&g"), 8, '&'), chars("g"));
    assert_eq!(take_until(&chars("abc&def&g"), 3, '&'), chars(""));
    assert_eq!(take_until(&chars("abc"), 3, '&'), chars(""));
    assert_eq!(take_until(&chars("abc"), 1, '&'), chars("bc"));
}
