use plumber::text::{
    chars_of, clip, decimal_string, join_path, push_centered, push_chars, push_decimal,
    push_padded_left, push_repeated, string_of, string_of_range,
};

#[test]
fn chars_and_strings_convert_both_ways() {
    assert_eq!(chars_of("añb"), vec!['a', 'ñ', 'b']);
    assert_eq!(chars_of(""), Vec::<char>::new());
    assert_eq!(string_of(&vec!['x', 'y']), "xy");
    assert_eq!(string_of(&chars_of("héllo")), "héllo");
    assert_eq!(string_of_range(&chars_of("abcdef"), 2, 4), "cd");
    assert_eq!(string_of_range(&chars_of("abcdef"), 3, 3), "");
}

#[test]
fn join_path_puts_one_slash_between() {
    assert_eq!(join_path("/tmp/plumber/run", "demo"), "/tmp/plumber/run/demo");
    assert_eq!(join_path("", "x"), "/x");
    assert_eq!(join_path("a", ""), "a/");
}

#[test]
fn decimal_has_no_leading_zeros() {
    assert_eq!(decimal_string(0), "0");
    assert_eq!(decimal_string(7), "7");
    assert_eq!(decimal_string(10), "10");
    assert_eq!(decimal_string(12345), "12345");
    assert_eq!(decimal_string(4294967295), "4294967295");
    assert_eq!(decimal_string(u64::MAX), "18446744073709551615");
    let mut s = String::from("pid=");
    push_decimal(&mut s, 907);
    assert_eq!(s, "pid=907");
}

#[test]
fn padding_fills_to_the_width() {
    let mut s = String::new();
    push_padded_left(&mut s, "7", '0', 2);
    assert_eq!(s, "07");
    let mut s = String::new();
    push_padded_left(&mut s, "123", '0', 2);
    assert_eq!(s, "123");
    let mut s = String::from(">");
    push_repeated(&mut s, '-', 3);
    assert_eq!(s, ">---");
    let mut s = String::from(">");
    push_chars(&mut s, &vec!['a', 'b']);
    assert_eq!(s, ">ab");
}

#[test]
fn centering_puts_the_odd_blank_behind() {
    let mut s = String::new();
    push_centered(&mut s, "ab", ' ', 5);
    assert_eq!(s, " ab  ");
    assert_eq!(s, format!("{: ^5}", "ab"));
    let mut s = String::new();
    push_centered(&mut s, "abc", '-', 7);
    assert_eq!(s, "--abc--");
    let mut s = String::new();
    push_centered(&mut s, "toolong", ' ', 3);
    assert_eq!(s, "toolong");
    let mut s = String::new();
    push_centered(&mut s, "", '-', 4);
    assert_eq!(s, "----");
}

#[test]
fn clip_keeps_the_first_characters() {
    assert_eq!(clip("abcdef", 3), "abc");
    assert_eq!(clip("abc", 3), "abc");
    assert_eq!(clip("ab", 3), "ab");
    assert_eq!(clip("äöüß", 2), "äö");
    assert_eq!(clip("abc", 0), "");
}
