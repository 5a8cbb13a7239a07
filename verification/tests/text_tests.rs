use reflac::text::{
    chars_of, digit_count, parse_decimal, push_decimal, push_hex8, push_zero_padded,
    replace_slashes, same_text, string_of, trim,
};

#[test]
fn slashes_become_underscores() {
    assert_eq!(replace_slashes("AC/DC"), "AC_DC");
    assert_eq!(replace_slashes("//"), "__");
    assert_eq!(replace_slashes("plain"), "plain");
    assert_eq!(replace_slashes(""), "");
}

#[test]
fn decimal_notation_is_the_shortest() {
    let mut s = String::new();
    push_decimal(&mut s, 0);
    assert_eq!(s, "0");
    let mut s = String::from("n=");
    push_decimal(&mut s, 1203);
    assert_eq!(s, "n=1203");
    let mut s = String::new();
    push_decimal(&mut s, usize::MAX);
    assert_eq!(s, usize::MAX.to_string());
}

#[test]
fn digit_count_counts_digits() {
    assert_eq!(digit_count(0), 1);
    assert_eq!(digit_count(9), 1);
    assert_eq!(digit_count(10), 2);
    assert_eq!(digit_count(99), 2);
    assert_eq!(digit_count(100), 3);
    assert_eq!(digit_count(usize::MAX), usize::MAX.to_string().len());
}

#[test]
fn zero_padding_fills_to_the_width() {
    let mut s = String::new();
    push_zero_padded(&mut s, 3, 3);
    assert_eq!(s, "003");
    let mut s = String::new();
    push_zero_padded(&mut s, 1234, 2);
    assert_eq!(s, "1234");
    let mut s = String::new();
    push_zero_padded(&mut s, 7, 0);
    assert_eq!(s, "7");
    let mut s = String::new();
    push_zero_padded(&mut s, 0, 4);
    assert_eq!(s, "0000");
}

#[test]
fn hexadecimal_has_eight_lower_case_digits() {
    let mut s = String::new();
    push_hex8(&mut s, 0);
    assert_eq!(s, "00000000");
    let mut s = String::new();
    push_hex8(&mut s, 0x1a2b3c4d);
    assert_eq!(s, "1a2b3c4d");
    let mut s = String::new();
    push_hex8(&mut s, u32::MAX);
    assert_eq!(s, "ffffffff");
    let mut s = String::new();
    push_hex8(&mut s, 0xabcdef);
    assert_eq!(s, format!("{:08x}", 0xabcdefu32));
}

#[test]
fn decimal_numbers_are_read_up_to_the_limit() {
    assert_eq!(parse_decimal(&chars_of("0"), 10), Some(0));
    assert_eq!(parse_decimal(&chars_of("007"), 10), Some(7));
    assert_eq!(parse_decimal(&chars_of("10"), 10), Some(10));
    assert_eq!(parse_decimal(&chars_of("11"), 10), None);
    assert_eq!(parse_decimal(&chars_of(""), 10), None);
    assert_eq!(parse_decimal(&chars_of("1a"), 100), None);
    assert_eq!(parse_decimal(&chars_of("+1"), 100), None);
    assert_eq!(parse_decimal(&chars_of("٣"), 100), None);
    assert_eq!(
        parse_decimal(&chars_of("18446744073709551615"), u64::MAX),
        Some(u64::MAX)
    );
    assert_eq!(parse_decimal(&chars_of("18446744073709551616"), u64::MAX), None);
    assert_eq!(parse_decimal(&chars_of("99999999999999999999"), u64::MAX), None);
}

#[test]
fn trimming_takes_white_space_from_both_ends() {
    assert_eq!(string_of(&trim(&chars_of("  a b \t"))), "a b");
    assert_eq!(string_of(&trim(&chars_of("ab"))), "ab");
    assert_eq!(string_of(&trim(&chars_of("   "))), "");
    assert_eq!(string_of(&trim(&chars_of(""))), "");
    assert_eq!(string_of(&trim(&chars_of("\u{3000}x\u{a0}"))), "x");
    assert_eq!(string_of(&trim(&chars_of(" é "))), "é".trim());
}

#[test]
fn characters_round_trip() {
    let v = chars_of("héllo/wörld");
    assert_eq!(v.len(), 11);
    assert_eq!(string_of(&v), "héllo/wörld");
}

#[test]
fn texts_compare_by_their_characters() {
    assert!(same_text("zip", "zip"));
    assert!(!same_text("zip", "zi"));
    assert!(!same_text("zip", "zap"));
    assert!(same_text("", ""));
}

#[test]
fn six_ascii_characters_are_white_space() {
    for code in 0u32..128 {
        let c = char::from_u32(code).unwrap();
        let text: String = [c, 'x', c].iter().collect();
        let kept = string_of(&trim(&chars_of(&text)));
        if [' ', '\t', '\n', '\u{b}', '\u{c}', '\r'].contains(&c) {
            assert_eq!(kept, "x");
        } else {
            assert_eq!(kept, text);
        }
    }
}
