use polynomial_roots::text::{
    drop_spaces, find_first, is_one_of, push_decimal, skip_spaces, to_chars, to_text, trim,
};

fn chars(text: &str) -> Vec<char> {
    text.chars().collect()
}

#[test]
fn to_chars_keeps_every_character() {
    assert_eq!(to_chars(""), Vec::<char>::new());
    assert_eq!(to_chars("X^2"), vec!['X', '^', '2']);
    assert_eq!(to_chars("a\u{e9}\u{3000}z"), vec!['a', '\u{e9}', '\u{3000}', 'z']);
}

#[test]
fn to_text_is_the_inverse_of_to_chars() {
    for text in ["", "X^2-1", "(3+2i)X^3+iX-5", "\u{e9}t\u{e9}"] {
        assert_eq!(to_text(&to_chars(text)), text);
    }
}

#[test]
fn is_one_of_tests_membership() {
    assert!(is_one_of('+', &['+', '-']));
    assert!(is_one_of('-', &['+', '-']));
    assert!(!is_one_of('i', &['+', '-']));
    assert!(!is_one_of('i', &[]));
}

#[test]
fn find_first_stops_at_the_first_stop() {
    let text = chars("12+3-4");
    assert_eq!(find_first(&text, 0, &['+', '-']), 2);
    assert_eq!(find_first(&text, 2, &['+', '-']), 2);
    assert_eq!(find_first(&text, 3, &['+', '-']), 4);
    assert_eq!(find_first(&text, 5, &['+', '-']), 6);
    assert_eq!(find_first(&text, 6, &['+', '-']), 6);
    assert_eq!(find_first(&text, 0, &['x']), 6);
}

#[test]
fn skip_spaces_steps_over_whitespace_only() {
    let text = chars(" \t\u{a0}X  ");
    assert_eq!(skip_spaces(&text, 0, text.len()), 3);
    assert_eq!(skip_spaces(&text, 0, 2), 2);
    assert_eq!(skip_spaces(&text, 3, text.len()), 3);
    assert_eq!(skip_spaces(&text, 4, text.len()), 6);
}

#[test]
fn drop_spaces_steps_back_over_whitespace_only() {
    let text = chars("  X \u{3000}\n");
    assert_eq!(drop_spaces(&text, 0, text.len()), 3);
    assert_eq!(drop_spaces(&text, 0, 2), 0);
    assert_eq!(drop_spaces(&text, 1, 2), 1);
    assert_eq!(drop_spaces(&text, 0, 3), 3);
}

#[test]
fn trim_agrees_with_the_standard_trim() {
    for text in ["", " ", "X", " X", "X ", "  X^2 - 1 \n", "\u{a0}2\u{3000}", "\t\r\n", "a b"] {
        assert_eq!(to_text(trim(&chars(text))), text.trim(), "{:?}", text);
    }
}

#[test]
fn push_decimal_writes_the_numeral() {
    for n in [0usize, 1, 7, 9, 10, 11, 99, 100, 12345, 1_000_000, usize::MAX] {
        let mut out = String::from("X^");
        push_decimal(&mut out, n);
        assert_eq!(out, format!("X^{}", n));
    }
}

fn white_space(c: char) -> bool {
    matches!(
        c,
        '\u{9}'..='\u{d}'
            | ' '
            | '\u{85}'
            | '\u{a0}'
            | '\u{1680}'
            | '\u{2000}'..='\u{200a}'
            | '\u{2028}'
            | '\u{2029}'
            | '\u{202f}'
            | '\u{205f}'
            | '\u{3000}'
    )
}

#[test]
fn whitespace_is_the_twenty_five_characters_with_the_property() {
    let mut count = 0;
    for code in 0..=0x10ffffu32 {
        if let Some(c) = char::from_u32(code) {
            assert_eq!(c.is_whitespace(), white_space(c), "{:x}", code);
            assert_eq!(skip_spaces(&[c], 0, 1) == 1, white_space(c), "{:x}", code);
            assert_eq!(drop_spaces(&[c], 0, 1) == 0, white_space(c), "{:x}", code);
            if white_space(c) {
                count += 1;
            }
        }
    }
    assert_eq!(count, 25);
}

#[test]
fn numeric_among_the_first_128_characters_is_a_digit() {
    for code in 0..=0x7fu32 {
        let c = char::from_u32(code).unwrap();
        assert_eq!(c.is_numeric(), ('0'..='9').contains(&c), "{:x}", code);
    }
}
