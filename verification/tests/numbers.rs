use polynomial_roots::number::{is_number_literal, parse_power};

fn chars(text: &str) -> Vec<char> {
    text.chars().collect()
}

fn literal_samples() -> Vec<&'static str> {
    vec![
        "", "0", "1", "12.5", ".5", "5.", ".", "1e5", "1E5", "1e", "1e+5", "1e-5", "e5", "+1",
        "-1", "+", "-", "inf", "INF", "Inf", "Infinity", "INFINITY", "infinit", "infinityx", "nan",
        "NaN", "NAN", "+nan", "-inf", "-infinity", "nani", "1.2.3", "1_000", "0x10", " 1", "1 ",
        "\u{ff11}", "1e5.5", "1.e5", ".e5", "+.5e-3", "1e+", "--1", "+-1", "1i", "i", "1e٣",
        "00012", "1.", "123456789012345678901234567890", "0.000000000000000000000000000001",
        "1e400", "1e-400", "E5", "1ee5", "1e5e5", "１２", "²", "1,5", "1.5f", "0.", ".0",
        "\u{130}nf", "ınf", "iNf", "nAn", "InFiNiTy",
    ]
}

#[test]
fn number_literals_are_what_the_machine_reads() {
    for text in literal_samples() {
        assert_eq!(
            is_number_literal(&chars(text)),
            text.parse::<f64>().is_ok(),
            "{:?}",
            text
        );
    }
}

#[test]
fn number_literal_takes_plain_decimals() {
    assert!(is_number_literal(&chars("3")));
    assert!(is_number_literal(&chars("2.5")));
    assert!(is_number_literal(&chars("1e20")));
    assert!(is_number_literal(&chars("nan")));
}

#[test]
fn number_literal_refuses_what_is_no_number() {
    assert!(!is_number_literal(&chars("")));
    assert!(!is_number_literal(&chars("abc")));
    assert!(!is_number_literal(&chars("1e")));
    assert!(!is_number_literal(&chars("2 5")));
    assert!(!is_number_literal(&chars(".")));
}

fn power_samples() -> Vec<&'static str> {
    vec![
        "2", " 2 ", "\t12\n", "+7", "-1", "-0", "", " ", "007", "0", "18446744073709551615",
        "18446744073709551616", "4294967295", "4294967296", "99999999999999999999999",
        "000000000000000000000000000000000001", "2x", "٣", "1 2", "+", "++1", "1+", "２",
        "\u{a0}5\u{3000}", "5.", "1e2",
    ]
}

#[test]
fn powers_are_what_the_machine_reads() {
    for text in power_samples() {
        let expected = text.trim().parse::<usize>().ok().filter(|&power| power < usize::MAX);
        assert_eq!(parse_power(&chars(text)), expected, "{:?}", text);
    }
}

#[test]
fn power_of_a_numeral_is_its_value() {
    assert_eq!(parse_power(&chars("2")), Some(2));
    assert_eq!(parse_power(&chars("10")), Some(10));
    assert_eq!(parse_power(&chars(" 31 ")), Some(31));
    assert_eq!(parse_power(&chars("0")), Some(0));
}

#[test]
fn power_refuses_what_is_no_numeral() {
    assert_eq!(parse_power(&chars("")), None);
    assert_eq!(parse_power(&chars("a")), None);
    assert_eq!(parse_power(&chars("2X")), None);
    assert_eq!(parse_power(&chars("-2")), None);
}

#[test]
fn power_refuses_what_does_not_fit() {
    let too_large = format!("{}0", usize::MAX);
    assert_eq!(parse_power(&chars(&too_large)), None);
    let largest = format!("{}", usize::MAX);
    assert_eq!(parse_power(&chars(&largest)), None);
    let largest_power = format!("{}", usize::MAX - 1);
    assert_eq!(parse_power(&chars(&largest_power)), Some(usize::MAX - 1));
}
