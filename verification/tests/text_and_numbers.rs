//! Texts, decimal numbers and doubles.
use proto_control::double;
use proto_control::lines::{complete_line, is_timeout, ReadFailure};
use proto_control::text;

#[test]
fn white_space_is_what_std_says() {
    for u in 0..=0x10FFFFu32 {
        if let Some(c) = char::from_u32(u) {
            assert_eq!(text::white(c), c.is_whitespace(), "{:?}", c);
        }
    }
}

#[test]
fn trimming_is_what_std_does() {
    for s in ["", "  ", "a", " a b \n", "\u{a0}x\u{3000}", "no", "\t\u{2028}é "] {
        assert_eq!(text::trim(s), s.trim());
    }
}

#[test]
fn trailing_characters_go() {
    assert_eq!(text::trim_trailing("abc\0\0", '\0'), "abc");
    assert_eq!(text::trim_trailing("\0\0", '\0'), "");
    assert_eq!(text::trim_trailing("a\0b", '\0'), "a\0b");
}

#[test]
fn searching_is_what_std_does() {
    let texts = ["", "a", "ab", "aab", "Roto-Control MIDI", "über", "bü", "\u{1F600}x"];
    for s in texts {
        for p in texts {
            assert_eq!(text::contains(s, p), s.contains(p), "{:?} {:?}", s, p);
            assert_eq!(text::starts_with(s, p), s.starts_with(p), "{:?} {:?}", s, p);
            assert_eq!(text::same_text(s, p), s == p, "{:?} {:?}", s, p);
            assert_eq!(text::text_before(s, p), s < p, "{:?} {:?}", s, p);
        }
    }
}

#[test]
fn second_words() {
    assert_eq!(text::second_word("Volume: 0.45 [MUTED]"), Some("0.45".to_string()));
    assert_eq!(text::second_word("  a\tb\n"), Some("b".to_string()));
    assert_eq!(text::second_word("alone "), None);
    assert_eq!(text::second_word(" "), None);
    assert_eq!(text::second_word(""), None);
}

#[test]
fn decimal_numbers() {
    for n in [0u64, 7, 10, 99, 100, 65535, u64::MAX] {
        assert_eq!(text::decimal_text(n), n.to_string());
    }
    for n in [0i32, -1, 42, i32::MAX, i32::MIN] {
        assert_eq!(text::signed_decimal_text(n), n.to_string());
        assert_eq!(text::parse_i32(&n.to_string()), Some(n));
    }
}

#[test]
fn whole_numbers_are_read_as_std_reads_them() {
    for s in [
        "", "+", "-", "0", "-0", "+7", "007", "12a", " 1", "1 ", "2147483647", "2147483648",
        "-2147483648", "-2147483649", "99999999999999999999999", "--1", "1.0", "٣",
    ] {
        assert_eq!(text::parse_i32(s), s.parse::<i32>().ok(), "{:?}", s);
    }
}

#[test]
fn characters_and_parts() {
    let chars = text::chars_of("aé\u{1F600}");
    assert_eq!(chars, vec!['a', 'é', '\u{1F600}']);
    assert_eq!(text::text_of(&chars, 1, 3), "é\u{1F600}");
    assert_eq!(text::code_point('é'), 0xE9);
}

fn samples() -> Vec<f64> {
    let mut r = vec![
        0.0, -0.0, 0.25, 0.49999999999999994, 0.5, 0.9999, 1.0, 1.5, 2.5, 9.999999999999998, 10.0,
        10.000000000000002, 24.0, 23.976, 99.5, 100.0, 200.0, 65534.5, 65535.0, 65535.49,
        65535.5, 65536.0, 1e9, 1e300, -1.0, -0.5, 5e-324, 2.2250738585072014e-308, f64::MAX,
        f64::MIN, f64::INFINITY, f64::NEG_INFINITY, f64::NAN, -f64::NAN,
    ];
    for i in 0..2000 {
        r.push(i as f64 * 0.37);
        r.push(i as f64 + 0.5);
    }
    r
}

#[test]
fn doubles_are_rounded_as_std_rounds_them() {
    for x in samples() {
        assert_eq!(double::round_to_u16(x.to_bits()), x.round() as u16, "{}", x);
    }
}

#[test]
fn doubles_are_compared_as_std_compares_them() {
    for x in samples() {
        assert_eq!(double::positive(x.to_bits()), x > 0.0, "{}", x);
        assert_eq!(double::at_most_ten(x.to_bits()), x <= 10.0, "{}", x);
    }
}

#[test]
fn whole_doubles_round_to_themselves() {
    for n in 0..=65535u32 {
        assert_eq!(double::round_to_u16((n as f64).to_bits()), n as u16);
    }
}

#[test]
fn lines_count_once_they_are_whole() {
    assert_eq!(complete_line("{\"a\":1}\n"), Some("{\"a\":1}".to_string()));
    assert_eq!(complete_line(" x \r\n"), Some("x".to_string()));
    assert_eq!(complete_line("\n"), Some(String::new()));
    assert_eq!(complete_line("half"), None);
    assert_eq!(complete_line(""), None);
}

#[test]
fn silence_is_no_failure() {
    assert!(is_timeout(ReadFailure::WouldBlock));
    assert!(is_timeout(ReadFailure::TimedOut));
    assert!(!is_timeout(ReadFailure::Other));
}
