use taskboard::util::Util;

#[test]
fn test_encode_and_decode_filename() {
    // Spaces are kept as literal spaces, only special chars are percent-encoded
    let test_cases = vec![
        ("Hello World", "Hello World"),
        ("Review & Test", "Review %26 Test"),
        ("Task: Important!", "Task%3A Important%21"),
        ("Bug #123", "Bug %23123"),
        ("100% Complete", "100%25 Complete"),
        ("A/B Testing", "A%2FB Testing"),
        ("Special <chars>", "Special %3Cchars%3E"),
        ("no_changes", "no_changes"),
        ("Space   here", "Space   here"),
    ];

    for (title, expected_encoded) in test_cases {
        let encoded = Util::encode_filename(title);
        assert_eq!(
            encoded, expected_encoded,
            "Failed encoding for: {}",
            title
        );

        let decoded = Util::decode_filename(&encoded);
        assert_eq!(decoded, title, "Failed decoding for: {}", encoded);
    }
}

#[test]
fn test_encode_empty() {
    // Empty string returns "task"
    assert_eq!(Util::encode_filename(""), "task");
    // Only dots returns "task"
    assert_eq!(Util::encode_filename("..."), "task");
    // Whitespace-only strings are trimmed and return "task"
    assert_eq!(Util::encode_filename("   "), "task");
    assert_eq!(Util::encode_filename("  \t\n  "), "task");
}

#[test]
fn spaced_title_adds_one_space_each_side() {
    assert_eq!(Util::get_spaced_title("Inbox"), " Inbox ");
    assert_eq!(Util::get_spaced_title(""), "  ");
}

#[test]
fn encode_keeps_plain_characters() {
    assert_eq!(Util::encode_filename("abc-XYZ_0.9"), "abc-XYZ_0.9");
}

#[test]
fn encode_escapes_each_reserved_character() {
    assert_eq!(Util::encode_filename("a\\b"), "a%5Cb");
    assert_eq!(Util::encode_filename("a\"b"), "a%22b");
    assert_eq!(Util::encode_filename("a|b"), "a%7Cb");
    assert_eq!(Util::encode_filename("a?b"), "a%3Fb");
    assert_eq!(Util::encode_filename("a*b"), "a%2Ab");
    assert_eq!(Util::encode_filename("a>b"), "a%3Eb");
}

#[test]
fn encode_escapes_non_ascii_by_code_point() {
    // Code points below 0x100 take two digits, larger ones more.
    assert_eq!(Util::encode_filename("caf\u{e9}"), "caf%E9");
    assert_eq!(Util::encode_filename("\u{20ac}5"), "%20AC5");
    // A control character gets a leading zero.
    assert_eq!(Util::encode_filename("a\u{1}b"), "a%01b");
}

#[test]
fn encode_trims_whitespace_then_dots() {
    assert_eq!(Util::encode_filename("  ..notes..  "), "notes");
    assert_eq!(Util::encode_filename("\u{3000}x\u{a0}"), "x");
    // Dots inside stay.
    assert_eq!(Util::encode_filename("v1.2"), "v1.2");
}

#[test]
fn decode_leaves_incomplete_or_invalid_escapes() {
    assert_eq!(Util::decode_filename("%"), "%");
    assert_eq!(Util::decode_filename("ab%4"), "ab%4");
    assert_eq!(Util::decode_filename("%zz!"), "%zz!");
    assert_eq!(Util::decode_filename("%-5"), "%-5");
}

#[test]
fn decode_reads_two_hex_digits_in_either_case_only() {
    assert_eq!(Util::decode_filename("%2f%2F"), "//");
    assert_eq!(Util::decode_filename("%+41"), "%+41");
    assert_eq!(Util::decode_filename("%+A"), "%+A");
    assert_eq!(Util::decode_filename("%+1x"), "%+1x");
    assert_eq!(Util::decode_filename("%E9t%E9"), "\u{e9}t\u{e9}");
}

#[test]
fn decode_inverts_encode_for_latin_titles() {
    for title in ["Plan: A/B?", "100% <done>", "  r\u{e9}sum\u{e9} *final*  ", "x|y\\z"] {
        let encoded = Util::encode_filename(title);
        assert_eq!(Util::decode_filename(&encoded), title.trim());
    }
}

#[test]
fn encoded_names_hold_only_safe_characters() {
    let encoded = Util::encode_filename(".a/b\\c<d>e:f\"g|h?i*j\u{2603}.");
    assert!(!encoded.starts_with('.') && !encoded.ends_with('.'));
    assert!(encoded
        .chars()
        .all(|c| c.is_ascii_alphanumeric() || "-_. %".contains(c)));
}

#[test]
fn priority_indicator_marks_and_pads() {
    assert_eq!(Util::get_priority_indicator(1), "[!!!]");
    assert_eq!(Util::get_priority_indicator(2), "[!!] ");
    assert_eq!(Util::get_priority_indicator(3), "[!]  ");
    assert_eq!(Util::get_priority_indicator(0), "[]  ");
    assert_eq!(Util::get_priority_indicator(9), "[]  ");
}

#[test]
fn cost_and_time_indicators() {
    assert_eq!(Util::get_cost_indicator(1), "$$$");
    assert_eq!(Util::get_cost_indicator(2), "$$");
    assert_eq!(Util::get_cost_indicator(3), "$");
    assert_eq!(Util::get_cost_indicator(0), "");
    assert_eq!(Util::get_cost_indicator(7), "");
    assert_eq!(Util::get_time_indicator(1), "\u{23f2}\u{23f2}\u{23f2}");
    assert_eq!(Util::get_time_indicator(3), "\u{23f2}");
    assert_eq!(Util::get_time_indicator(0), "");
}

#[test]
fn dots_around_escapes_are_trimmed_like_dots_around_the_title() {
    // A title that starts or ends with dots next to escaped characters.
    assert_eq!(Util::encode_filename("..?a?.."), "%3Fa%3F");
    assert_eq!(Util::encode_filename(".:."), "%3A");
}

#[test]
fn every_escape_has_two_upper_case_hex_digits() {
    for title in ["a/b", "100%", "caf\u{e9}", "\u{20ac}", "x\u{1}y", "..?.."] {
        let name: Vec<char> = Util::encode_filename(title).chars().collect();
        for (k, c) in name.iter().enumerate() {
            if *c == '%' {
                assert!(k + 2 < name.len());
                for d in &name[k + 1..k + 3] {
                    assert!(d.is_ascii_digit() || ('A'..='F').contains(d));
                }
            }
        }
    }
}
