use fantasyf1::text::{
    chars_of, decimal_string, fold, key_is, lookup_key_of, pad_to, parse_unsigned, same_chars,
    same_key, same_text, trim_end_matches,
};

#[test]
fn parse_unsigned_reads_digits() {
    assert_eq!(parse_unsigned("0"), Some(0));
    assert_eq!(parse_unsigned("7"), Some(7));
    assert_eq!(parse_unsigned("10"), Some(10));
    assert_eq!(parse_unsigned("007"), Some(7));
    assert_eq!(parse_unsigned("+12"), Some(12));
    assert_eq!(parse_unsigned("4294967295"), Some(4294967295));
    assert_eq!(parse_unsigned("0000000004294967295"), Some(4294967295));
}

#[test]
fn parse_unsigned_refuses_the_rest() {
    assert_eq!(parse_unsigned(""), None);
    assert_eq!(parse_unsigned("+"), None);
    assert_eq!(parse_unsigned("++1"), None);
    assert_eq!(parse_unsigned("-1"), None);
    assert_eq!(parse_unsigned("R"), None);
    assert_eq!(parse_unsigned("1 "), None);
    assert_eq!(parse_unsigned(" 1"), None);
    assert_eq!(parse_unsigned("1.0"), None);
    assert_eq!(parse_unsigned("1+"), None);
    assert_eq!(parse_unsigned("\u{661}"), None);
    assert_eq!(parse_unsigned("4294967296"), None);
    assert_eq!(parse_unsigned("99999999999999999999999999"), None);
}

#[test]
fn parse_unsigned_agrees_with_the_standard_parser() {
    for text in ["0", "1", "+1", "-1", "", "+", "12a", "0012", "4294967295", "4294967296", "\u{663}"] {
        assert_eq!(parse_unsigned(text), text.parse::<u32>().ok());
    }
}

#[test]
fn decimal_string_writes_digits() {
    assert_eq!(decimal_string(0), "0");
    assert_eq!(decimal_string(9), "9");
    assert_eq!(decimal_string(10), "10");
    assert_eq!(decimal_string(2025), "2025");
    assert_eq!(decimal_string(4294967295), "4294967295");
    for n in [0u32, 5, 42, 100, 1234567890] {
        assert_eq!(decimal_string(n), n.to_string());
        assert_eq!(parse_unsigned(&decimal_string(n)), Some(n));
    }
}

#[test]
fn pad_to_fills_with_spaces() {
    assert_eq!(pad_to("Norris".to_owned(), 12), "Norris      ");
    assert_eq!(pad_to("".to_owned(), 3), "   ");
    assert_eq!(pad_to("Hulkenberg".to_owned(), 10), "Hulkenberg");
    assert_eq!(pad_to("Verstappen".to_owned(), 4), "Verstappen");
    // the width counts characters, not bytes
    assert_eq!(pad_to("\u{e9}t\u{e9}".to_owned(), 5), "\u{e9}t\u{e9}  ");
    assert_eq!(pad_to("x".to_owned(), 0), "x");
}

#[test]
fn trim_end_matches_cuts_every_trailing_occurrence() {
    assert_eq!(trim_end_matches("Australian Grand Prix", "Grand Prix"), "Australian ");
    assert_eq!(trim_end_matches("Grand Prix", "Grand Prix"), "");
    assert_eq!(trim_end_matches("Monaco Grand PrixGrand Prix", "Grand Prix"), "Monaco ");
    assert_eq!(trim_end_matches("Grand Prix of Europe", "Grand Prix"), "Grand Prix of Europe");
    assert_eq!(trim_end_matches("aaa", "aa"), "a");
    assert_eq!(trim_end_matches("abc", ""), "abc");
    assert_eq!(trim_end_matches("", "x"), "");
    assert_eq!(trim_end_matches("S\u{e3}o Paulo Grand Prix", "Grand Prix"), "S\u{e3}o Paulo ");
    for (s, pat) in [("xyzzy", "zy"), ("1212", "12"), ("Grand Prix ", "Grand Prix")] {
        assert_eq!(trim_end_matches(s, pat), s.trim_end_matches(pat));
    }
}

#[test]
fn same_text_compares_characters() {
    assert!(same_text("Doohan", "Doohan"));
    assert!(!same_text("Doohan", "doohan"));
    assert!(!same_text("Doohan", "Doohan "));
    assert!(same_text("", ""));
}

#[test]
fn chars_of_lists_characters() {
    assert_eq!(chars_of("P\u{e9}rez"), vec!['P', '\u{e9}', 'r', 'e', 'z']);
    assert_eq!(chars_of(""), Vec::<char>::new());
}

#[test]
fn fold_turns_ascii_capitals_into_small_letters() {
    assert_eq!(fold('A'), 'a');
    assert_eq!(fold('N'), 'n');
    assert_eq!(fold('Z'), 'z');
    assert_eq!(fold('a'), 'a');
    assert_eq!(fold('z'), 'z');
    assert_eq!(fold('@'), '@');
    assert_eq!(fold('['), '[');
    assert_eq!(fold('0'), '0');
    assert_eq!(fold(' '), ' ');
    assert_eq!(fold('\u{c9}'), '\u{c9}');
    for c in ['A', 'M', 'Z', 'q', '-', '\u{e9}', '\u{dc}'] {
        assert_eq!(fold(c), c.to_ascii_lowercase());
    }
}

#[test]
fn lookup_key_is_the_name_in_small_letters() {
    assert_eq!(lookup_key_of("Norris"), chars_of("norris"));
    assert_eq!(lookup_key_of("norris"), chars_of("norris"));
    assert_eq!(lookup_key_of("RB F1 Team"), chars_of("rb f1 team"));
    assert_eq!(lookup_key_of("P\u{c9}REZ"), chars_of("p\u{c9}rez"));
    assert_eq!(lookup_key_of(""), Vec::<char>::new());
    for name in ["Hulkenberg", "de Vries", "O'WARD", "\u{d6}zil"] {
        let key: String = lookup_key_of(name).into_iter().collect();
        assert_eq!(key, name.to_ascii_lowercase());
    }
}

#[test]
fn same_key_compares_without_case() {
    assert!(same_key("Norris", "norris"));
    assert!(same_key("NORRIS", "nOrRiS"));
    assert!(same_key("", ""));
    assert!(!same_key("Norris", "Norri"));
    assert!(!same_key("Norris", "Morris"));
    assert!(!same_key("P\u{e9}rez", "P\u{c9}rez"));
    assert!(key_is(&lookup_key_of("DOOHAN"), "Doohan"));
    assert!(!key_is(&chars_of("DOOHAN"), "Doohan"));
    assert!(!key_is(&lookup_key_of("Doohan"), "Doohan "));
}

#[test]
fn same_chars_compares_lists() {
    assert!(same_chars(&vec!['a', 'b'], &vec!['a', 'b']));
    assert!(!same_chars(&vec!['a', 'b'], &vec!['a', 'B']));
    assert!(!same_chars(&vec!['a', 'b'], &vec!['a']));
    assert!(same_chars(&Vec::new(), &Vec::new()));
}
