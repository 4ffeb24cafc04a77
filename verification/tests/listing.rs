use std::str::FromStr;

use echor::listing::{
    get_args, parse_char, parse_char_bounds, run, Config, ListingError, EXIT_SHOWN, EXIT_USAGE,
    RANGE_SEPARATOR,
};

fn owned(s: &str) -> String {
    s.to_string()
}

fn args(list: &[&str]) -> Vec<String> {
    list.iter().map(|s| s.to_string()).collect()
}

/// What the listing prints for the characters `chars`, by the standard
/// formatter.
fn expected(chars: impl Iterator<Item = char>) -> Vec<String> {
    chars.filter(|c| !c.is_control()).map(|c| format!("{:#08X}: [{}]", c as u64, c)).collect()
}

#[test]
fn lists_a_unicode_range() {
    let config = Config::new(false, Some(owned("41-43")), None, None);
    let lines = run(config).unwrap();
    assert_eq!(lines, vec![owned("0x000041: [A]"), owned("0x000042: [B]"), owned("0x000043: [C]")]);
}

#[test]
fn lists_a_character_range() {
    let config = Config::new(false, None, Some(owned("x-z")), None);
    assert_eq!(
        run(config).unwrap(),
        vec![owned("0x000078: [x]"), owned("0x000079: [y]"), owned("0x00007A: [z]")]
    );
    let config = Config::new(false, None, Some(owned("α-γ")), None);
    assert_eq!(run(config).unwrap(), expected('α'..='γ'));
}

#[test]
fn lists_ascii_without_the_control_characters() {
    let lines = run(Config::new(true, None, None, None)).unwrap();
    assert_eq!(lines.len(), 95);
    assert_eq!(lines[0], "0x000020: [ ]");
    assert_eq!(lines[94], "0x00007E: [~]");
    assert_eq!(lines, expected('\x00'..='\x7F'));
}

#[test]
fn lists_the_text_after_the_range() {
    let config = Config::new(false, Some(owned("30-31")), None, Some(owned("a\tb")));
    assert_eq!(
        run(config).unwrap(),
        vec![
            owned("0x000030: [0]"),
            owned("0x000031: [1]"),
            owned("0x000061: [a]"),
            owned("0x000062: [b]"),
        ]
    );
    let config = Config::new(false, None, None, Some(owned("héé")));
    assert_eq!(run(config).unwrap(), expected("héé".chars()));
}

#[test]
fn lists_nothing_when_nothing_is_asked() {
    assert_eq!(run(Config::new(false, None, None, None)).unwrap(), Vec::<String>::new());
    assert_eq!(run(Config::new(false, None, None, Some(owned("")))).unwrap(), Vec::<String>::new());
    assert_eq!(run(Config::new(false, Some(owned("5A-41")), None, None)).unwrap(), Vec::<String>::new());
    assert_eq!(run(Config::new(false, Some(owned("0-1F")), None, None)).unwrap(), Vec::<String>::new());
}

#[test]
fn the_unicode_range_goes_before_the_others() {
    let config = Config::new(true, Some(owned("41-41")), Some(owned("x-z")), None);
    assert_eq!(run(config).unwrap(), vec![owned("0x000041: [A]")]);
    let config = Config::new(true, None, Some(owned("x-x")), None);
    assert_eq!(run(config).unwrap(), vec![owned("0x000078: [x]")]);
    // A bad unicode range is an error even if the other range is good.
    let config = Config::new(true, Some(owned("41")), Some(owned("x-z")), Some(owned("t")));
    assert_eq!(run(config).unwrap_err(), ListingError::InvalidCharRange);
}

#[test]
fn a_range_across_the_surrogates_skips_them() {
    let config = Config::new(false, Some(owned("D7FE-E001")), None, None);
    assert_eq!(run(config).unwrap(), expected('\u{D7FE}'..='\u{E001}'));
    assert_eq!(run(Config::new(false, Some(owned("D7FE-E001")), None, None)).unwrap().len(), 4);
}

#[test]
fn rejects_a_range_without_separator() {
    let config = Config::new(false, Some(owned("41")), None, None);
    assert_eq!(run(config).unwrap_err(), ListingError::InvalidCharRange);
    let config = Config::new(false, None, Some(owned("az")), None);
    assert_eq!(run(config).unwrap_err(), ListingError::InvalidCharRange);
    let config = Config::new(false, Some(owned("41-D800")), None, None);
    assert_eq!(run(config).unwrap_err(), ListingError::InvalidCharRange);
}

#[test]
fn rejects_character_ranges_with_bad_ends() {
    let bad = |code: &str| run(Config::new(false, None, Some(owned(code)), None)).unwrap_err();
    assert_eq!(bad("-z"), ListingError::EmptyChar);
    assert_eq!(bad("a-"), ListingError::EmptyChar);
    assert_eq!(bad("-"), ListingError::EmptyChar);
    assert_eq!(bad("ab-z"), ListingError::TooManyChars);
    assert_eq!(bad("a-yz"), ListingError::TooManyChars);
    assert_eq!(bad("a-b-c"), ListingError::TooManyChars);
    // Of two bad ends the first is reported.
    assert_eq!(bad("ab-"), ListingError::TooManyChars);
    assert_eq!(bad("-yz"), ListingError::EmptyChar);
}

#[test]
fn single_characters_are_read_as_the_standard_library_reads_them() {
    for s in ["", "a", "é", "ab", "日本", "\u{10FFFF}", " "] {
        assert_eq!(parse_char(s).ok(), char::from_str(s).ok(), "{:?}", s);
        if let Err(e) = char::from_str(s) {
            assert_eq!(parse_char(s).unwrap_err().message(), e.to_string());
        }
    }
    assert_eq!(parse_char_bounds("a-z", RANGE_SEPARATOR), Ok(('a', 'z')));
    assert_eq!(parse_char_bounds("a", RANGE_SEPARATOR), Err(ListingError::InvalidCharRange));
}

#[test]
fn errors_have_messages() {
    assert_eq!(ListingError::InvalidCharRange.message(), "invalid character range");
    assert_eq!(ListingError::EmptyChar.message(), "cannot parse char from empty string");
    assert_eq!(ListingError::TooManyChars.message(), "too many characters in string");
}

#[test]
fn get_args_reads_flags_and_values() {
    let config =
        get_args(args(&["unicode", "-a", "-u", "41-5A", "--char", "a-z", "hello"])).unwrap();
    assert!(config.ascii());
    assert_eq!(config.unicode_range(), &Some(owned("41-5A")));
    assert_eq!(config.char_range(), &Some(owned("a-z")));
    assert_eq!(config.text(), &Some(owned("hello")));
}

#[test]
fn get_args_reads_the_long_and_the_joined_forms() {
    let config = get_args(args(&["unicode", "--ascii", "--unicode=30-39", "-cA-Z"])).unwrap();
    assert!(config.ascii());
    assert_eq!(config.unicode_range(), &Some(owned("30-39")));
    assert_eq!(config.char_range(), &Some(owned("A-Z")));
    assert_eq!(config.text(), &None);
}

#[test]
fn get_args_without_arguments_asks_for_nothing() {
    for list in [&["unicode"][..], &[][..]] {
        let config = get_args(args(list)).unwrap();
        assert!(!config.ascii());
        assert_eq!(config.unicode_range(), &None);
        assert_eq!(config.char_range(), &None);
        assert_eq!(config.text(), &None);
        assert_eq!(run(config).unwrap(), Vec::<String>::new());
    }
}

#[test]
fn get_args_takes_the_text_alone() {
    let config = get_args(args(&["unicode", "héllo"])).unwrap();
    assert!(!config.ascii());
    assert_eq!(config.text(), &Some(owned("héllo")));
    assert_eq!(run(config).unwrap(), expected("héllo".chars()));
}

#[test]
fn get_args_rejects_what_it_does_not_know() {
    for list in [
        &["unicode", "--nope"][..],
        &["unicode", "-u"][..],
        &["unicode", "one", "two"][..],
        &["unicode", "-a", "-a"][..],
        &["unicode", "-u", "1-2", "-u", "3-4"][..],
    ] {
        let stop = get_args(args(list)).unwrap_err();
        assert_eq!(stop.exit_code(), EXIT_USAGE, "{:?}", list);
        assert_eq!(stop.exit_code(), 2);
        assert!(stop.is_mistake());
        assert!(!stop.message().is_empty());
    }
}

#[test]
fn get_args_shows_help_and_version() {
    for flag in ["-h", "--help"] {
        let stop = get_args(args(&["unicode", flag])).unwrap_err();
        assert_eq!(stop.exit_code(), EXIT_SHOWN);
        assert_eq!(stop.exit_code(), 0);
        assert!(!stop.is_mistake());
        for part in ["--ascii", "--unicode", "--char", "print text", "print specified unicode range"] {
            assert!(stop.message().contains(part), "{}", part);
        }
    }
    for flag in ["-V", "--version"] {
        let stop = get_args(args(&["unicode", flag])).unwrap_err();
        assert_eq!(stop.exit_code(), EXIT_SHOWN);
        assert!(stop.message().contains("0.1.0"));
    }
}

#[test]
fn the_command_line_leads_to_the_listing() {
    let lines = run(get_args(args(&["unicode", "-u", "41-43", "xy"])).unwrap()).unwrap();
    assert_eq!(
        lines,
        vec![
            owned("0x000041: [A]"),
            owned("0x000042: [B]"),
            owned("0x000043: [C]"),
            owned("0x000078: [x]"),
            owned("0x000079: [y]"),
        ]
    );
    let config = get_args(args(&["unicode", "--char", "a"])).unwrap();
    assert_eq!(run(config).unwrap_err(), ListingError::InvalidCharRange);
}
