use raur::text::{
    has_char, has_prefix, has_suffix, is_whitespace, split_line, split_word, to_chars,
    to_ascii_lowercase, to_text, trimmed, trimmed_end, trimmed_start,
};

fn chars(s: &str) -> Vec<char> {
    s.chars().collect()
}

#[test]
fn characters_and_text_convert_both_ways() {
    assert_eq!(to_chars("aβ\n"), vec!['a', 'β', '\n']);
    assert_eq!(to_chars(""), Vec::<char>::new());
    assert_eq!(to_text(&['a', 'β', '-']), "aβ-");
    assert_eq!(to_text(&[]), "");
}

#[test]
fn white_space_is_what_unicode_says() {
    for c in [' ', '\t', '\n', '\u{b}', '\u{c}', '\r', '\u{85}', '\u{a0}', '\u{1680}', '\u{2000}',
        '\u{200a}', '\u{2028}', '\u{2029}', '\u{202f}', '\u{205f}', '\u{3000}']
    {
        assert!(is_whitespace(c));
        assert!(c.is_whitespace());
    }
    for c in ['a', '0', '_', '\u{8}', '\u{e}', '\u{200b}', '\u{180e}', '\u{feff}', '\u{2060}'] {
        assert!(!is_whitespace(c));
        assert!(!c.is_whitespace());
    }
}

#[test]
fn trimming_takes_white_space_off_the_ends() {
    assert_eq!(trimmed(&chars("  a b \t\n")), &chars("a b")[..]);
    assert_eq!(trimmed_start(&chars("  a b ")), &chars("a b ")[..]);
    assert_eq!(trimmed_end(&chars("  a b ")), &chars("  a b")[..]);
    assert_eq!(trimmed(&chars(" \u{3000} ")), &chars("")[..]);
    assert_eq!(trimmed(&chars("")), &chars("")[..]);
    assert_eq!(trimmed(&chars("x")), &chars("x")[..]);
}

#[test]
fn lines_end_at_line_feeds() {
    let text = chars("ab\ncd\r\n\nlast");
    let (line, rest) = split_line(&text);
    assert_eq!(line, &chars("ab")[..]);
    let (line, rest) = split_line(rest);
    assert_eq!(line, &chars("cd\r")[..]);
    let (line, rest) = split_line(rest);
    assert_eq!(line, &chars("")[..]);
    let (line, rest) = split_line(rest);
    assert_eq!(line, &chars("last")[..]);
    assert!(rest.is_empty());
    let only = chars("\n");
    let (line, rest) = split_line(&only);
    assert!(line.is_empty() && rest.is_empty());
}

#[test]
fn words_are_parted_by_white_space() {
    let text = chars("  one\ttwo  ");
    let (word, rest) = split_word(&text).unwrap();
    assert_eq!(word, &chars("one")[..]);
    let (word, rest) = split_word(rest).unwrap();
    assert_eq!(word, &chars("two")[..]);
    assert_eq!(split_word(rest), None);
    assert_eq!(split_word(&chars("")), None);
}

#[test]
fn prefixes_suffixes_and_characters_are_found() {
    let text = chars("pkgver=1");
    assert!(has_prefix(&text, &chars("pkgver")));
    assert!(has_prefix(&text, &chars("")));
    assert!(has_prefix(&text, &text));
    assert!(!has_prefix(&text, &chars("pkgrel")));
    assert!(!has_prefix(&text, &chars("pkgver=1 ")));
    assert!(has_suffix(&text, &chars("=1")));
    assert!(has_suffix(&text, &chars("")));
    assert!(!has_suffix(&text, &chars("=2")));
    assert!(!has_suffix(&text, &chars("xpkgver=1")));
    assert!(has_char(&text, '='));
    assert!(!has_char(&text, '$'));
}

#[test]
fn lower_case_touches_ascii_letters_only() {
    assert_eq!(to_ascii_lowercase(&chars("AbC-Z09É")), chars("abc-z09É"));
}
