use srcinfo_parser::slice::char_width;
use srcinfo_parser::slice::split_first_char;
use srcinfo_parser::slice::split_last_char;
use srcinfo_parser::text::char_is_whitespace;
use srcinfo_parser::text::non_blank_trimmed_lines;
use srcinfo_parser::text::parse_line;
use srcinfo_parser::text::str_eq;
use srcinfo_parser::text::trim_whitespace;
use srcinfo_parser::text::Lines;

fn collect(mut lines: Lines<'_>) -> Vec<&str> {
    let mut all = Vec::new();
    while let Some(line) = lines.next() {
        all.push(line.trimmed);
    }
    all
}

fn collect_raw(mut lines: Lines<'_>) -> Vec<&str> {
    let mut all = Vec::new();
    while let Some(line) = lines.next() {
        all.push(line.raw);
    }
    all
}

const SAMPLES: [&str; 16] = [
    "",
    " ",
    "a",
    "  a  ",
    "\ta b\t",
    "\r\n",
    "a\r",
    "\u{a0}x\u{a0}",
    "\u{2003}wide\u{3000}",
    "\u{1680}\u{2028}\u{2029}\u{202f}\u{205f}\u{85}x",
    "é",
    " é ",
    "日本語 ",
    " 🦀🦀 ",
    "\u{200b}zero width stays\u{200b}",
    "x\u{feff}",
];

#[test]
fn white_space_is_the_unicode_property() {
    for code in 0u32..=0x10ffff {
        if let Some(c) = char::from_u32(code) {
            assert_eq!(char_is_whitespace(c), c.is_whitespace(), "U+{:04X}", code);
        }
    }
}

#[test]
fn char_width_is_the_length_of_the_encoding() {
    for code in 0u32..=0x10ffff {
        if let Some(c) = char::from_u32(code) {
            assert_eq!(char_width(c), c.len_utf8(), "U+{:04X}", code);
        }
    }
}

#[test]
fn trimming_removes_white_space_at_both_ends() {
    assert_eq!(trim_whitespace("  key  "), "key");
    assert_eq!(trim_whitespace("\t a b \r"), "a b");
    assert_eq!(trim_whitespace("   "), "");
    assert_eq!(trim_whitespace(""), "");
    assert_eq!(trim_whitespace("x"), "x");
    for sample in SAMPLES {
        assert_eq!(trim_whitespace(sample), sample.trim(), "{:?}", sample);
    }
}

#[test]
fn trimming_gives_a_slice_of_the_input() {
    let text = String::from("  inner text \t");
    let trimmed = trim_whitespace(&text);
    assert_eq!(trimmed.as_ptr() as usize, text.as_ptr() as usize + 2);
    assert_eq!(trimmed.len(), "inner text".len());
}

#[test]
fn first_and_last_character_split_off() {
    assert_eq!(split_first_char(""), None);
    assert_eq!(split_last_char(""), None);
    assert_eq!(split_first_char("a"), Some(('a', "")));
    assert_eq!(split_last_char("a"), Some(("", 'a')));
    assert_eq!(split_first_char("éa"), Some(('é', "a")));
    assert_eq!(split_last_char("aé"), Some(("a", 'é')));
    assert_eq!(split_first_char("日本"), Some(('日', "本")));
    assert_eq!(split_last_char("日本"), Some(("日", '本')));
    assert_eq!(split_first_char("🦀x"), Some(('🦀', "x")));
    assert_eq!(split_last_char("x🦀"), Some(("x", '🦀')));
    for sample in SAMPLES {
        let mut chars = sample.chars();
        let first = chars.next();
        assert_eq!(split_first_char(sample), first.map(|c| (c, chars.as_str())));
        let mut chars = sample.chars();
        let last = chars.next_back();
        assert_eq!(split_last_char(sample), last.map(|c| (chars.as_str(), c)));
    }
}

#[test]
fn line_splits_at_its_first_delimiter_only() {
    assert_eq!(parse_line("cfg=foo=bar"), Some(("cfg", "foo=bar")));
    assert_eq!(parse_line("clé=värde=日本"), Some(("clé", "värde=日本")));
    assert_eq!(parse_line("=x"), Some(("", "x")));
    assert_eq!(parse_line("x="), Some(("x", "")));
    for sample in ["a=b", "==", "é=é", "no delimiter", "日=本=語", "=\u{a0}", " k = v = w "] {
        let expected = sample.split_once('=').map(|(key, value)| (key.trim(), value.trim()));
        assert_eq!(parse_line(sample), expected, "{:?}", sample);
    }
}

#[test]
fn lines_are_trimmed_and_blank_lines_left_out() {
    let text = "  first  \n\n\t\nsecond\r\n   \r\nthird";
    assert_eq!(collect(non_blank_trimmed_lines(text)), vec!["first", "second", "third"]);
    assert_eq!(collect(non_blank_trimmed_lines("")), Vec::<&str>::new());
    assert_eq!(collect(non_blank_trimmed_lines("\n\n\n")), Vec::<&str>::new());
    assert_eq!(collect(non_blank_trimmed_lines("one")), vec!["one"]);
    assert_eq!(collect(non_blank_trimmed_lines("one\n")), vec!["one"]);
    assert_eq!(collect(non_blank_trimmed_lines("\none")), vec!["one"]);
}

#[test]
fn lines_keep_their_raw_text() {
    let text = "  first  \n\n\t\nsecond\r\n   \r\n\tthird";
    assert_eq!(collect_raw(non_blank_trimmed_lines(text)), vec!["  first  ", "second", "\tthird"]);
    let mut lines = non_blank_trimmed_lines(text);
    while let Some(line) = lines.next() {
        assert_eq!(line.trimmed, line.raw.trim());
        assert!(!line.trimmed.is_empty());
    }
}

#[test]
fn raw_lines_agree_with_the_lines_of_std() {
    let texts = [
        "a = 1\nb = 2\n",
        " a = 1 \r\n\tb = 2\r\n",
        "a\r\r\nb\r",
        "\r\nx\r\n",
        "no newline at the end",
        "carriage return alone\rstays\n",
    ];
    for text in texts {
        let expected: Vec<&str> = text.lines().filter(|line| !line.trim().is_empty()).collect();
        assert_eq!(collect_raw(non_blank_trimmed_lines(text)), expected, "{:?}", text);
    }
}

#[test]
fn lines_agree_with_the_lines_of_std() {
    let texts = [
        "a = 1\nb = 2\n",
        "a = 1\r\nb = 2\r\n",
        "\u{a0}a\u{a0}\n\u{2003}\n日本語\n\n",
        "no newline at the end",
        "trailing carriage return\r",
        "x\n\r\ny\n \n z ",
    ];
    for text in texts {
        let expected: Vec<&str> =
            text.lines().map(|line| line.trim()).filter(|line| !line.is_empty()).collect();
        assert_eq!(collect(non_blank_trimmed_lines(text)), expected, "{:?}", text);
    }
}

#[test]
fn lines_can_be_read_again_from_a_copy() {
    let mut lines = non_blank_trimmed_lines("a\nb\nc\n");
    assert_eq!(lines.next().map(|line| line.trimmed), Some("a"));
    let copy = lines;
    assert_eq!(collect(lines), vec!["b", "c"]);
    assert_eq!(collect(copy), vec!["b", "c"]);
}

#[test]
fn lines_stay_at_their_end() {
    let mut lines = non_blank_trimmed_lines("a\n");
    assert_eq!(lines.next().map(|line| line.raw), Some("a"));
    assert!(lines.next().is_none());
    assert!(lines.next().is_none());
}

#[test]
fn line_splits_into_key_and_value() {
    assert_eq!(parse_line("pkgver = 1.0"), Some(("pkgver", "1.0")));
    assert_eq!(parse_line("pkgver=1.0"), Some(("pkgver", "1.0")));
    assert_eq!(parse_line("  pkgver \t=\t 1.0  "), Some(("pkgver", "1.0")));
    assert_eq!(parse_line("source = a=b"), Some(("source", "a=b")));
    assert_eq!(parse_line("key ="), Some(("key", "")));
    assert_eq!(parse_line("= value"), Some(("", "value")));
    assert_eq!(parse_line("="), Some(("", "")));
    assert_eq!(parse_line("pkgdesc = two  words"), Some(("pkgdesc", "two  words")));
}

#[test]
fn line_without_delimiter_does_not_split() {
    assert_eq!(parse_line("no delimiter here"), None);
    assert_eq!(parse_line(""), None);
    assert_eq!(parse_line("pkgver : 1"), None);
}

#[test]
fn texts_compare_by_their_characters() {
    assert!(str_eq("", ""));
    assert!(str_eq("pkgver", "pkgver"));
    assert!(!str_eq("pkgver", "pkgrel"));
    assert!(!str_eq("pkgver", "pkgve"));
    assert!(!str_eq("pkgver", "PKGVER"));
    assert!(str_eq("日本語", "日本語"));
    assert!(!str_eq("日本語", "日本誤"));
}
