use palantir::text::{
    blank, chars_of, contains, ends_with, is_text, matches_at, next_field, next_line,
    split_fields, starts_with, string_of, strip_trailing_len, trim_bounds, trim_end_index,
    trim_start_index, LineCursor,
};

fn chars(s: &str) -> Vec<char> {
    s.chars().collect()
}

fn words(s: &str, unicode: bool) -> Vec<String> {
    let c = chars(s);
    split_fields(&c, unicode)
        .into_iter()
        .map(|(from, to)| c[from..to].iter().collect())
        .collect()
}

fn all_lines(s: &str) -> Vec<String> {
    let c = chars(s);
    let mut cursor = LineCursor::new(&c);
    let mut out = Vec::new();
    while let Some(line) = cursor.next() {
        out.push(line.iter().collect());
    }
    out
}

#[test]
fn chars_of_keeps_every_character() {
    assert_eq!(chars_of("a\u{e9}\u{4e2d}z"), vec!['a', '\u{e9}', '\u{4e2d}', 'z']);
    assert_eq!(chars_of(""), Vec::<char>::new());
}

#[test]
fn string_of_takes_a_range() {
    let c = chars("hello world");
    assert_eq!(string_of(&c, 6, 11), "world");
    assert_eq!(string_of(&c, 3, 3), "");
}

#[test]
fn blank_knows_both_conventions() {
    for c in [' ', '\t', '\n', '\x0C', '\r'] {
        assert!(blank(c, false));
        assert!(blank(c, true));
    }
    assert!(!blank('\x0B', false));
    assert!(blank('\x0B', true));
    assert!(!blank('\u{a0}', false));
    assert!(blank('\u{a0}', true));
    assert!(blank('\u{2003}', true));
    assert!(blank('\u{3000}', true));
    assert!(!blank('a', true));
    assert!(!blank('\u{200b}', true));
}

#[test]
fn blank_agrees_with_the_standard_library() {
    for code in 0u32..0x3100 {
        if let Some(c) = char::from_u32(code) {
            assert_eq!(blank(c, true), c.is_whitespace(), "U+{:04X}", code);
            assert_eq!(blank(c, false), c.is_ascii_whitespace(), "U+{:04X}", code);
        }
    }
}

#[test]
fn fields_are_runs_between_whitespace() {
    assert_eq!(words("  a  bc\td \n", false), vec!["a", "bc", "d"]);
    assert_eq!(words("", false), Vec::<String>::new());
    assert_eq!(words(" \t ", false), Vec::<String>::new());
    assert_eq!(words("one", false), vec!["one"]);
}

#[test]
fn fields_split_on_unicode_whitespace_only_when_asked() {
    assert_eq!(words("a\u{a0}b", false), vec!["a\u{a0}b"]);
    assert_eq!(words("a\u{a0}b", true), vec!["a", "b"]);
    assert_eq!(words("a\x0Bb", false), vec!["a\x0Bb"]);
    assert_eq!(words("a\x0Bb", true), vec!["a", "b"]);
}

#[test]
fn fields_agree_with_the_standard_library() {
    for s in ["", " ", "a", " a b ", "x\ty\r\nz", "  lead", "trail  ", "a\u{2003}b c"] {
        let ascii: Vec<String> = s.split_ascii_whitespace().map(String::from).collect();
        let unicode: Vec<String> = s.split_whitespace().map(String::from).collect();
        assert_eq!(words(s, false), ascii, "{:?}", s);
        assert_eq!(words(s, true), unicode, "{:?}", s);
    }
}

#[test]
fn next_field_reports_bounds() {
    let c = chars("  ab cd");
    assert_eq!(next_field(&c, 0, false), Some((2, 4)));
    assert_eq!(next_field(&c, 4, false), Some((5, 7)));
    assert_eq!(next_field(&c, 7, false), None);
    assert_eq!(next_field(&chars("   "), 0, false), None);
}

#[test]
fn lines_end_at_line_feeds() {
    assert_eq!(all_lines("a\nb\n"), vec!["a", "b"]);
    assert_eq!(all_lines("a\nb"), vec!["a", "b"]);
    assert_eq!(all_lines(""), Vec::<String>::new());
    assert_eq!(all_lines("\n"), vec![""]);
    assert_eq!(all_lines("a\n\nb"), vec!["a", "", "b"]);
}

#[test]
fn lines_drop_a_carriage_return_before_the_line_feed() {
    assert_eq!(all_lines("a\r\nb\r\n"), vec!["a", "b"]);
    assert_eq!(all_lines("a\rb\n"), vec!["a\rb"]);
    assert_eq!(all_lines("a\r"), vec!["a\r"]);
    assert_eq!(all_lines("\r\n"), vec![""]);
}

#[test]
fn lines_agree_with_the_standard_library() {
    for s in ["", "\n", "a", "a\n", "a\r\n", "a\n\n", "x\r\ny\rz\n", "\r", "one\ntwo\r\nthree"] {
        let expected: Vec<String> = s.lines().map(String::from).collect();
        assert_eq!(all_lines(s), expected, "{:?}", s);
    }
}

#[test]
fn next_line_reports_stop_and_next_start() {
    let c = chars("ab\r\ncd");
    assert_eq!(next_line(&c, 0), (2, 4));
    assert_eq!(next_line(&c, 4), (6, 6));
}

#[test]
fn matching_literals() {
    let c = chars("/dev/loop0 on fuse");
    assert!(starts_with(&c, &chars("/")));
    assert!(starts_with(&c, &chars("")));
    assert!(!starts_with(&c, &chars("dev")));
    assert!(ends_with(&c, &chars("fuse")));
    assert!(!ends_with(&c, &chars("fus")));
    assert!(contains(&c, &chars("/dev/loop")));
    assert!(contains(&c, &chars("fuse")));
    assert!(contains(&c, &chars("")));
    assert!(!contains(&c, &chars("loop1")));
    assert!(!contains(&chars("ab"), &chars("abc")));
    assert!(matches_at(&c, 5, &chars("loop")));
    assert!(!matches_at(&c, 6, &chars("loop")));
    assert!(!matches_at(&c, 17, &chars("see")));
    assert!(is_text(&chars("size"), "size"));
    assert!(!is_text(&chars("sizes"), "size"));
    assert!(!is_text(&chars("siz"), "size"));
}

#[test]
fn trimming_drops_unicode_whitespace_at_both_ends() {
    let c = chars(" \t\u{a0}x y \n");
    let (from, to) = trim_bounds(&c);
    assert_eq!(string_of(&c, from, to), "x y");
    let blank_only = chars(" \n ");
    let (from, to) = trim_bounds(&blank_only);
    assert_eq!(from, to);
    assert_eq!(trim_start_index(&chars("  ab"), true), 2);
    assert_eq!(trim_end_index(&chars("ab  "), 0, true), 2);
    assert_eq!(trim_start_index(&chars("\u{a0}ab"), false), 0);
}

#[test]
fn trimming_agrees_with_the_standard_library() {
    for s in ["", " ", "a", " a ", "\n\ta b\r\n", "\u{2003}x\u{a0}", "x  "] {
        let c = chars(s);
        let (from, to) = trim_bounds(&c);
        assert_eq!(string_of(&c, from, to), s.trim(), "{:?}", s);
        let start = trim_start_index(&c, true);
        assert_eq!(string_of(&c, start, c.len()), s.trim_start(), "{:?}", s);
    }
}

#[test]
fn stripping_repeated_suffixes() {
    assert_eq!(strip_trailing_len(&chars("eth0::"), &chars(":")), 4);
    assert_eq!(strip_trailing_len(&chars("eth0"), &chars(":")), 4);
    assert_eq!(strip_trailing_len(&chars(":::"), &chars(":")), 0);
    assert_eq!(strip_trailing_len(&chars("temp1_input"), &chars("_input")), 5);
    assert_eq!(strip_trailing_len(&chars("a_input_input"), &chars("_input")), 1);
    assert_eq!(strip_trailing_len(&chars("abc"), &chars("")), 3);
}
