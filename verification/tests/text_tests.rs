use toasted::text::{
    chars_of, eq_str, find_index, first_segment_slice, lines_of, second_segment_slice,
    starts_with_str, string_of, trim_slice, trim_start_slice, CharClass,
};

fn cs(s: &str) -> Vec<char> {
    s.chars().collect()
}

fn lines(s: &str) -> Vec<String> {
    let text = chars_of(s);
    lines_of(&text).iter().map(|l| string_of(l)).collect()
}

#[test]
fn lines_match_str_lines() {
    for s in ["", "a", "a\n", "a\nb", "a\r\nb\r\n", "\n\n", "x\ry", "end\r", "é\nü\n"] {
        let expected: Vec<String> = s.lines().map(|l| l.to_string()).collect();
        assert_eq!(lines(s), expected, "{:?}", s);
    }
}

#[test]
fn trims_match_str_trims() {
    for s in ["", "  a b  ", "\t\u{3000}x\u{a0}", "   ", "\"'q'\""] {
        let t = cs(s);
        assert_eq!(string_of(trim_slice(&t, CharClass::WhiteSpace)), s.trim());
        assert_eq!(string_of(trim_slice(&t, CharClass::Exactly('"'))), s.trim_matches('"'));
        assert_eq!(string_of(trim_start_slice(&t, '"')), s.trim_start_matches('"'));
    }
}

#[test]
fn finds_and_segments() {
    let t = cs("/chalk/5.6.1/x");
    assert_eq!(find_index(&t, '/'), Some(0));
    assert_eq!(find_index(&t, '@'), None);
    let rest = trim_start_slice(&t, '/');
    assert_eq!(string_of(first_segment_slice(rest, '/')), "chalk");
    assert_eq!(second_segment_slice(rest, '/').map(string_of), Some("5.6.1".to_string()));
    assert_eq!(second_segment_slice(&cs("abc"), '/'), None);
    assert_eq!(second_segment_slice(&cs("version \"1.2\""), '"').map(string_of), Some("1.2".to_string()));
}

#[test]
fn prefixes_and_equality() {
    let t = cs("node_modules/chalk");
    assert!(starts_with_str(&t, "node_modules/"));
    assert!(!starts_with_str(&t, "node_modules/chalk/"));
    assert!(eq_str(&cs("yarn.lock"), "yarn.lock"));
    assert!(!eq_str(&cs("yarn.lock"), "yarn.loc"));
    assert_eq!(chars_of("añb"), vec!['a', 'ñ', 'b']);
}

#[test]
fn white_space_class_is_char_is_whitespace() {
    for c in (0u32..=0x10FFFF).filter_map(char::from_u32) {
        assert_eq!(
            toasted::text::in_class_exec(CharClass::WhiteSpace, c),
            c.is_whitespace(),
            "{:?}",
            c
        );
    }
}
