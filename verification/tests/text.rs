use sj_probe::text::{
    first_number_text, split_lines, starts_with_str, to_ascii_lowercase, to_chars, trim_str,
};

#[test]
fn split_lines_matches_std() {
    for s in ["", "a", "a\n", "a\nb", "a\r\nb\r\n", "\n\n", "x\r", "x\ry\n", "l1\n\nl3"] {
        let expected: Vec<String> = s.lines().map(|l| l.to_string()).collect();
        assert_eq!(split_lines(s), expected, "input {:?}", s);
    }
}

#[test]
fn trim_str_matches_std() {
    for s in ["", "  ", " a b ", "\u{3000}x\u{a0}", "\t\nq\r\n", "\u{85}z\u{2029}"] {
        assert_eq!(trim_str(s), s.trim(), "input {:?}", s);
    }
}

#[test]
fn first_number_text_skips_to_digits() {
    assert_eq!(first_number_text("MemTotal:       16318856 kB"), "16318856");
    assert_eq!(first_number_text("x 1.5.2y"), "1.5.2");
    assert_eq!(first_number_text("no digits"), "");
    assert_eq!(first_number_text(".5"), "5");
}

#[test]
fn ascii_lowercase_and_prefix() {
    assert_eq!(to_ascii_lowercase("Best Power Efficiency É"), "best power efficiency É");
    assert!(starts_with_str("model name\t: X", "model name"));
    assert!(!starts_with_str("Mod", "Model"));
    assert_eq!(to_chars("añb"), vec!['a', 'ñ', 'b']);
}
