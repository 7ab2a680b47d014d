use vsed::rewrite::parse_decision;
use vsed::rewrite::Decision;
use vsed::trim_line;

#[test]
fn trim_removes_leading_and_trailing_whitespace() {
    assert_eq!(trim_line("  hello  "), "hello");
    assert_eq!(trim_line("\t x \n"), "x");
    assert_eq!(trim_line("abc"), "abc");
}

#[test]
fn trim_of_blank_line_is_empty() {
    assert_eq!(trim_line("   "), "");
    assert_eq!(trim_line(""), "");
    assert_eq!(trim_line("\t\n"), "");
}

#[test]
fn trim_keeps_inner_whitespace() {
    assert_eq!(trim_line("  a b  c "), "a b  c");
}

#[test]
fn trim_uses_unicode_whitespace() {
    // U+00A0 (no-break space) has the Unicode White_Space property.
    assert_eq!(trim_line("\u{00A0}x\u{00A0}"), "x");
}

#[test]
fn decision_accepts_y_case_insensitively() {
    assert_eq!(parse_decision("y"), Decision::Accept);
    assert_eq!(parse_decision("Y"), Decision::Accept);
    assert_eq!(parse_decision(" y\n"), Decision::Accept);
}

#[test]
fn decision_rejects_n_case_insensitively() {
    assert_eq!(parse_decision("n"), Decision::Reject);
    assert_eq!(parse_decision("N"), Decision::Reject);
    assert_eq!(parse_decision("\tn "), Decision::Reject);
}

#[test]
fn decision_everything_else_is_invalid() {
    assert_eq!(parse_decision(""), Decision::Invalid);
    assert_eq!(parse_decision("yes"), Decision::Invalid);
    assert_eq!(parse_decision("x"), Decision::Invalid);
    assert_eq!(parse_decision("yn"), Decision::Invalid);
    assert_eq!(parse_decision("  "), Decision::Invalid);
}
