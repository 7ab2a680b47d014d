use vsed::rewrite::contains_pattern;
use vsed::rewrite::output_line;
use vsed::rewrite::replace_first;
use vsed::rewrite::rewrite_all;
use vsed::rewrite::Rewriter;
use vsed::rewrite::RwAction;
use vsed::rewrite::RwState;
use vsed::VimSearch;

fn spec(raw: &str) -> VimSearch {
    VimSearch::new(raw.to_string()).unwrap()
}

#[test]
fn contains_is_literal_substring_containment() {
    assert!(contains_pattern("hello foo", "foo"));
    assert!(!contains_pattern("no match here", "foo"));
    assert!(contains_pattern("f.o", "f.o"));
    assert!(!contains_pattern("fxo", "f.o"));
}

#[test]
fn replace_substitutes_only_the_first_occurrence() {
    assert_eq!(replace_first("foo again foo", "foo", "bar"), "bar again foo");
    assert_eq!(replace_first("aaa", "a", "b"), "baa");
}

#[test]
fn replace_without_match_returns_the_line() {
    assert_eq!(replace_first("abc", "zz", "y"), "abc");
}

#[test]
fn replace_with_empty_pattern_inserts_at_front() {
    assert_eq!(replace_first("abc", "", "X"), "Xabc");
}

#[test]
fn unmatched_line_passes_through_whatever_the_decision() {
    assert_eq!(output_line("foo", "bar", "no match here", true), "no match here");
    assert_eq!(output_line("foo", "bar", "no match here", false), "no match here");
}

#[test]
fn matched_line_follows_the_decision() {
    assert_eq!(output_line("foo", "bar", "hello foo", true), "hello bar");
    assert_eq!(output_line("foo", "bar", "hello foo", false), "hello foo");
}

#[test]
fn rewriter_runs_the_interactive_scenario() {
    let s = spec("s/foo/bar/g");
    let mut rw = Rewriter::new(&s);
    let mut staged: Vec<String> = Vec::new();

    match rw.on_line("hello foo") {
        RwAction::Prompt { candidate } => assert_eq!(candidate, "hello bar"),
        other => panic!("expected a prompt, got {:?}", other),
    }
    match rw.on_answer("y") {
        RwAction::Stage { text } => staged.push(text),
        other => panic!("expected a staged line, got {:?}", other),
    }

    match rw.on_line("no match here") {
        RwAction::Stage { text } => staged.push(text),
        other => panic!("expected a staged line without a prompt, got {:?}", other),
    }

    match rw.on_line("foo again foo") {
        RwAction::Prompt { candidate } => assert_eq!(candidate, "bar again foo"),
        other => panic!("expected a prompt, got {:?}", other),
    }
    match rw.on_answer("n") {
        RwAction::Stage { text } => staged.push(text),
        other => panic!("expected a staged line, got {:?}", other),
    }

    assert!(matches!(rw.on_eof(), RwAction::Commit));
    rw.on_commit_ok();
    assert!(matches!(rw.state, RwState::Committed));

    assert_eq!(
        staged,
        vec![
            "hello bar".to_string(),
            "no match here".to_string(),
            "foo again foo".to_string(),
        ]
    );
}

#[test]
fn rewriter_reprompts_on_invalid_answer() {
    let s = spec("s/foo/bar/g");
    let mut rw = Rewriter::new(&s);
    match rw.on_line("a foo b") {
        RwAction::Prompt { candidate } => assert_eq!(candidate, "a bar b"),
        other => panic!("expected a prompt, got {:?}", other),
    }
    match rw.on_answer("maybe") {
        RwAction::Prompt { candidate } => assert_eq!(candidate, "a bar b"),
        other => panic!("expected a re-prompt, got {:?}", other),
    }
    assert!(matches!(rw.state, RwState::AwaitingDecision { .. }));
    match rw.on_answer("Y") {
        RwAction::Stage { text } => assert_eq!(text, "a bar b"),
        other => panic!("expected a staged line, got {:?}", other),
    }
    assert!(matches!(rw.state, RwState::Scanning));
}

#[test]
fn rewriter_discards_staging_on_read_error() {
    let s = spec("s/foo/bar/g");
    let mut rw = Rewriter::new(&s);
    match rw.on_line("no match here") {
        RwAction::Stage { text } => assert_eq!(text, "no match here"),
        other => panic!("expected a staged line, got {:?}", other),
    }
    let action = rw.on_read_error();
    assert!(matches!(action, RwAction::Discard));
    assert!(matches!(rw.state, RwState::Aborted));
}

#[test]
fn rewriter_aborts_on_commit_failure() {
    let s = spec("s/foo/bar/g");
    let mut rw = Rewriter::new(&s);
    assert!(matches!(rw.on_eof(), RwAction::Commit));
    rw.on_commit_error();
    assert!(matches!(rw.state, RwState::Aborted));
}

#[test]
fn rewrite_all_runs_the_scenario_headlessly() {
    let s = spec("s/foo/bar/g");
    let lines = vec![
        "hello foo".to_string(),
        "no match here".to_string(),
        "foo again foo".to_string(),
    ];
    let accepts = vec![true, false, false];
    let out = rewrite_all(&s, &lines, &accepts);
    assert_eq!(
        out,
        vec![
            "hello bar".to_string(),
            "no match here".to_string(),
            "foo again foo".to_string(),
        ]
    );
}

#[test]
fn rejecting_everything_twice_changes_nothing() {
    let s = spec("s/foo/bar/g");
    let lines = vec![
        "hello foo".to_string(),
        "no match here".to_string(),
        "foo again foo".to_string(),
    ];
    let reject_all = vec![false, false, false];
    let once = rewrite_all(&s, &lines, &reject_all);
    assert_eq!(once, lines);
    let twice = rewrite_all(&s, &once, &reject_all);
    assert_eq!(twice, lines);
}

#[test]
fn first_run_trims_second_run_is_identity() {
    let s = spec("s/foo/bar/g");
    let lines = vec!["  hello foo  ".to_string(), " plain ".to_string()];
    let reject_all = vec![false, false];
    let once = rewrite_all(&s, &lines, &reject_all);
    assert_eq!(once, vec!["hello foo".to_string(), "plain".to_string()]);
    let twice = rewrite_all(&s, &once, &reject_all);
    assert_eq!(twice, once);
}

#[test]
fn options_carry_the_run_configuration() {
    let o = vsed::Options {
        pattern: "s/foo/bar/g".to_string(),
        replacement: String::new(),
        paths: vec!["a.txt".to_string(), "b.txt".to_string()],
        dry_run: false,
        context: 3,
    };
    assert_eq!(o.paths.len(), 2);
    assert!(!o.dry_run);
    assert_eq!(o.context, 3);
}
