use vsed::SpecParseError;
use vsed::VimSearch;

#[test]
fn parses_minimum_length_spec() {
    let v = VimSearch::new("s#a#b#".to_string()).unwrap();
    assert_eq!(v.search_pattern, "a");
    assert_eq!(v.replacement, "b");
    assert_eq!(v.flags, "");
    assert_eq!(v.delimiter, '#');
    assert_eq!(v.string, "s#a#b#");
}

#[test]
fn length_five_fails_with_length_error() {
    let r = VimSearch::new("s#a#b".to_string());
    assert!(matches!(r, Err(SpecParseError::TooShort)));
}

#[test]
fn missing_leading_s_is_rejected() {
    let r = VimSearch::new("x/a/b/c".to_string());
    assert!(matches!(r, Err(SpecParseError::MissingLeadingS)));
    let empty = VimSearch::new(String::new());
    assert!(matches!(empty, Err(SpecParseError::MissingLeadingS)));
}

#[test]
fn too_few_delimiters_fail_with_count() {
    let r = VimSearch::new("s/ab/cd".to_string());
    match r {
        Err(SpecParseError::DelimiterCount { delimiter, count }) => {
            assert_eq!(delimiter, '/');
            assert_eq!(count, 2);
        }
        other => panic!("expected a delimiter-count error, got {:?}", other),
    }
}

#[test]
fn too_many_delimiters_fail_with_count() {
    let r = VimSearch::new("s/a/b/c/".to_string());
    match r {
        Err(SpecParseError::DelimiterCount { delimiter, count }) => {
            assert_eq!(delimiter, '/');
            assert_eq!(count, 4);
        }
        other => panic!("expected a delimiter-count error, got {:?}", other),
    }
}

#[test]
fn rejoining_segments_reproduces_original() {
    let raw = "s/foo/bar/g";
    let v = VimSearch::new(raw.to_string()).unwrap();
    let rejoined = format!(
        "s{d}{p}{d}{r}{d}{f}",
        d = v.delimiter,
        p = v.search_pattern,
        r = v.replacement,
        f = v.flags
    );
    assert_eq!(rejoined, raw);
}

#[test]
fn any_character_can_be_the_delimiter() {
    let v = VimSearch::new("s,foo,bar,".to_string()).unwrap();
    assert_eq!(v.delimiter, ',');
    assert_eq!(v.search_pattern, "foo");
    assert_eq!(v.replacement, "bar");
    assert_eq!(v.flags, "");
}

#[test]
fn delimiter_may_be_s_itself() {
    // "ssasb?" takes 's' as its delimiter, which then occurs three times:
    // the split is ["", "", "a", "b?"].
    let v = VimSearch::new("ssasb?".to_string()).unwrap();
    assert_eq!(v.delimiter, 's');
    assert_eq!(v.search_pattern, "");
    assert_eq!(v.replacement, "a");
    assert_eq!(v.flags, "b?");
}

#[test]
fn flags_are_parsed_and_kept() {
    let v = VimSearch::new("s/foo/bar/gi".to_string()).unwrap();
    assert_eq!(v.flags, "gi");
}

#[test]
fn get_delimeter_returns_inferred_delimiter() {
    let d = VimSearch::get_delimeter("s#a#b#").unwrap();
    assert_eq!(d, '#');
}

#[test]
fn get_delimeter_rejects_bad_count() {
    let r = VimSearch::get_delimeter("s//aaaa");
    match r {
        Err(SpecParseError::DelimiterCount { delimiter, count }) => {
            assert_eq!(delimiter, '/');
            assert_eq!(count, 2);
        }
        other => panic!("expected a delimiter-count error, got {:?}", other),
    }
}
