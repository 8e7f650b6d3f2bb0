use movcat::error::MovcatError;
use movcat::resolve::{expand_glob_patterns, expand_token, is_glob_pattern, GlobMatch};

fn literal() -> Vec<GlobMatch> {
    vec![]
}

fn file(p: &str) -> GlobMatch {
    GlobMatch { path: p.to_string(), is_file: true }
}

#[test]
fn test_expand_glob_patterns_no_wildcards() {
    let patterns = vec!["file1.mov".to_string(), "file2.mov".to_string()];
    let result = expand_glob_patterns(&patterns, &vec![literal(), literal()]);
    assert!(result.is_ok());
    let files = result.unwrap();
    assert_eq!(files.len(), 2);
    assert_eq!(files[0], "file1.mov".to_string());
    assert_eq!(files[1], "file2.mov".to_string());
}

#[test]
fn test_expand_glob_patterns_empty() {
    let patterns: Vec<String> = vec![];
    let result = expand_glob_patterns(&patterns, &vec![]);
    assert!(result.is_err());
    assert_eq!(result.unwrap_err(), MovcatError::NoInput);
}

#[test]
fn test_expand_glob_patterns_nonexistent_pattern() {
    let patterns = vec!["nonexistent_*.mov".to_string()];
    let result = expand_glob_patterns(&patterns, &vec![vec![]]);
    assert!(result.is_err());
    assert_eq!(
        result.unwrap_err(),
        MovcatError::NoMatch { pattern: "nonexistent_*.mov".to_string() }
    );
}

#[test]
fn literal_tokens_keep_caller_order() {
    let patterns = vec!["b.mov".to_string(), "a.mov".to_string()];
    let files = expand_glob_patterns(&patterns, &vec![literal(), literal()]).unwrap();
    assert_eq!(files, vec!["b.mov".to_string(), "a.mov".to_string()]);
}

#[test]
fn glob_matches_sorted_as_strings() {
    let patterns = vec!["seg_*.mov".to_string()];
    let exp = vec![file("seg_2.mov"), file("seg_1.mov"), file("seg_10.mov")];
    let files = expand_glob_patterns(&patterns, &vec![exp]).unwrap();
    assert_eq!(
        files,
        vec!["seg_1.mov".to_string(), "seg_10.mov".to_string(), "seg_2.mov".to_string()]
    );
}

#[test]
fn glob_sorting_ignores_enumeration_order() {
    let a = vec![file("c.mov"), file("a.mov"), file("b.mov")];
    let b = vec![file("b.mov"), file("c.mov"), file("a.mov")];
    let tok = "*.mov".to_string();
    assert_eq!(expand_token(&tok, &None, &a).unwrap(), expand_token(&tok, &None, &b).unwrap());
}

#[test]
fn glob_skips_entries_that_are_not_files() {
    let exp = vec![GlobMatch { path: "dir.mov".to_string(), is_file: false }, file("x.mov")];
    let files = expand_token(&"*.mov".to_string(), &None, &exp).unwrap();
    assert_eq!(files, vec!["x.mov".to_string()]);
}

#[test]
fn glob_with_only_directories_matches_nothing() {
    let exp = vec![GlobMatch { path: "d".to_string(), is_file: false }];
    let r = expand_token(&"?".to_string(), &None, &exp);
    assert_eq!(r.unwrap_err(), MovcatError::NoMatch { pattern: "?".to_string() });
}

#[test]
fn invalid_pattern_is_reported() {
    let patterns = vec!["a.mov".to_string(), "[".to_string()];
    let r = expand_glob_patterns(&patterns, &vec![literal(), vec![file("[")]]);
    match r.unwrap_err() {
        MovcatError::InvalidPattern { pattern, reason } => {
            assert_eq!(pattern, "[".to_string());
            assert!(!reason.is_empty());
        }
        e => panic!("unexpected error {:?}", e),
    }
}

#[test]
fn parser_fault_is_carried_verbatim() {
    let r = expand_token(&"a[".to_string(), &Some("unclosed class".to_string()), &vec![file("a[")]);
    assert_eq!(
        r.unwrap_err(),
        MovcatError::InvalidPattern { pattern: "a[".to_string(), reason: "unclosed class".to_string() }
    );
}

#[test]
fn first_failing_token_decides() {
    let patterns = vec!["x*".to_string(), "[".to_string()];
    let r = expand_glob_patterns(&patterns, &vec![vec![], vec![]]);
    assert_eq!(r.unwrap_err(), MovcatError::NoMatch { pattern: "x*".to_string() });
}

#[test]
fn tokens_are_not_reordered_across_globs() {
    let patterns = vec!["z.mov".to_string(), "p_*.mov".to_string(), "a.mov".to_string()];
    let exps = vec![
        literal(),
        vec![file("p_b.mov"), file("p_a.mov")],
        literal(),
    ];
    let files = expand_glob_patterns(&patterns, &exps).unwrap();
    assert_eq!(
        files,
        vec![
            "z.mov".to_string(),
            "p_a.mov".to_string(),
            "p_b.mov".to_string(),
            "a.mov".to_string()
        ]
    );
}

#[test]
fn wildcard_classification() {
    assert!(is_glob_pattern(&"a*.mov".to_string()));
    assert!(is_glob_pattern(&"a?.mov".to_string()));
    assert!(is_glob_pattern(&"[ab].mov".to_string()));
    assert!(!is_glob_pattern(&"plain.mov".to_string()));
    assert!(!is_glob_pattern(&"".to_string()));
    assert!(is_glob_pattern(&"ü[ab].mov".to_string()));
    assert!(!is_glob_pattern(&"ünïcode.mov".to_string()));
}

#[test]
fn malformed_path_component_is_invalid_pattern() {
    let patterns = vec!["[/]".to_string()];
    let r = expand_glob_patterns(&patterns, &vec![vec![]]);
    assert!(matches!(r, Err(MovcatError::InvalidPattern { .. })));
}
