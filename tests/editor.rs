use voxide::launch::{editor_argv, push_candidate, search_path, LaunchError};
use voxide::text::white_space;
use voxide::transforms::{LineNumber, TransformsApplicator};

fn strs(v: &[&str]) -> Vec<String> {
    v.iter().map(|s| s.to_string()).collect()
}

#[test]
fn search_path_order() {
    assert_eq!(search_path(Some("/c"), Some("/s"), Some("/usr/bin:/bin")), "/c:/s:/usr/bin:/bin");
    assert_eq!(search_path(None, Some("/s"), Some("")), "/s");
    assert_eq!(search_path(Some("/c"), None, None), "/c");
    assert_eq!(search_path(None, None, Some("/bin")), "/bin");
    assert_eq!(search_path(None, None, None), "");
}

#[test]
fn editor_without_transforms() {
    let argv = editor_argv("nvim  -q\t", &strs(&["/tmp/qf"]), None).unwrap();
    assert_eq!(argv, strs(&["nvim", "-q", "/tmp/qf"]));
    assert!(matches!(editor_argv(" \u{3000} ", &vec![], None), Err(LaunchError::EmptyCmd)));
}

#[test]
fn editor_with_line_numbers() {
    let r = vec![("(?P<lineno>\\d+):(?P<f>.+)".to_string(), "${f}".to_string())];
    let ta = TransformsApplicator::new(&r, String::new(), None);
    let argv = editor_argv("nvim", &strs(&["42:/no/such/a", "/no/such/b"]), Some(&ta)).unwrap();
    assert_eq!(argv, strs(&["nvim", "/no/such/a", "+42", "/no/such/b"]));
    let bad = vec![("(".to_string(), String::new())];
    let ta = TransformsApplicator::new(&bad, String::new(), None);
    assert!(matches!(editor_argv("nvim", &strs(&["x"]), Some(&ta)), Err(LaunchError::Transform(_))));
}

#[test]
fn candidate_arguments() {
    let mut out = vec![];
    push_candidate(&mut out, Some(LineNumber(1207)), "f".to_string());
    push_candidate(&mut out, Some(LineNumber(0)), "g".to_string());
    push_candidate(&mut out, None, "h".to_string());
    assert_eq!(out, strs(&["f", "+1207", "g", "+0", "h"]));
}

#[test]
fn white_space_matches_std() {
    for c in ['\t', '\n', ' ', '\u{85}', '\u{a0}', '\u{2003}', '\u{3000}', 'a', '_', '\u{200b}'] {
        assert_eq!(white_space(c), c.is_whitespace());
    }
}
