use voxide::transforms::{parse_usize, LineNumber, TransformError, TransformsApplicator};

fn rules(pairs: &[(&str, &str)]) -> Vec<(String, String)> {
    pairs.iter().map(|(a, b)| (a.to_string(), b.to_string())).collect()
}

#[test]
fn line_number_is_captured() {
    let r = rules(&[("(?P<lineno>\\d+):(?P<f>.+)", "${f}")]);
    let ta = TransformsApplicator::new(&r, "/repo".to_string(), None);
    let (lineno, path) = ta.apply_transforms("42:foo.txt").unwrap();
    assert_eq!(lineno, Some(LineNumber(42)));
    assert_eq!(path, "foo.txt");
}

#[test]
fn existing_path_short_circuits() {
    let file = tempfile::NamedTempFile::new().unwrap();
    let existing = file.path().to_str().unwrap().to_string();
    let r = rules(&[(".*", "SHOULD_NOT_APPEAR")]);
    let ta = TransformsApplicator::new(&r, "/repo".to_string(), None);
    let (lineno, path) = ta.apply_transforms(&existing).unwrap();
    assert_eq!(lineno, None);
    assert_eq!(path, existing);
}

#[test]
fn rules_apply_in_order_with_placeholders() {
    let r = rules(&[
        ("^(?P<f>[^:]+):(?P<lineno>\\d+):.*$", "${f}"),
        ("^", "${gitroot}/"),
    ]);
    let ta = TransformsApplicator::new(&r, "/no/such/repo".to_string(), None);
    let (lineno, path) = ta.apply_transforms("src/x.rs:7:fn main").unwrap();
    assert_eq!(lineno, Some(LineNumber(7)));
    assert_eq!(path, "/no/such/repo/src/x.rs");
}

#[test]
fn invalid_pattern_is_an_error() {
    let r = rules(&[("(unclosed", "x")]);
    let ta = TransformsApplicator::new(&r, String::new(), None);
    match ta.apply_transforms("/no/such/file") {
        Err(TransformError::InvalidPattern(p)) => assert_eq!(p, "(unclosed"),
        other => panic!("unexpected {other:?}"),
    }
}

#[test]
fn unreadable_line_number_is_dropped() {
    let r = rules(&[("(?P<lineno>\\d+):(?P<f>.+)", "${f}")]);
    let ta = TransformsApplicator::new(&r, String::new(), None);
    let (lineno, path) = ta.apply_transforms("\u{663}:foo").unwrap();
    assert_eq!(lineno, None);
    assert_eq!(path, "foo");
}

#[test]
fn no_rules_leave_the_candidate() {
    let r = rules(&[]);
    let ta = TransformsApplicator::new(&r, String::new(), None);
    assert_eq!(ta.apply_transforms("a:1").unwrap(), (None, "a:1".to_string()));
}

#[test]
fn decimal_parsing() {
    assert_eq!(parse_usize("42"), Some(42));
    assert_eq!(parse_usize("+7"), Some(7));
    assert_eq!(parse_usize("007"), Some(7));
    assert_eq!(parse_usize(""), None);
    assert_eq!(parse_usize("+"), None);
    assert_eq!(parse_usize("-1"), None);
    assert_eq!(parse_usize("12a"), None);
    assert_eq!(parse_usize(&usize::MAX.to_string()), Some(usize::MAX));
    assert_eq!(parse_usize("99999999999999999999999"), None);
}

#[test]
fn step_stops_on_an_existing_text() {
    let r = rules(&[("a", "b")]);
    let ta = TransformsApplicator::new(&r, String::new(), None);
    assert!(matches!(ta.step(0, true, Some(3), "aXa"), Ok(None)));
    match ta.step(0, false, Some(3), "aXa") {
        Ok(Some((lineno, text))) => {
            assert_eq!(lineno, Some(3));
            assert_eq!(text, "bXb");
        }
        other => panic!("unexpected {other:?}"),
    }
    let bad = rules(&[("(", "x")]);
    let ta = TransformsApplicator::new(&bad, String::new(), None);
    assert!(matches!(ta.step(0, true, None, "x"), Ok(None)));
    assert!(matches!(ta.step(0, false, None, "x"), Err(TransformError::InvalidPattern(_))));
}

#[test]
fn chained_rules_rewrite_in_order() {
    let r = rules(&[("^x", "y"), ("^y", "z")]);
    let ta = TransformsApplicator::new(&r, String::new(), None);
    assert_eq!(ta.apply_transforms("xq").unwrap(), (None, "zq".to_string()));
}

#[test]
fn error_message_names_the_pattern() {
    let e = TransformError::InvalidPattern("(x".to_string());
    assert_eq!(e.message(), "invalid transform pattern: (x");
}

#[test]
fn unreadable_line_number_keeps_the_earlier_one() {
    let r = rules(&[("(?P<lineno>\\w+):", "")]);
    let ta = TransformsApplicator::new(&r, String::new(), None);
    let (lineno, path) = ta.apply_transforms("5:x:foo").unwrap();
    assert_eq!(lineno, Some(LineNumber(5)));
    assert_eq!(path, "foo");
    let r = rules(&[("(?P<lineno>\\d+):", ""), ("(?P<lineno>[a-z]+)#", "")]);
    let ta = TransformsApplicator::new(&r, String::new(), None);
    let (lineno, path) = ta.apply_transforms("12:ab#foo").unwrap();
    assert_eq!(lineno, Some(LineNumber(12)));
    assert_eq!(path, "foo");
}
