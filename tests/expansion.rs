use voxide::placeholders::process_replacement_string;

#[test]
fn escaped_placeholder_stays_literal() {
    assert_eq!(process_replacement_string("\\${gitroot}/x", "/repo", Some("/home/u")), "${gitroot}/x");
    assert_eq!(process_replacement_string("\\${home}", "/repo", Some("/home/u")), "${home}");
}

#[test]
fn gitroot_dollar_is_escaped_and_not_expanded_again() {
    assert_eq!(process_replacement_string("${gitroot}", "/a$b", None), "/a\\$b");
    assert_eq!(process_replacement_string("${gitroot}/x", "/r/${home}", Some("/h")), "/r/\\${home}/x");
    assert_eq!(process_replacement_string("${gitroot}", "C:\\r", None), "C:\\\\r");
}

#[test]
fn placeholders_expand() {
    assert_eq!(process_replacement_string("${gitroot}/${f}", "/repo", None), "/repo/${f}");
    assert_eq!(process_replacement_string("${home}/.cfg", "/repo", Some("/home/u")), "/home/u/.cfg");
    assert_eq!(process_replacement_string("${home}/.cfg", "/repo", None), "/.cfg");
}

#[test]
fn other_text_passes_through() {
    assert_eq!(process_replacement_string("${other}", "/repo", None), "${other}");
    assert_eq!(process_replacement_string("\\$1 $ \\ ${", "/repo", None), "\\$1 $ \\ ${");
    assert_eq!(process_replacement_string("", "/repo", None), "");
    assert_eq!(process_replacement_string("\\${open", "/repo", None), "${open");
}
