use std::collections::HashMap;
use voxide::config::{AppConfig, ConfigError, Mode, Script};

fn mode(name: &str) -> Mode {
    Mode {
        name: name.to_string(),
        desc: format!("{name} mode"),
        script: None,
        filter: None,
        script_uses_tempfile: None,
        cmd: None,
        quickfix_cmd: None,
        dir_cmd: None,
        quickfix: None,
    }
}

fn config(modes: Vec<(char, Mode)>, default_mode: Mode) -> AppConfig {
    let mut map = HashMap::new();
    for (c, m) in modes {
        map.insert(c as u32, m);
    }
    AppConfig { modes: map, transforms: vec![], default_mode }
}

fn script_words(s: &Option<Script>) -> Option<Vec<String>> {
    match s {
        Some(Script::Command(c)) => Some(vec![c.clone()]),
        Some(Script::CommandWithArgs(v)) => Some(v.clone()),
        None => None,
    }
}

#[test]
fn zero_letters_give_the_default_mode() {
    let mut d = mode("default");
    d.cmd = Some("nvim".to_string());
    d.script = Some(Script::Command("fd".to_string()));
    d.quickfix = Some(false);
    let cfg = config(vec![('a', mode("a"))], d);
    for letters in [None, Some("")] {
        let m = cfg.get_merged_mode(letters).unwrap();
        assert_eq!(m.name, "default");
        assert_eq!(m.cmd.as_deref(), Some("nvim"));
        assert_eq!(script_words(&m.script), Some(vec!["fd".to_string()]));
        assert_eq!(m.quickfix, Some(false));
        assert_eq!(m.dir_cmd, None);
    }
}

#[test]
fn later_letter_wins_and_default_fills_gaps() {
    let mut d = mode("default");
    d.cmd = Some("vi".to_string());
    d.dir_cmd = Some("ls".to_string());
    let mut a = mode("a");
    a.cmd = Some("A".to_string());
    a.quickfix_cmd = Some("qa".to_string());
    let mut b = mode("b");
    b.cmd = Some("B".to_string());
    let cfg = config(vec![('a', a), ('b', b)], d);
    let m = cfg.get_merged_mode(Some("ab")).unwrap();
    assert_eq!(m.cmd.as_deref(), Some("B"));
    assert_eq!(m.quickfix_cmd.as_deref(), Some("qa"));
    assert_eq!(m.dir_cmd.as_deref(), Some("ls"));
    assert_eq!(m.name, "b");
    let m = cfg.get_merged_mode(Some("ba")).unwrap();
    assert_eq!(m.cmd.as_deref(), Some("A"));
    assert_eq!(m.name, "a");
}

#[test]
fn first_setter_value_when_only_one_letter_sets_a_field() {
    let d = mode("default");
    let mut a = mode("a");
    a.filter = Some(Script::Command("sort".to_string()));
    let b = mode("b");
    let cfg = config(vec![('a', a), ('b', b)], d);
    let m = cfg.get_merged_mode(Some("ab")).unwrap();
    assert_eq!(script_words(&m.filter), Some(vec!["sort".to_string()]));
}

#[test]
fn script_flags_merge_field_by_field() {
    let mut d = mode("default");
    d.script = Some(Script::Command("default-script".to_string()));
    d.quickfix = Some(true);
    d.script_uses_tempfile = Some(true);
    let mut a = mode("a");
    a.script = Some(Script::CommandWithArgs(vec!["bash".to_string(), "-c".to_string()]));
    a.quickfix = Some(false);
    let cfg = config(vec![('a', a)], d);
    let m = cfg.get_merged_mode(Some("a")).unwrap();
    assert_eq!(script_words(&m.script), Some(vec!["bash".to_string(), "-c".to_string()]));
    assert_eq!(m.quickfix, Some(false));
    assert_eq!(m.script_uses_tempfile, Some(true));
}

#[test]
fn unset_flag_falls_back_to_the_default() {
    let mut d = mode("default");
    d.quickfix = Some(true);
    let mut a = mode("a");
    a.script = Some(Script::Command("finder".to_string()));
    let cfg = config(vec![('a', a)], d);
    let m = cfg.get_merged_mode(Some("a")).unwrap();
    assert_eq!(m.quickfix, Some(true));
    assert_eq!(script_words(&m.script), Some(vec!["finder".to_string()]));
}

#[test]
fn unknown_letter_is_reported() {
    let cfg = config(vec![('a', mode("a"))], mode("default"));
    assert_eq!(cfg.get_merged_mode(Some("axy")).unwrap_err(), ConfigError::ModeNotFound('x'));
    assert_eq!(cfg.get_mode('q').unwrap_err(), ConfigError::ModeNotFound('q'));
    assert_eq!(cfg.get_mode('a').unwrap().name, "a");
}

#[test]
fn reverse_merge_keeps_set_fields() {
    let mut a = mode("a");
    a.cmd = Some("mine".to_string());
    let mut b = mode("b");
    b.cmd = Some("theirs".to_string());
    b.dir_cmd = Some("dir".to_string());
    b.quickfix = Some(true);
    b.script = Some(Script::Command("s".to_string()));
    a.quickfix = Some(false);
    a.reverse_merge(&b);
    assert_eq!(a.cmd.as_deref(), Some("mine"));
    assert_eq!(a.dir_cmd.as_deref(), Some("dir"));
    assert_eq!(a.quickfix, Some(false));
    assert_eq!(script_words(&a.script), Some(vec!["s".to_string()]));
    assert_eq!(a.name, "a");
}

#[test]
fn launch_command_by_context() {
    let mut m = mode("m");
    assert_eq!(m.cmd_for_isdir_and_qf(false, false).unwrap_err(), ConfigError::NoCmd);
    assert_eq!(m.cmd_for_isdir_and_qf(true, false).unwrap_err(), ConfigError::NoDirCmdOrCmd);
    assert_eq!(m.cmd_for_isdir_and_qf(true, true).unwrap_err(), ConfigError::NoQuickfixCmd);
    m.cmd = Some("nvim".to_string());
    assert_eq!(m.cmd_for_isdir_and_qf(true, false).unwrap(), "nvim");
    m.dir_cmd = Some("yazi".to_string());
    m.quickfix_cmd = Some("nvim -q".to_string());
    assert_eq!(m.cmd_for_isdir_and_qf(false, false).unwrap(), "nvim");
    assert_eq!(m.cmd_for_isdir_and_qf(true, false).unwrap(), "yazi");
    assert_eq!(m.cmd_for_isdir_and_qf(false, true).unwrap(), "nvim -q");
    assert_eq!(m.cmd_for_isdir_and_qf(true, true).unwrap(), "nvim -q");
}
