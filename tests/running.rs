use std::io::{Read, Write};
use voxide::config::{ConfigError, Mode, Script};
use voxide::runner::{command_line, split_files, ModeScriptRunner, Strategy};

fn strs(v: &[&str]) -> Vec<String> {
    v.iter().map(|s| s.to_string()).collect()
}

fn mkmode(script: Option<Script>, uses_tempfile: Option<bool>, quickfix: Option<bool>) -> Mode {
    Mode {
        name: "foo".to_string(),
        desc: "foo".to_string(),
        script,
        cmd: Some("nvim".to_string()),
        quickfix_cmd: Some("nvim -q".to_string()),
        dir_cmd: Some("yazi".to_string()),
        script_uses_tempfile: uses_tempfile,
        quickfix,
        filter: None,
    }
}

#[test]
fn four_strategies() {
    let s = Some(Script::CommandWithArgs(strs(&["bash", "-c", "echo $0"])));
    let cases = [
        (false, false, Strategy::StdoutToFiles),
        (false, true, Strategy::StdoutToQuickfix),
        (true, false, Strategy::TempfileToFiles),
        (true, true, Strategy::TempfileToQuickfix),
    ];
    for (t, q, expected) in cases {
        let st = Strategy::for_mode(&mkmode(s.clone(), Some(t), Some(q))).unwrap();
        assert_eq!(st, expected);
        assert_eq!(st.uses_tempfile(), t);
        assert_eq!(st.yields_quickfix(), q);
    }
    assert_eq!(Strategy::for_mode(&mkmode(s, None, None)).unwrap(), Strategy::StdoutToFiles);
    assert_eq!(Strategy::for_mode(&mkmode(None, None, None)).unwrap_err(), ConfigError::NoScript);
}

#[test]
fn files_list_output_gives_one_file() {
    let r = ModeScriptRunner::FilesList { newline_separated_files: "ok\n".to_string() };
    assert_eq!(r.files_iter(), vec!["ok".to_string()]);
}

#[test]
fn quickfix_output_gives_the_temp_file() {
    let file = tempfile::NamedTempFile::new().unwrap();
    let expected = file.path().to_str().unwrap().to_string();
    let r = ModeScriptRunner::quickfix(file.into_temp_path());
    assert_eq!(r.files_iter(), vec![expected]);
}

#[test]
fn empty_lines_are_dropped() {
    assert_eq!(split_files("a\n\nb\n"), strs(&["a", "b"]));
    assert_eq!(split_files(""), Vec::<String>::new());
    assert_eq!(split_files("\n\n"), Vec::<String>::new());
    assert_eq!(split_files("x y\nz"), strs(&["x y", "z"]));
}

#[test]
fn script_command_lines() {
    let s = Script::CommandWithArgs(strs(&["sh", "-c", "echo $1 > $0"]));
    let argv = command_line(&s, false, &strs(&["/tmp/t"]), &strs(&["hello"])).unwrap();
    assert_eq!(argv, strs(&["sh", "-c", "echo $1 > $0", "/tmp/t", "hello"]));
    let argv = command_line(&Script::Command("finder".to_string()), true, &vec![], &strs(&["x"])).unwrap();
    assert_eq!(argv, strs(&["sh", "-c", "\"$0\" \"$@\"", "finder", "x"]));
    let empty = Script::CommandWithArgs(vec![]);
    assert_eq!(command_line(&empty, false, &vec![], &vec![]).unwrap_err(), ConfigError::EmptyScript);
}

#[test]
fn quickfix_file_keeps_the_script_output() {
    let mut file = tempfile::NamedTempFile::new().unwrap();
    file.write_all(b"ok:123:foo\n").unwrap();
    let mut reader = file.reopen().unwrap();
    let expected = file.path().to_str().unwrap().to_string();
    let r = ModeScriptRunner::quickfix(file.into_temp_path());
    let files = r.files_iter();
    assert_eq!(files, vec![expected]);
    let mut contents = String::new();
    reader.read_to_string(&mut contents).unwrap();
    assert_eq!(contents, "ok:123:foo\n");
}
