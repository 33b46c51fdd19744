//! How a mode's discovery script is run, and how its output becomes the
//! list of files to open.

use crate::config::{ConfigError, Mode, Script, ScriptView};
use crate::text::{nonempty_pieces, split_nonempty};
use vstd::prelude::*;

verus! {

#[verifier::external_type_specification]
#[verifier::external_body]
pub struct ExTempPath(tempfile::TempPath);

/// Relies on `tempfile::TempPath`, which dereferences to the `Path` of the
/// temporary file, and `Path::to_string_lossy`. The name is chosen at
/// random: nothing is promised of it.
#[verifier::external_body]
fn temp_path_text(p: &tempfile::TempPath) -> (r: String) {
    p.to_string_lossy().into_owned()
}

/// The four ways of running a discovery script, by whether the script
/// writes to a temporary file named in its first argument (else to standard
/// output) and whether the result is a locations file (else a list of
/// files).
///
/// A filter applies only to the two strategies that read standard output;
/// the two tempfile strategies run the script alone.
#[derive(Debug, Clone, Copy, PartialEq, Eq)]
pub enum Strategy {
    StdoutToFiles,
    StdoutToQuickfix,
    TempfileToFiles,
    TempfileToQuickfix,
}

impl Strategy {
    pub open spec fn spec_uses_tempfile(self) -> bool {
        self is TempfileToFiles || self is TempfileToQuickfix
    }

    pub open spec fn spec_yields_quickfix(self) -> bool {
        self is StdoutToQuickfix || self is TempfileToQuickfix
    }

    /// The strategy for the two flags.
    pub fn for_flags(uses_tempfile: bool, quickfix: bool) -> (r: Strategy)
        ensures
            r.spec_uses_tempfile() == uses_tempfile,
            r.spec_yields_quickfix() == quickfix,
    {
        match (uses_tempfile, quickfix) {
            (false, false) => Strategy::StdoutToFiles,
            (false, true) => Strategy::StdoutToQuickfix,
            (true, false) => Strategy::TempfileToFiles,
            (true, true) => Strategy::TempfileToQuickfix,
        }
    }

    /// The strategy of a mode; unset flags count as `false`. Fails where the
    /// mode has no script.
    pub fn for_mode(mode: &Mode) -> (r: Result<Strategy, ConfigError>)
        ensures
            match r {
                Ok(s) => mode.script is Some && s.spec_uses_tempfile() == (
                mode.script_uses_tempfile == Some(true)) && s.spec_yields_quickfix() == (
                mode.quickfix == Some(true)),
                Err(e) => mode.script is None && e == ConfigError::NoScript,
            },
    {
        if mode.script.is_none() {
            return Err(ConfigError::NoScript);
        }
        let uses_tempfile = match mode.script_uses_tempfile {
            Some(b) => b,
            None => false,
        };
        let quickfix = match mode.quickfix {
            Some(b) => b,
            None => false,
        };
        Ok(Strategy::for_flags(uses_tempfile, quickfix))
    }

    /// Whether the script is handed a temporary file to write to.
    pub fn uses_tempfile(&self) -> (r: bool)
        ensures
            r == self.spec_uses_tempfile(),
    {
        match self {
            Strategy::TempfileToFiles | Strategy::TempfileToQuickfix => true,
            _ => false,
        }
    }

    /// Whether the result is a locations file.
    pub fn yields_quickfix(&self) -> (r: bool)
        ensures
            r == self.spec_yields_quickfix(),
    {
        match self {
            Strategy::StdoutToQuickfix | Strategy::TempfileToQuickfix => true,
            _ => false,
        }
    }
}

/// The words of a script: the command, then its fixed arguments.
pub open spec fn script_words(s: ScriptView) -> Seq<Seq<char>> {
    match s {
        ScriptView::Command(c) => seq![c],
        ScriptView::CommandWithArgs(v) => v,
    }
}

/// The words that run a script through `sh`, for systems where a script's
/// interpreter line cannot be relied on: `sh -c '"$0" "$@"' script args...`.
pub open spec fn shell_words() -> Seq<Seq<char>> {
    seq![
        seq!['s', 'h'],
        seq!['-', 'c'],
        seq!['"', '$', '0', '"', ' ', '"', '$', '@', '"'],
    ]
}

/// The command line for a script, then `leading`, then `args`.
pub open spec fn command_words(
    s: ScriptView,
    via_shell: bool,
    leading: Seq<Seq<char>>,
    args: Seq<Seq<char>>,
) -> Seq<Seq<char>> {
    (if via_shell {
        shell_words()
    } else {
        Seq::empty()
    }) + script_words(s) + leading + args
}

fn push_words(out: &mut Vec<String>, words: &Vec<String>)
    ensures
        final(out).deep_view() == old(out).deep_view() + words.deep_view(),
{
    let ghost start = out.deep_view();
    let mut i: usize = 0;
    while i < words.len()
        invariant
            i <= words@.len(),
            start == old(out).deep_view(),
            out.deep_view() == start + words.deep_view().subrange(0, i as int),
        decreases words.len() - i,
    {
        let ghost prev = out.deep_view();
        let w = words[i].clone();
        out.push(w);
        assert(out.deep_view() =~= prev.push(words@[i as int]@));
        i += 1;
        assert(out.deep_view() =~= start + words.deep_view().subrange(0, i as int));
    }
    assert(words.deep_view().subrange(0, words@.len() as int) =~= words.deep_view());
}

/// The command line that runs `script` with the arguments `leading` and
/// then `args`, through `sh` where `via_shell` holds. Fails where the script
/// has no words.
pub fn command_line(script: &Script, via_shell: bool, leading: &Vec<String>, args: &Vec<String>) -> (r:
    Result<Vec<String>, ConfigError>)
    ensures
        match r {
            Ok(v) => script_words(script@).len() > 0 && v.deep_view() == command_words(
                script@,
                via_shell,
                leading.deep_view(),
                args.deep_view(),
            ),
            Err(e) => script_words(script@).len() == 0 && e == ConfigError::EmptyScript,
        },
{
    let mut out: Vec<String> = Vec::new();
    if via_shell {
        let shell: Vec<String> = vec![
            String::from_str("sh"),
            String::from_str("-c"),
            String::from_str("\"$0\" \"$@\""),
        ];
        proof {
            reveal_strlit("sh");
            reveal_strlit("-c");
            reveal_strlit("\"$0\" \"$@\"");
        }
        assert(shell@[0]@ =~= shell_words()[0]);
        assert(shell@[1]@ =~= shell_words()[1]);
        assert(shell@[2]@ =~= shell_words()[2]);
        assert(shell.deep_view() =~= shell_words());
        push_words(&mut out, &shell);
    }
    match script {
        Script::Command(c) => {
            out.push(c.clone());
        },
        Script::CommandWithArgs(v) => {
            if v.len() == 0 {
                return Err(ConfigError::EmptyScript);
            }
            push_words(&mut out, v);
        },
    }
    push_words(&mut out, leading);
    push_words(&mut out, args);
    assert(out.deep_view() =~= command_words(
        script@,
        via_shell,
        leading.deep_view(),
        args.deep_view(),
    ));
    Ok(out)
}

/// The file names in newline-separated text: its non-empty lines, in order.
pub open spec fn file_lines(s: Seq<char>) -> Seq<Seq<char>> {
    nonempty_pieces(s, false)
}

/// The non-empty newline-separated pieces of `text`, in order.
pub fn split_files(text: &str) -> (r: Vec<String>)
    ensures
        r.deep_view() == file_lines(text@),
{
    split_nonempty(text, false)
}

/// What running a mode's script produced: a locations file, kept on disk
/// for as long as this value lives, with its path as text; or
/// newline-separated file names.
pub enum ModeScriptRunner {
    Quickfix { temp_path: tempfile::TempPath, path: String },
    FilesList { newline_separated_files: String },
}

impl ModeScriptRunner {
    /// The result for a locations file, with the file's path as text.
    pub fn quickfix(temp_path: tempfile::TempPath) -> (r: ModeScriptRunner)
        ensures
            r is Quickfix,
    {
        let path = temp_path_text(&temp_path);
        ModeScriptRunner::Quickfix { temp_path, path }
    }

    /// The candidate paths: the locations file's path alone, or the
    /// non-empty lines of the list, in order.
    pub fn files_iter(&self) -> (r: Vec<String>)
        ensures
            match self {
                ModeScriptRunner::Quickfix { path, .. } => r.deep_view() == seq![path@],
                ModeScriptRunner::FilesList { newline_separated_files } => r.deep_view()
                    == file_lines(newline_separated_files@),
            },
    {
        match self {
            ModeScriptRunner::Quickfix { path, .. } => {
                let mut v: Vec<String> = Vec::new();
                v.push(path.clone());
                assert(v.deep_view() =~= seq![path@]);
                v
            },
            ModeScriptRunner::FilesList { newline_separated_files } => split_files(
                newline_separated_files.as_str(),
            ),
        }
    }
}

} // verus!
