//! Modes: named execution profiles, and how several of them are layered into
//! one effective mode.

use std::collections::HashMap;
use vstd::prelude::*;

verus! {

/// A discovery or filter script: a bare command, or a command with fixed
/// leading arguments.
#[derive(Debug, Clone)]
pub enum Script {
    Command(String),
    CommandWithArgs(Vec<String>),
}

/// The mathematical value of a [`Script`].
pub ghost enum ScriptView {
    Command(Seq<char>),
    CommandWithArgs(Seq<Seq<char>>),
}

impl View for Script {
    type V = ScriptView;

    open spec fn view(&self) -> ScriptView {
        match self {
            Script::Command(c) => ScriptView::Command(c@),
            Script::CommandWithArgs(v) => ScriptView::CommandWithArgs(v.deep_view()),
        }
    }
}

pub open spec fn opt_string_view(o: Option<String>) -> Option<Seq<char>> {
    match o {
        Some(s) => Some(s@),
        None => None,
    }
}

pub open spec fn opt_script_view(o: Option<Script>) -> Option<ScriptView> {
    match o {
        Some(s) => Some(s@),
        None => None,
    }
}

fn copy_string_opt(o: &Option<String>) -> (r: Option<String>)
    ensures
        opt_string_view(r) == opt_string_view(*o),
{
    match o {
        Some(s) => Some(s.clone()),
        None => None,
    }
}

impl Script {
    /// A copy of this script with the same value.
    pub fn copied(&self) -> (r: Script)
        ensures
            r@ == self@,
    {
        match self {
            Script::Command(c) => Script::Command(c.clone()),
            Script::CommandWithArgs(v) => {
                let mut out: Vec<String> = Vec::new();
                let mut i: usize = 0;
                while i < v.len()
                    invariant
                        i <= v.len(),
                        out@.len() == i,
                        forall|j: int| 0 <= j < i ==> #[trigger] out@[j]@ == v@[j]@,
                    decreases v.len() - i,
                {
                    out.push(v[i].clone());
                    i += 1;
                }
                assert(out.deep_view() =~= v.deep_view());
                Script::CommandWithArgs(out)
            },
        }
    }
}

fn copy_script_opt(o: &Option<Script>) -> (r: Option<Script>)
    ensures
        opt_script_view(r) == opt_script_view(*o),
{
    match o {
        Some(s) => Some(s.copied()),
        None => None,
    }
}

/// A named execution profile.
#[derive(Debug, Clone)]
pub struct Mode {
    pub name: String,
    pub desc: String,
    pub script: Option<Script>,
    pub filter: Option<Script>,
    pub script_uses_tempfile: Option<bool>,
    pub cmd: Option<String>,
    pub quickfix_cmd: Option<String>,
    pub dir_cmd: Option<String>,
    pub quickfix: Option<bool>,
}

/// The mathematical value of a [`Mode`].
pub ghost struct ModeView {
    pub name: Seq<char>,
    pub desc: Seq<char>,
    pub script: Option<ScriptView>,
    pub filter: Option<ScriptView>,
    pub script_uses_tempfile: Option<bool>,
    pub cmd: Option<Seq<char>>,
    pub quickfix_cmd: Option<Seq<char>>,
    pub dir_cmd: Option<Seq<char>>,
    pub quickfix: Option<bool>,
}

impl View for Mode {
    type V = ModeView;

    open spec fn view(&self) -> ModeView {
        ModeView {
            name: self.name@,
            desc: self.desc@,
            script: opt_script_view(self.script),
            filter: opt_script_view(self.filter),
            script_uses_tempfile: self.script_uses_tempfile,
            cmd: opt_string_view(self.cmd),
            quickfix_cmd: opt_string_view(self.quickfix_cmd),
            dir_cmd: opt_string_view(self.dir_cmd),
            quickfix: self.quickfix,
        }
    }
}

/// `a` where it is set, else `b`.
pub open spec fn or_else<T>(a: Option<T>, b: Option<T>) -> Option<T> {
    match a {
        Some(x) => Some(x),
        None => b,
    }
}

impl ModeView {
    /// `self` with its gaps filled from `other`: each optional field that
    /// `self` leaves unset takes `other`'s value; a set field is never
    /// overwritten.
    pub open spec fn reverse_merged(self, other: ModeView) -> ModeView {
        ModeView {
            script: or_else(self.script, other.script),
            quickfix: or_else(self.quickfix, other.quickfix),
            script_uses_tempfile: or_else(self.script_uses_tempfile, other.script_uses_tempfile),
            filter: or_else(self.filter, other.filter),
            cmd: or_else(self.cmd, other.cmd),
            dir_cmd: or_else(self.dir_cmd, other.dir_cmd),
            quickfix_cmd: or_else(self.quickfix_cmd, other.quickfix_cmd),
            ..self
        }
    }
}

impl Mode {
    /// A copy of this mode with the same value.
    pub fn copied(&self) -> (r: Mode)
        ensures
            r@ == self@,
    {
        Mode {
            name: self.name.clone(),
            desc: self.desc.clone(),
            script: copy_script_opt(&self.script),
            filter: copy_script_opt(&self.filter),
            script_uses_tempfile: self.script_uses_tempfile,
            cmd: copy_string_opt(&self.cmd),
            quickfix_cmd: copy_string_opt(&self.quickfix_cmd),
            dir_cmd: copy_string_opt(&self.dir_cmd),
            quickfix: self.quickfix,
        }
    }

    /// Merges `other` into `self`, keeping every field that `self` already sets.
    pub fn reverse_merge(&mut self, other: &Mode)
        ensures
            final(self)@ == old(self)@.reverse_merged(other@),
    {
        if self.script.is_none() {
            self.script = copy_script_opt(&other.script);
        }
        if self.quickfix.is_none() {
            self.quickfix = other.quickfix;
        }
        if self.script_uses_tempfile.is_none() {
            self.script_uses_tempfile = other.script_uses_tempfile;
        }
        if self.cmd.is_none() {
            self.cmd = copy_string_opt(&other.cmd);
        }
        if self.dir_cmd.is_none() {
            self.dir_cmd = copy_string_opt(&other.dir_cmd);
        }
        if self.quickfix_cmd.is_none() {
            self.quickfix_cmd = copy_string_opt(&other.quickfix_cmd);
        }
        if self.filter.is_none() {
            self.filter = copy_script_opt(&other.filter);
        }
    }
}


/// What can go wrong while resolving a mode.
#[derive(Debug, Clone, PartialEq, Eq)]
pub enum ConfigError {
    /// No mode is configured for this letter.
    ModeNotFound(char),
    /// The mode has no script to run.
    NoScript,
    /// A script given as a list of words has no words.
    EmptyScript,
    /// The merged mode has no `quickfix_cmd`.
    NoQuickfixCmd,
    /// The merged mode has neither `dir_cmd` nor `cmd`.
    NoDirCmdOrCmd,
    /// The merged mode has no `cmd`.
    NoCmd,
}

impl ModeView {
    /// The launch command for a run whose first result is (or is not) a
    /// directory and which does (or does not) produce a locations file.
    pub open spec fn cmd_for(self, is_dir: bool, is_quickfix: bool) -> Option<Seq<char>> {
        if is_quickfix {
            self.quickfix_cmd
        } else if is_dir {
            or_else(self.dir_cmd, self.cmd)
        } else {
            self.cmd
        }
    }
}

/// The error reported when [`ModeView::cmd_for`] finds nothing.
pub open spec fn missing_cmd_error(is_dir: bool, is_quickfix: bool) -> ConfigError {
    if is_quickfix {
        ConfigError::NoQuickfixCmd
    } else if is_dir {
        ConfigError::NoDirCmdOrCmd
    } else {
        ConfigError::NoCmd
    }
}

impl Mode {
    /// The command that opens the results: `quickfix_cmd` for a locations
    /// file, else `dir_cmd` (or `cmd`) for a directory, else `cmd`.
    pub fn cmd_for_isdir_and_qf(&self, is_dir: bool, is_quickfix: bool) -> (r: Result<
        &String,
        ConfigError,
    >)
        ensures
            match r {
                Ok(c) => self@.cmd_for(is_dir, is_quickfix) == Some(c@),
                Err(e) => self@.cmd_for(is_dir, is_quickfix) is None && e == missing_cmd_error(
                    is_dir,
                    is_quickfix,
                ),
            },
    {
        if is_quickfix {
            match &self.quickfix_cmd {
                Some(c) => Ok(c),
                None => Err(ConfigError::NoQuickfixCmd),
            }
        } else if is_dir {
            match &self.dir_cmd {
                Some(c) => Ok(c),
                None => match &self.cmd {
                    Some(c) => Ok(c),
                    None => Err(ConfigError::NoDirCmdOrCmd),
                },
            }
        } else {
            match &self.cmd {
                Some(c) => Ok(c),
                None => Err(ConfigError::NoCmd),
            }
        }
    }
}

/// The effective mode of the fragments `ms`, the default first: folding from
/// the last fragment toward the first, each earlier fragment only fills the
/// gaps that the later ones left.
pub open spec fn merged(ms: Seq<ModeView>) -> ModeView
    decreases ms.len(),
{
    if ms.len() <= 1 {
        ms[0]
    } else {
        merged(ms.subrange(1, ms.len() as int)).reverse_merged(ms[0])
    }
}

/// The configuration: the modes by letter, the transform rules, and the
/// default mode.
///
/// A mode's key is the letter's code point.
pub struct AppConfig {
    pub modes: HashMap<u32, Mode>,
    pub transforms: Vec<(String, String)>,
    pub default_mode: Mode,
}

/// The letters of an optional mode argument.
pub open spec fn letters_of(letters: Option<&str>) -> Seq<char> {
    match letters {
        Some(s) => s@,
        None => Seq::empty(),
    }
}

impl AppConfig {
    pub open spec fn has_mode(&self, c: char) -> bool {
        self.modes@.contains_key(c as u32)
    }

    pub open spec fn mode_of(&self, c: char) -> ModeView {
        self.modes@[c as u32]@
    }

    /// The default mode followed by the mode of each letter.
    pub open spec fn fragments(&self, ls: Seq<char>) -> Seq<ModeView> {
        seq![self.default_mode@] + ls.map_values(|c: char| self.mode_of(c))
    }

    /// The mode of a letter.
    pub fn get_mode(&self, mode_letter: char) -> (r: Result<&Mode, ConfigError>)
        ensures
            match r {
                Ok(m) => self.has_mode(mode_letter) && *m == self.modes@[mode_letter as u32],
                Err(e) => !self.has_mode(mode_letter) && e == ConfigError::ModeNotFound(
                    mode_letter,
                ),
            },
    {
        broadcast use vstd::std_specs::hash::group_hash_axioms;

        match self.modes.get(&(mode_letter as u32)) {
            Some(m) => Ok(m),
            None => Err(ConfigError::ModeNotFound(mode_letter)),
        }
    }

    /// The effective mode for the letters given: the default mode, layered
    /// under the mode of each letter. Fails on the first letter that has no
    /// mode.
    pub fn get_merged_mode(&self, letters: Option<&str>) -> (r: Result<Mode, ConfigError>)
        ensures
            match r {
                Ok(m) => (forall|i: int|
                    0 <= i < letters_of(letters).len() ==> self.has_mode(
                        #[trigger] letters_of(letters)[i],
                    )) && m@ == merged(self.fragments(letters_of(letters))),
                Err(e) => exists|i: int|
                    0 <= i < letters_of(letters).len() && !self.has_mode(
                        #[trigger] letters_of(letters)[i],
                    ) && (forall|j: int|
                        0 <= j < i ==> self.has_mode(#[trigger] letters_of(letters)[j]))
                        && e == ConfigError::ModeNotFound(letters_of(letters)[i]),
            },
    {
        let text: &str = match letters {
            Some(s) => s,
            None => "",
        };
        let ghost ls = letters_of(letters);
        proof {
            if letters is None {
                reveal_strlit("");
            }
        }
        assert(text@ == ls);
        let n: usize = text.unicode_len();
        let mut chosen: Vec<&Mode> = Vec::new();
        let mut i: usize = 0;
        while i < n
            invariant
                ls == letters_of(letters),
                n == ls.len(),
                text@ == ls,
                i <= n,
                chosen@.len() == i,
                forall|j: int| 0 <= j < i ==> self.has_mode(#[trigger] ls[j]),
                forall|j: int| 0 <= j < i ==> (#[trigger] chosen@[j])@ == self.mode_of(ls[j]),
            decreases n - i,
        {
            let c = text.get_char(i);
            match self.get_mode(c) {
                Ok(m) => chosen.push(m),
                Err(e) => {
                    assert(!self.has_mode(letters_of(letters)[i as int]));
                    return Err(e);
                },
            }
            i += 1;
        }
        let ghost frags = self.fragments(ls);
        // Fold from the last fragment toward the default.
        let mut agg: Mode = if n == 0 {
            self.default_mode.copied()
        } else {
            chosen[n - 1].copied()
        };
        let mut k: usize = n;
        assert(frags.subrange(n as int, n + 1) =~= seq![frags[n as int]]);
        while k > 0
            invariant
                ls == letters_of(letters),
                k <= n,
                n == ls.len(),
                chosen@.len() == n,
                frags == self.fragments(ls),
                forall|j: int| 0 <= j < n ==> (#[trigger] chosen@[j])@ == self.mode_of(ls[j]),
                agg@ == merged(frags.subrange(k as int, n + 1)),
            decreases k,
        {
            let ghost rest = frags.subrange(k as int, n + 1);
            let ghost longer = frags.subrange(k - 1, n + 1);
            assert(longer.subrange(1, longer.len() as int) =~= rest);
            if k == 1 {
                agg.reverse_merge(&self.default_mode);
            } else {
                agg.reverse_merge(chosen[k - 2]);
            }
            k -= 1;
        }
        assert(frags.subrange(0, n + 1) =~= frags);
        Ok(agg)
    }
}


/// The last entry of `s` that is set: later entries take precedence.
pub open spec fn last_set<T>(s: Seq<Option<T>>) -> Option<T>
    decreases s.len(),
{
    if s.len() == 0 {
        None
    } else {
        or_else(last_set(s.subrange(1, s.len() as int)), s[0])
    }
}

/// The first entry of `s` that is set: earlier entries take precedence.
pub open spec fn first_set<T>(s: Seq<Option<T>>) -> Option<T>
    decreases s.len(),
{
    if s.len() == 0 {
        None
    } else {
        or_else(s[0], first_set(s.subrange(1, s.len() as int)))
    }
}

// One optional field of a mode each.
pub open spec fn script_part(m: ModeView) -> Option<ScriptView> {
    m.script
}

pub open spec fn quickfix_part(m: ModeView) -> Option<bool> {
    m.quickfix
}

pub open spec fn script_uses_tempfile_part(m: ModeView) -> Option<bool> {
    m.script_uses_tempfile
}

pub open spec fn filter_part(m: ModeView) -> Option<ScriptView> {
    m.filter
}

pub open spec fn cmd_part(m: ModeView) -> Option<Seq<char>> {
    m.cmd
}

pub open spec fn dir_cmd_part(m: ModeView) -> Option<Seq<char>> {
    m.dir_cmd
}

pub open spec fn quickfix_cmd_part(m: ModeView) -> Option<Seq<char>> {
    m.quickfix_cmd
}

proof fn lemma_merged_field<T>(ms: Seq<ModeView>, f: spec_fn(ModeView) -> Option<T>)
    requires
        ms.len() >= 1,
        forall|a: ModeView, b: ModeView|
            #[trigger] f(a.reverse_merged(b)) == or_else(f(a), f(b)),
    ensures
        f(merged(ms)) == last_set(ms.map_values(f)),
    decreases ms.len(),
{
    let rest = ms.subrange(1, ms.len() as int);
    let fs = ms.map_values(f);
    if ms.len() == 1 {
        assert(fs.subrange(1, 1) =~= Seq::<Option<T>>::empty());
        assert(last_set(fs.subrange(1, 1)) is None);
        assert(last_set(fs) == or_else(last_set(fs.subrange(1, 1)), fs[0]));
    } else {
        lemma_merged_field(rest, f);
        assert(fs.subrange(1, ms.len() as int) =~= rest.map_values(f));
        assert(merged(ms) == merged(rest).reverse_merged(ms[0]));
        assert(f(merged(ms)) == or_else(f(merged(rest)), f(ms[0])));
    }
}

proof fn lemma_merge_parts()
    ensures
        forall|a: ModeView, b: ModeView|
            #[trigger] script_part(a.reverse_merged(b)) == or_else(script_part(a), script_part(b)),
        forall|a: ModeView, b: ModeView|
            #[trigger] quickfix_part(a.reverse_merged(b)) == or_else(quickfix_part(a), quickfix_part(b)),
        forall|a: ModeView, b: ModeView|
            #[trigger] script_uses_tempfile_part(a.reverse_merged(b)) == or_else(script_uses_tempfile_part(a), script_uses_tempfile_part(b)),
        forall|a: ModeView, b: ModeView|
            #[trigger] filter_part(a.reverse_merged(b)) == or_else(filter_part(a), filter_part(b)),
        forall|a: ModeView, b: ModeView|
            #[trigger] cmd_part(a.reverse_merged(b)) == or_else(cmd_part(a), cmd_part(b)),
        forall|a: ModeView, b: ModeView|
            #[trigger] dir_cmd_part(a.reverse_merged(b)) == or_else(dir_cmd_part(a), dir_cmd_part(b)),
        forall|a: ModeView, b: ModeView|
            #[trigger] quickfix_cmd_part(a.reverse_merged(b)) == or_else(quickfix_cmd_part(a), quickfix_cmd_part(b)),
{
}

/// Merging the default mode `d` with the modes of the letters, `modes`, gives
/// each optional field the value of the last of `modes` that sets it, or the
/// default's value where none does.
pub proof fn lemma_merge_takes_last_set(d: ModeView, modes: Seq<ModeView>)
    ensures
        script_part(merged(seq![d] + modes)) == or_else(
            last_set(modes.map_values(|m: ModeView| script_part(m))),
            script_part(d),
        ),
        quickfix_part(merged(seq![d] + modes)) == or_else(
            last_set(modes.map_values(|m: ModeView| quickfix_part(m))),
            quickfix_part(d),
        ),
        script_uses_tempfile_part(merged(seq![d] + modes)) == or_else(
            last_set(modes.map_values(|m: ModeView| script_uses_tempfile_part(m))),
            script_uses_tempfile_part(d),
        ),
        filter_part(merged(seq![d] + modes)) == or_else(
            last_set(modes.map_values(|m: ModeView| filter_part(m))),
            filter_part(d),
        ),
        cmd_part(merged(seq![d] + modes)) == or_else(
            last_set(modes.map_values(|m: ModeView| cmd_part(m))),
            cmd_part(d),
        ),
        dir_cmd_part(merged(seq![d] + modes)) == or_else(
            last_set(modes.map_values(|m: ModeView| dir_cmd_part(m))),
            dir_cmd_part(d),
        ),
        quickfix_cmd_part(merged(seq![d] + modes)) == or_else(
            last_set(modes.map_values(|m: ModeView| quickfix_cmd_part(m))),
            quickfix_cmd_part(d),
        ),
{
    let ms = seq![d] + modes;
    assert(ms.subrange(1, ms.len() as int) =~= modes);
    lemma_merge_parts();
    lemma_last_set_front(ms, |m: ModeView| script_part(m));
    lemma_last_set_front(ms, |m: ModeView| quickfix_part(m));
    lemma_last_set_front(ms, |m: ModeView| script_uses_tempfile_part(m));
    lemma_last_set_front(ms, |m: ModeView| filter_part(m));
    lemma_last_set_front(ms, |m: ModeView| cmd_part(m));
    lemma_last_set_front(ms, |m: ModeView| dir_cmd_part(m));
    lemma_last_set_front(ms, |m: ModeView| quickfix_cmd_part(m));
    lemma_merged_field(ms, |m: ModeView| script_part(m));
    lemma_merged_field(ms, |m: ModeView| quickfix_part(m));
    lemma_merged_field(ms, |m: ModeView| script_uses_tempfile_part(m));
    lemma_merged_field(ms, |m: ModeView| filter_part(m));
    lemma_merged_field(ms, |m: ModeView| cmd_part(m));
    lemma_merged_field(ms, |m: ModeView| dir_cmd_part(m));
    lemma_merged_field(ms, |m: ModeView| quickfix_cmd_part(m));
}

proof fn lemma_last_set_front<T>(ms: Seq<ModeView>, f: spec_fn(ModeView) -> Option<T>)
    requires
        ms.len() >= 1,
    ensures
        last_set(ms.map_values(f)) == or_else(
            last_set(ms.subrange(1, ms.len() as int).map_values(f)),
            f(ms[0]),
        ),
{
    assert(ms.map_values(f).subrange(1, ms.len() as int) =~= ms.subrange(
        1,
        ms.len() as int,
    ).map_values(f));
}

/// Where, for each optional field, the first and the last of the letters'
/// modes that set it agree, the merged mode holds for that field the value of
/// the first of `modes` that sets it, or the default's value where none does.
pub proof fn lemma_merge_priority(d: ModeView, modes: Seq<ModeView>)
    requires
        first_set(modes.map_values(|m: ModeView| script_part(m))) == last_set(
            modes.map_values(|m: ModeView| script_part(m)),
        ),
        first_set(modes.map_values(|m: ModeView| quickfix_part(m))) == last_set(
            modes.map_values(|m: ModeView| quickfix_part(m)),
        ),
        first_set(modes.map_values(|m: ModeView| script_uses_tempfile_part(m))) == last_set(
            modes.map_values(|m: ModeView| script_uses_tempfile_part(m)),
        ),
        first_set(modes.map_values(|m: ModeView| filter_part(m))) == last_set(
            modes.map_values(|m: ModeView| filter_part(m)),
        ),
        first_set(modes.map_values(|m: ModeView| cmd_part(m))) == last_set(
            modes.map_values(|m: ModeView| cmd_part(m)),
        ),
        first_set(modes.map_values(|m: ModeView| dir_cmd_part(m))) == last_set(
            modes.map_values(|m: ModeView| dir_cmd_part(m)),
        ),
        first_set(modes.map_values(|m: ModeView| quickfix_cmd_part(m))) == last_set(
            modes.map_values(|m: ModeView| quickfix_cmd_part(m)),
        ),
    ensures
        script_part(merged(seq![d] + modes)) == or_else(
            first_set(modes.map_values(|m: ModeView| script_part(m))),
            script_part(d),
        ),
        quickfix_part(merged(seq![d] + modes)) == or_else(
            first_set(modes.map_values(|m: ModeView| quickfix_part(m))),
            quickfix_part(d),
        ),
        script_uses_tempfile_part(merged(seq![d] + modes)) == or_else(
            first_set(modes.map_values(|m: ModeView| script_uses_tempfile_part(m))),
            script_uses_tempfile_part(d),
        ),
        filter_part(merged(seq![d] + modes)) == or_else(
            first_set(modes.map_values(|m: ModeView| filter_part(m))),
            filter_part(d),
        ),
        cmd_part(merged(seq![d] + modes)) == or_else(
            first_set(modes.map_values(|m: ModeView| cmd_part(m))),
            cmd_part(d),
        ),
        dir_cmd_part(merged(seq![d] + modes)) == or_else(
            first_set(modes.map_values(|m: ModeView| dir_cmd_part(m))),
            dir_cmd_part(d),
        ),
        quickfix_cmd_part(merged(seq![d] + modes)) == or_else(
            first_set(modes.map_values(|m: ModeView| quickfix_cmd_part(m))),
            quickfix_cmd_part(d),
        ),
{
    lemma_merge_takes_last_set(d, modes);
}

/// Merging the default mode with no letters gives the default mode unchanged.
pub proof fn lemma_merge_no_letters(d: ModeView)
    ensures
        merged(seq![d] + Seq::<ModeView>::empty()) == d,
{
    assert(seq![d] + Seq::<ModeView>::empty() =~= seq![d]);
}

} // verus!
