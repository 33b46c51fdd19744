//! The transform engine: an ordered chain of regex rewrites that turns raw
//! script output into a path, picking up a line number on the way.

use crate::config::opt_string_view;
use crate::placeholders::{expand, process_replacement_string};
use vstd::prelude::*;

verus! {

#[verifier::external_type_specification]
#[verifier::external_body]
pub struct ExRegex(regex::Regex);

#[verifier::external_type_specification]
#[verifier::external_body]
pub struct ExRegexError(regex::Error);

/// Whether regex accepts `pattern`.
pub uninterp spec fn pattern_compiles(pattern: Seq<char>) -> bool;

/// What regex's `replace_all` gives for `pattern` over `text` with the
/// replacement `template`.
pub uninterp spec fn replaced_all(pattern: Seq<char>, text: Seq<char>, template: Seq<char>) -> Seq<
    char,
>;

/// For each match of `pattern` in `text`, in order, the text of its group
/// called `name`, where that group took part in the match.
pub uninterp spec fn group_texts(pattern: Seq<char>, name: Seq<char>, text: Seq<char>) -> Seq<
    Option<Seq<char>>,
>;

/// The name of the capture group that carries a line number.
pub open spec fn lineno_name() -> Seq<char> {
    seq!['l', 'i', 'n', 'e', 'n', 'o']
}

/// Relies on `regex::Regex::new`: the pattern compiles, or an error comes back.
#[verifier::external_body]
fn compile_regex(pattern: &str) -> (r: Result<regex::Regex, regex::Error>)
    ensures
        r is Ok == pattern_compiles(pattern@),
{
    regex::Regex::new(pattern)
}

/// A compiled regular expression together with the text it was compiled
/// from. The only way to build one is [`Pattern::new`], which compiles
/// `regex` from `source`.
pub struct Pattern {
    regex: regex::Regex,
    source: String,
}

impl Pattern {
    /// The text of the pattern.
    pub closed spec fn source(&self) -> Seq<char> {
        self.source@
    }

    /// Compiles `pattern`.
    pub fn new(pattern: &str) -> (r: Result<Pattern, TransformError>)
        ensures
            match r {
                Ok(p) => pattern_compiles(pattern@) && p.source() == pattern@,
                Err(e) => !pattern_compiles(pattern@) && e@ == TransformErrorView::InvalidPattern(
                    pattern@,
                ),
            },
    {
        match compile_regex(pattern) {
            Ok(regex) => Ok(Pattern { regex, source: pattern.to_owned() }),
            Err(_) => Err(TransformError::InvalidPattern(pattern.to_owned())),
        }
    }
}

/// Relies on `regex::Regex::replace_all` with a `&str` replacement: each
/// match is replaced by the template, its `$name` references expanded.
/// `pattern.regex` was compiled from `pattern.source`.
#[verifier::external_body]
fn replace_all(pattern: &Pattern, text: &str, template: &str) -> (r: String)
    ensures
        r@ == replaced_all(pattern.source(), text@, template@),
{
    pattern.regex.replace_all(text, template).into_owned()
}

/// Relies on `regex::Regex::captures_iter` and `Captures::name`: the group
/// called `name` of each match, in order. `pattern.regex` was compiled from
/// `pattern.source`.
#[verifier::external_body]
fn group_captures(pattern: &Pattern, name: &str, text: &str) -> (r: Vec<Option<String>>)
    ensures
        r.deep_view() == group_texts(pattern.source(), name@, text@),
{
    pattern.regex.captures_iter(text).map(|c| c.name(name).map(|m| m.as_str().to_owned())).collect()
}

/// Relies on `std::path::Path::exists`: whether the file system has an
/// entry at this path. Nothing is promised of the answer.
#[verifier::external_body]
fn path_exists(path: &str) -> (r: bool) {
    std::path::Path::new(path).exists()
}

/// What can go wrong while applying transforms.
#[derive(Debug, Clone)]
pub enum TransformError {
    /// The pattern of a rule does not compile.
    InvalidPattern(String),
}

pub ghost enum TransformErrorView {
    InvalidPattern(Seq<char>),
}

impl View for TransformError {
    type V = TransformErrorView;

    open spec fn view(&self) -> TransformErrorView {
        match self {
            TransformError::InvalidPattern(p) => TransformErrorView::InvalidPattern(p@),
        }
    }
}

impl TransformError {
    /// A description of the error.
    pub fn message(&self) -> (r: String)
        ensures
            match self {
                TransformError::InvalidPattern(p) => r@ == "invalid transform pattern: "@ + p@,
            },
    {
        match self {
            TransformError::InvalidPattern(p) => {
                let mut m = String::from_str("invalid transform pattern: ");
                m.append(p.as_str());
                m
            },
        }
    }
}

/// Whether `c` is an ASCII decimal digit.
pub open spec fn is_digit(c: char) -> bool {
    '0' <= c <= '9'
}

/// The value of a string of decimal digits.
pub open spec fn digits_value(d: Seq<char>) -> nat
    decreases d.len(),
{
    if d.len() == 0 {
        0
    } else {
        digits_value(d.drop_last()) * 10 + (d.last() as nat - '0' as nat) as nat
    }
}

/// The digits of an unsigned number, after an optional `+`.
pub open spec fn unsigned_digits(s: Seq<char>) -> Seq<char> {
    if s.len() > 0 && s[0] == '+' {
        s.drop_first()
    } else {
        s
    }
}

/// `s` read as a `usize`: an optional `+`, then at least one decimal digit,
/// and a value that fits.
pub open spec fn parsed_usize(s: Seq<char>) -> Option<usize> {
    let d = unsigned_digits(s);
    if d.len() > 0 && (forall|i: int| 0 <= i < d.len() ==> is_digit(#[trigger] d[i]))
        && digits_value(d) <= usize::MAX {
        Some(digits_value(d) as usize)
    } else {
        None
    }
}

/// Reads `s` as a `usize`, as `str::parse` does.
pub fn parse_usize(s: &str) -> (r: Option<usize>)
    ensures
        r == parsed_usize(s@),
{
    let n: usize = s.unicode_len();
    let mut i: usize = 0;
    if n > 0 && s.get_char(0) == '+' {
        i = 1;
    }
    let ghost d = unsigned_digits(s@);
    assert(d =~= s@.subrange(i as int, n as int));
    if i == n {
        return None;
    }
    let mut value: usize = 0;
    let mut fits = true;
    let start = i;
    while i < n
        invariant
            start <= i <= n,
            n == s@.len(),
            d == s@.subrange(start as int, n as int),
            d == unsigned_digits(s@),
            forall|j: int| 0 <= j < i - start ==> is_digit(#[trigger] d[j]),
            fits ==> value == digits_value(d.subrange(0, i - start)),
            !fits ==> digits_value(d.subrange(0, i - start)) > usize::MAX,
        decreases n - i,
    {
        let c = s.get_char(i);
        if !('0' <= c && c <= '9') {
            assert(!is_digit(d[i - start]));
            return None;
        }
        let digit = (c as u32 - '0' as u32) as usize;
        let ghost prefix = d.subrange(0, i - start);
        let ghost longer = d.subrange(0, i + 1 - start);
        assert(longer.drop_last() =~= prefix);
        assert(digits_value(longer) == digits_value(prefix) * 10 + digit);
        if fits && value <= (usize::MAX - digit) / 10 {
            value = value * 10 + digit;
        } else {
            assert(digits_value(longer) > usize::MAX) by (nonlinear_arith)
                requires
                    digits_value(longer) == digits_value(prefix) * 10 + digit,
                    fits ==> value == digits_value(prefix),
                    fits ==> value > (usize::MAX - digit) / 10,
                    !fits ==> digits_value(prefix) > usize::MAX,
                    digit <= 9,
            ;
            fits = false;
        }
        i += 1;
    }
    assert(d.subrange(0, n - start) =~= d);
    if fits {
        Some(value)
    } else {
        None
    }
}

/// The line number after one match's `lineno` group: the group's text read
/// as a number, or the earlier line number where the group took no part or
/// its text does not read as a number.
pub open spec fn lineno_after_group(prev: Option<usize>, group: Option<Seq<char>>) -> Option<
    usize,
> {
    match group {
        Some(t) => match parsed_usize(t) {
            Some(n) => Some(n),
            None => prev,
        },
        None => prev,
    }
}

/// The line number after the `lineno` groups of all matches, in order.
pub open spec fn lineno_after(prev: Option<usize>, groups: Seq<Option<Seq<char>>>) -> Option<usize>
    decreases groups.len(),
{
    if groups.len() == 0 {
        prev
    } else {
        lineno_after_group(lineno_after(prev, groups.drop_last()), groups.last())
    }
}

/// Replaces the matches of a pattern by a template, and records the line
/// number of the last match that has a `lineno` group.
pub struct LinenoCapturingReplacer<'a> {
    pub lineno: Option<usize>,
    pub to: &'a str,
}

impl<'a> LinenoCapturingReplacer<'a> {
    /// A replacer that writes `to`, starting from the line number `lineno`.
    pub fn new(lineno: Option<usize>, to: &'a str) -> (r: Self)
        ensures
            r.lineno == lineno,
            r.to == to,
    {
        LinenoCapturingReplacer { lineno, to }
    }

    /// Takes the line number from one match's `lineno` group.
    pub fn capture(&mut self, group: &Option<String>)
        ensures
            final(self).to == old(self).to,
            final(self).lineno == lineno_after_group(old(self).lineno, group.deep_view()),
    {
        match group {
            Some(t) => match parse_usize(t.as_str()) {
                Some(n) => {
                    self.lineno = Some(n);
                },
                None => {},
            },
            None => {},
        }
    }

    /// Replaces every match of `pattern` in `text` by the template, and
    /// updates the line number from the matches' `lineno` groups.
    pub fn replace_all(&mut self, pattern: &Pattern, text: &str) -> (r: String)
        ensures
            final(self).to == old(self).to,
            final(self).lineno == lineno_after(
                old(self).lineno,
                group_texts(pattern.source(), lineno_name(), text@),
            ),
            r@ == replaced_all(pattern.source(), text@, old(self).to@),
    {
        let name = "lineno";
        proof {
            reveal_strlit("lineno");
        }
        assert(name@ =~= lineno_name());
        let groups = group_captures(pattern, name, text);
        let ghost gs = groups.deep_view();
        let ghost start = self.lineno;
        let mut i: usize = 0;
        while i < groups.len()
            invariant
                i <= groups@.len(),
                gs == groups.deep_view(),
                self.to == old(self).to,
                start == old(self).lineno,
                self.lineno == lineno_after(start, gs.subrange(0, i as int)),
            decreases groups.len() - i,
        {
            let ghost before = gs.subrange(0, i as int);
            self.capture(&groups[i]);
            assert(gs.subrange(0, i + 1).drop_last() =~= before);
            i += 1;
        }
        assert(gs.subrange(0, groups@.len() as int) =~= gs);
        replace_all(pattern, text, self.to)
    }
}

/// A line number found by the transforms.
#[derive(Debug, Clone, Copy, PartialEq, Eq)]
pub struct LineNumber(pub usize);


/// The mathematical value of one rule: its pattern and its template.
pub open spec fn rule_view(rule: (String, String)) -> (Seq<char>, Seq<char>) {
    (rule.0@, rule.1@)
}

/// The state after one rule: the line number so far and the working text.
pub open spec fn rule_result(
    rule: (Seq<char>, Seq<char>),
    state: (Option<usize>, Seq<char>),
    git_root: Seq<char>,
    home: Option<Seq<char>>,
) -> (Option<usize>, Seq<char>) {
    let template = expand(rule.1, git_root, home);
    (
        lineno_after(state.0, group_texts(rule.0, lineno_name(), state.1)),
        replaced_all(rule.0, state.1, template),
    )
}

/// The state after the first `k` rules, starting from `input` and no line
/// number.
pub open spec fn run_rules(
    rules: Seq<(Seq<char>, Seq<char>)>,
    k: int,
    input: Seq<char>,
    git_root: Seq<char>,
    home: Option<Seq<char>>,
) -> (Option<usize>, Seq<char>)
    decreases k,
{
    if k <= 0 {
        (None, input)
    } else {
        rule_result(rules[k - 1], run_rules(rules, k - 1, input, git_root, home), git_root, home)
    }
}

/// Whether the patterns of the first `k` rules all compile.
pub open spec fn rules_compile(rules: Seq<(Seq<char>, Seq<char>)>, k: int) -> bool {
    forall|j: int| 0 <= j < k ==> pattern_compiles(#[trigger] rules[j].0)
}

pub open spec fn line_value(l: Option<LineNumber>) -> Option<usize> {
    match l {
        Some(n) => Some(n.0),
        None => None,
    }
}

/// Applies an ordered list of (pattern, template) rules to candidate paths.
pub struct TransformsApplicator<'a> {
    pub transforms: &'a Vec<(String, String)>,
    /// What `${gitroot}` stands for.
    pub git_root: String,
    /// What `${home}` stands for, where known.
    pub home: Option<String>,
}

impl<'a> TransformsApplicator<'a> {
    /// The rules, as values.
    pub open spec fn rules(&self) -> Seq<(Seq<char>, Seq<char>)> {
        self.transforms@.map_values(|r: (String, String)| rule_view(r))
    }

    /// An applicator for `transforms`, with `${gitroot}` standing for
    /// `git_root` and `${home}` for `home`.
    pub fn new(transforms: &'a Vec<(String, String)>, git_root: String, home: Option<String>) -> (r:
        Self)
        ensures
            r.transforms == transforms,
            r.git_root == git_root,
            r.home == home,
    {
        TransformsApplicator { transforms, git_root, home }
    }

    /// Whether `found` is what the transforms may give for `path`: the state
    /// after some first `k` rules, all of whose patterns compile.
    pub open spec fn may_give(&self, path: Seq<char>, found: (Option<usize>, Seq<char>)) -> bool {
        exists|k: int|
            0 <= k <= self.rules().len() && rules_compile(self.rules(), k) && #[trigger] run_rules(
                self.rules(),
                k,
                path,
                self.git_root@,
                opt_string_view(self.home),
            ) == found
    }

    /// Whether `e` is the error of a pattern that some run may reach: the
    /// first pattern that does not compile among some first rules.
    pub open spec fn may_fail_with(&self, e: TransformErrorView) -> bool {
        exists|k: int|
            0 <= k < self.rules().len() && rules_compile(self.rules(), k) && !pattern_compiles(
                #[trigger] self.rules()[k].0,
            ) && e == TransformErrorView::InvalidPattern(self.rules()[k].0)
    }

    /// Applies rule `i` to the working text `text`, with the line number so
    /// far `lineno`.
    pub fn apply_rule(&self, i: usize, lineno: Option<usize>, text: &str) -> (r: Result<
        (Option<usize>, String),
        TransformError,
    >)
        requires
            i < self.transforms@.len(),
        ensures
            match r {
                Ok((l, t)) => pattern_compiles(self.rules()[i as int].0) && (l, t@) == rule_result(
                    self.rules()[i as int],
                    (lineno, text@),
                    self.git_root@,
                    opt_string_view(self.home),
                ),
                Err(e) => !pattern_compiles(self.rules()[i as int].0) && e@
                    == TransformErrorView::InvalidPattern(self.rules()[i as int].0),
            },
    {
        let rule = &self.transforms[i];
        let pattern = match Pattern::new(rule.0.as_str()) {
            Ok(p) => p,
            Err(e) => {
                return Err(e);
            },
        };
        let home: Option<&str> = match &self.home {
            Some(h) => Some(h.as_str()),
            None => None,
        };
        let template = process_replacement_string(rule.1.as_str(), self.git_root.as_str(), home);
        let mut replacer = LinenoCapturingReplacer::new(lineno, template.as_str());
        let out = replacer.replace_all(&pattern, text);
        Ok((replacer.lineno, out))
    }

    /// One turn of the transform loop at rule `i`, given whether the working
    /// text `text` names an existing file system entry: stop (`None`) where
    /// it does, else apply rule `i`.
    pub fn step(&self, i: usize, exists: bool, lineno: Option<usize>, text: &str) -> (r: Result<
        Option<(Option<usize>, String)>,
        TransformError,
    >)
        requires
            i < self.transforms@.len(),
        ensures
            exists ==> r == Ok::<Option<(Option<usize>, String)>, TransformError>(None),
            !exists ==> match r {
                Ok(Some((l, t))) => pattern_compiles(self.rules()[i as int].0) && (l, t@)
                    == rule_result(
                    self.rules()[i as int],
                    (lineno, text@),
                    self.git_root@,
                    opt_string_view(self.home),
                ),
                Ok(None) => false,
                Err(e) => !pattern_compiles(self.rules()[i as int].0) && e@
                    == TransformErrorView::InvalidPattern(self.rules()[i as int].0),
            },
    {
        if exists {
            return Ok(None);
        }
        match self.apply_rule(i, lineno, text) {
            Ok(found) => Ok(Some(found)),
            Err(e) => Err(e),
        }
    }

    /// Rewrites `path` through the rules in order, stopping before the first
    /// rule that finds the working text naming an existing file system
    /// entry. Returns the last line number found and the final text.
    ///
    /// Each turn is decided by [`Self::step`], given the file system's
    /// answer for the working text. Whatever it answers, the result is the
    /// state after some first `k` rules, all of whose patterns compile; an
    /// error names the first pattern reached that does not; and where every
    /// pattern compiles, the result is `Ok`.
    pub fn apply_transforms(&self, path: &str) -> (r: Result<
        (Option<LineNumber>, String),
        TransformError,
    >)
        ensures
            rules_compile(self.rules(), self.rules().len() as int) ==> r is Ok,
            match r {
                Ok((l, t)) => self.may_give(path@, (line_value(l), t@)),
                Err(e) => self.may_fail_with(e@),
            },
    {
        let ghost rules = self.rules();
        let ghost g = self.git_root@;
        let ghost h = opt_string_view(self.home);
        let n = self.transforms.len();
        let mut text = path.to_owned();
        let mut lineno: Option<usize> = None;
        let mut i: usize = 0;
        while i < n
            invariant
                rules == self.rules(),
                g == self.git_root@,
                h == opt_string_view(self.home),
                n == rules.len(),
                i <= n,
                rules_compile(rules, i as int),
                run_rules(rules, i as int, path@, g, h) == (lineno, text@),
            decreases n - i,
        {
            let exists = path_exists(text.as_str());
            match self.step(i, exists, lineno, text.as_str()) {
                Ok(None) => {
                    break;
                },
                Ok(Some((l, t))) => {
                    lineno = l;
                    text = t;
                },
                Err(e) => {
                    assert(!pattern_compiles(rules[i as int].0));
                    return Err(e);
                },
            }
            i += 1;
        }
        let found = match lineno {
            Some(v) => Some(LineNumber(v)),
            None => None,
        };
        assert(run_rules(rules, i as int, path@, g, h) == (line_value(found), text@));
        Ok((found, text))
    }
}

} // verus!
