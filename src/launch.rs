//! The command lines that the tool launches: the search path handed to
//! every command, and the editor invocation with its file arguments.

use crate::placeholders::opt_str_view;
use crate::text::{nonempty_pieces, push_char, push_str, split_nonempty};
use crate::transforms::{
    line_value, rules_compile, LineNumber, TransformError, TransformsApplicator,
};
use vstd::prelude::*;

verus! {

/// The value of an optional entry, as a list of zero or one entries.
pub open spec fn present(o: Option<Seq<char>>) -> Seq<Seq<char>> {
    match o {
        Some(s) => seq![s],
        None => Seq::empty(),
    }
}

/// An entry that is set and not empty.
pub open spec fn set_non_empty(o: Option<Seq<char>>) -> Option<Seq<char>> {
    match o {
        Some(s) => if s.len() > 0 {
            Some(s)
        } else {
            None
        },
        None => None,
    }
}

/// `parts` joined with `:` between each two.
pub open spec fn join_colon(parts: Seq<Seq<char>>) -> Seq<char>
    decreases parts.len(),
{
    if parts.len() == 0 {
        Seq::empty()
    } else if parts.len() == 1 {
        parts[0]
    } else {
        join_colon(parts.drop_last()) + seq![':'] + parts.last()
    }
}

/// The entries of the search path: the config scripts directory, the shared
/// scripts directory, then the inherited search path where it is set and
/// not empty.
pub open spec fn search_path_parts(
    config_scripts: Option<Seq<char>>,
    share_scripts: Option<Seq<char>>,
    inherited: Option<Seq<char>>,
) -> Seq<Seq<char>> {
    present(config_scripts) + present(share_scripts) + present(set_non_empty(inherited))
}

fn push_part(out: &mut String, parts: Ghost<Seq<Seq<char>>>, first: bool, part: &str)
    requires
        old(out)@ == join_colon(parts@),
        first == (parts@.len() == 0),
    ensures
        final(out)@ == join_colon(parts@.push(part@)),
{
    let ghost ps = parts@;
    assert(ps.push(part@).drop_last() =~= ps);
    if !first {
        push_char(out, ':');
    } else {
        assert(out@ =~= Seq::<char>::empty());
    }
    push_str(out, part);
    assert(ps.len() > 0 ==> out@ =~= join_colon(ps) + seq![':'] + part@);
    assert(ps.len() == 0 ==> out@ =~= part@);
}

/// The search path for launched commands: the scripts directories that
/// exist, ahead of the inherited search path, joined with `:`.
pub fn search_path(
    config_scripts: Option<&str>,
    share_scripts: Option<&str>,
    inherited: Option<&str>,
) -> (r: String)
    ensures
        r@ == join_colon(
            search_path_parts(
                opt_str_view(config_scripts),
                opt_str_view(share_scripts),
                opt_str_view(inherited),
            ),
        ),
{
    let mut out = String::new();
    let ghost mut parts: Seq<Seq<char>> = Seq::empty();
    let mut first = true;
    assert(out@ =~= join_colon(parts));
    match config_scripts {
        Some(c) => {
            push_part(&mut out, Ghost(parts), first, c);
            first = false;
            proof {
                parts = parts.push(c@);
            }
        },
        None => {},
    }
    match share_scripts {
        Some(s) => {
            push_part(&mut out, Ghost(parts), first, s);
            first = false;
            proof {
                parts = parts.push(s@);
            }
        },
        None => {},
    }
    match inherited {
        Some(p) => {
            if p.unicode_len() > 0 {
                push_part(&mut out, Ghost(parts), first, p);
                proof {
                    parts = parts.push(p@);
                }
            }
        },
        None => {},
    }
    assert(parts =~= search_path_parts(
        opt_str_view(config_scripts),
        opt_str_view(share_scripts),
        opt_str_view(inherited),
    ));
    out
}

/// The decimal digits of `n`, without leading zeros.
pub open spec fn decimal(n: nat) -> Seq<char>
    decreases n,
{
    if n < 10 {
        seq![digit_char(n)]
    } else {
        decimal(n / 10).push(digit_char(n % 10))
    }
}

pub open spec fn digit_char(d: nat) -> char {
    ((d + 48) as u8) as char
}

fn push_decimal(out: &mut String, n: usize)
    ensures
        final(out)@ == old(out)@ + decimal(n as nat),
    decreases n,
{
    if n >= 10 {
        push_decimal(out, n / 10);
    }
    let d: u8 = (n % 10) as u8 + 48;
    let c = d as char;
    let ghost before = out@;
    push_char(out, c);
    assert(out@ =~= old(out)@ + decimal(n as nat));
}

/// The arguments for one transformed candidate: its path, then `+N` where a
/// line number `N` was found.
pub open spec fn candidate_words(found: (Option<usize>, Seq<char>)) -> Seq<Seq<char>> {
    match found.0 {
        Some(n) => seq![found.1, seq!['+'] + decimal(n as nat)],
        None => seq![found.1],
    }
}

/// The arguments for all transformed candidates, in order.
pub open spec fn all_candidate_words(found: Seq<(Option<usize>, Seq<char>)>) -> Seq<Seq<char>>
    decreases found.len(),
{
    if found.len() == 0 {
        Seq::empty()
    } else {
        all_candidate_words(found.drop_last()) + candidate_words(found.last())
    }
}

/// Appends the arguments for one transformed candidate.
pub fn push_candidate(out: &mut Vec<String>, lineno: Option<LineNumber>, path: String)
    ensures
        final(out).deep_view() == old(out).deep_view() + candidate_words((line_value(lineno), path@)),
{
    let ghost before = out.deep_view();
    let ghost p = path@;
    out.push(path);
    match lineno {
        Some(LineNumber(n)) => {
            let mut arg = String::new();
            push_char(&mut arg, '+');
            push_decimal(&mut arg, n);
            out.push(arg);
        },
        None => {},
    }
    assert(out.deep_view() =~= before + candidate_words((line_value(lineno), p)));
}

/// What can go wrong while preparing the editor invocation.
#[derive(Debug, Clone)]
pub enum LaunchError {
    /// The launch command has no words.
    EmptyCmd,
    /// A transform failed on a candidate.
    Transform(TransformError),
}

/// Whether each of `found` is what the transforms of `ta` may give for the
/// candidate at its position.
pub open spec fn all_may_give(
    ta: TransformsApplicator,
    files: Seq<String>,
    found: Seq<(Option<usize>, Seq<char>)>,
) -> bool {
    forall|i: int| 0 <= i < found.len() ==> ta.may_give(#[trigger] files[i]@, found[i])
}

/// The editor command line: the words of `cmd`, then the candidates. With
/// transforms, each candidate is transformed and followed by `+N` where a
/// line number `N` was found; without, the candidates are passed as they
/// are.
pub fn editor_argv(cmd: &str, files: &Vec<String>, transforms: Option<&TransformsApplicator>) -> (r:
    Result<Vec<String>, LaunchError>)
    ensures
        nonempty_pieces(cmd@, true).len() == 0 <==> r is Err && r->Err_0 is EmptyCmd,
        transforms is None ==> (r is Ok <==> nonempty_pieces(cmd@, true).len() > 0),
        match r {
            Ok(v) => match transforms {
                None => v.deep_view() == nonempty_pieces(cmd@, true) + files.deep_view(),
                Some(ta) => exists|found: Seq<(Option<usize>, Seq<char>)>|
                    found.len() == files@.len() && (forall|i: int|
                        0 <= i < files@.len() ==> ta.may_give(#[trigger] files@[i]@, found[i])) && v.deep_view() == nonempty_pieces(cmd@, true)
                        + all_candidate_words(found),
            },
            Err(LaunchError::EmptyCmd) => true,
            Err(LaunchError::Transform(e)) => match transforms {
                None => false,
                // The error of the first candidate whose transforms failed.
                Some(ta) => ta.may_fail_with(e@) && exists|found: Seq<(Option<usize>, Seq<char>)>|
                    found.len() < files@.len() && #[trigger] all_may_give(*ta, files@, found),
            },
        },
        match transforms {
            Some(ta) => rules_compile(ta.rules(), ta.rules().len() as int) && nonempty_pieces(
                cmd@,
                true,
            ).len() > 0 ==> r is Ok,
            None => true,
        },
{
    let mut out = split_nonempty(cmd, true);
    if out.len() == 0 {
        return Err(LaunchError::EmptyCmd);
    }
    let ghost words = out.deep_view();
    match transforms {
        None => {
            let mut i: usize = 0;
            while i < files.len()
                invariant
                    i <= files@.len(),
                    out.deep_view() == words + files.deep_view().subrange(0, i as int),
                decreases files.len() - i,
            {
                let ghost prev = out.deep_view();
                out.push(files[i].clone());
                assert(out.deep_view() =~= prev.push(files@[i as int]@));
                i += 1;
                assert(out.deep_view() =~= words + files.deep_view().subrange(0, i as int));
            }
            assert(files.deep_view().subrange(0, files@.len() as int) =~= files.deep_view());
        },
        Some(ta) => {
            let ghost mut found: Seq<(Option<usize>, Seq<char>)> = Seq::empty();
            let mut i: usize = 0;
            while i < files.len()
                invariant
                    i <= files@.len(),
                    found.len() == i,
                    words == nonempty_pieces(cmd@, true),
                    words.len() > 0,
                    transforms == Some(ta),
                    forall|j: int|
                        0 <= j < i ==> ta.may_give(#[trigger] files@[j]@, found[j]),
                    out.deep_view() == words + all_candidate_words(found),
                decreases files.len() - i,
            {
                match ta.apply_transforms(files[i].as_str()) {
                    Ok((lineno, path)) => {
                        proof {
                            let f = (line_value(lineno), path@);
                            assert(found.push(f).drop_last() =~= found);
                            found = found.push(f);
                        }
                        push_candidate(&mut out, lineno, path);
                        assert(out.deep_view() =~= words + all_candidate_words(found));
                    },
                    Err(e) => {
                        assert(found.len() < files@.len());
                        assert(all_may_give(*ta, files@, found));
                        return Err(LaunchError::Transform(e));
                    },
                }
                i += 1;
            }
        },
    }
    Ok(out)
}

} // verus!
