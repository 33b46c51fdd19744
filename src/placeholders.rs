//! Expansion of the `${gitroot}` and `${home}` placeholders in replacement
//! templates.

use crate::text::{chars_of, occurs_at, push_char, push_str, token_at};
use vstd::prelude::*;

verus! {

/// How one character of an expanded value is written: a backslash is
/// doubled, a dollar sign gets a backslash before it.
pub open spec fn escaped_char(c: char) -> Seq<char> {
    if c == '\\' {
        seq!['\\', '\\']
    } else if c == '$' {
        seq!['\\', '$']
    } else {
        seq![c]
    }
}

/// `t` with every character escaped.
pub open spec fn escaped(t: Seq<char>) -> Seq<char>
    decreases t.len(),
{
    if t.len() == 0 {
        Seq::empty()
    } else {
        escaped(t.drop_last()) + escaped_char(t.last())
    }
}

/// The placeholder `${name}`.
pub open spec fn placeholder(name: Seq<char>) -> Seq<char> {
    seq!['$', '{'] + name + seq!['}']
}

pub open spec fn gitroot_name() -> Seq<char> {
    seq!['g', 'i', 't', 'r', 'o', 'o', 't']
}

pub open spec fn home_name() -> Seq<char> {
    seq!['h', 'o', 'm', 'e']
}

/// The text that `${home}` expands to: the escaped home directory, or
/// nothing where none is known.
pub open spec fn home_text(home: Option<Seq<char>>) -> Seq<char> {
    match home {
        Some(h) => escaped(h),
        None => Seq::empty(),
    }
}

/// The expansion of the template `s` from position `i` on. `quoting` holds
/// inside an escaped placeholder `\${...}`, whose text is copied as it
/// stands through its closing brace.
pub open spec fn expand_from(
    s: Seq<char>,
    i: int,
    quoting: bool,
    git_root: Seq<char>,
    home: Option<Seq<char>>,
) -> Seq<char>
    decreases s.len() - i,
{
    if i < 0 || i >= s.len() {
        Seq::empty()
    } else if quoting {
        seq![s[i]] + expand_from(s, i + 1, s[i] != '}', git_root, home)
    } else if s[i] == '\\' && i + 2 < s.len() && s[i + 1] == '$' && s[i + 2] == '{' {
        // `\${` loses its backslash and opens a quoted stretch.
        seq!['$', '{'] + expand_from(s, i + 3, true, git_root, home)
    } else if s[i] == '\\' && i + 1 < s.len() && s[i + 1] == '$' {
        seq!['\\', '$'] + expand_from(s, i + 2, false, git_root, home)
    } else if occurs_at(s, i, placeholder(gitroot_name())) {
        escaped(git_root) + expand_from(s, i + 10, false, git_root, home)
    } else if occurs_at(s, i, placeholder(home_name())) {
        home_text(home) + expand_from(s, i + 7, false, git_root, home)
    } else {
        seq![s[i]] + expand_from(s, i + 1, false, git_root, home)
    }
}

/// The expansion of the whole template `s`.
pub open spec fn expand(s: Seq<char>, git_root: Seq<char>, home: Option<Seq<char>>) -> Seq<char> {
    expand_from(s, 0, false, git_root, home)
}

pub open spec fn opt_str_view(o: Option<&str>) -> Option<Seq<char>> {
    match o {
        Some(s) => Some(s@),
        None => None,
    }
}

/// Appends `t` with every character escaped.
fn push_escaped(out: &mut String, t: &str)
    ensures
        final(out)@ == old(out)@ + escaped(t@),
{
    let n: usize = t.unicode_len();
    let mut i: usize = 0;
    while i < n
        invariant
            n == t@.len(),
            i <= n,
            out@ == old(out)@ + escaped(t@.subrange(0, i as int)),
        decreases n - i,
    {
        let c = t.get_char(i);
        let ghost before = out@;
        if c == '\\' {
            push_char(out, '\\');
            push_char(out, '\\');
        } else if c == '$' {
            push_char(out, '\\');
            push_char(out, '$');
        } else {
            push_char(out, c);
        }
        assert(t@.subrange(0, i + 1).drop_last() =~= t@.subrange(0, i as int));
        assert(out@ =~= before + escaped_char(c));
        i += 1;
    }
    assert(t@.subrange(0, n as int) =~= t@);
}

/// Expands the placeholders of a replacement template.
///
/// `${gitroot}` becomes `git_root` and `${home}` becomes `home` (nothing
/// where `home` is `None`), each with its backslashes and dollar signs
/// escaped. An escaped placeholder `\${...}` is written as `${...}`, its
/// text unexpanded. Everything else is copied as it stands.
pub fn process_replacement_string(replacement: &str, git_root: &str, home: Option<&str>) -> (r:
    String)
    ensures
        r@ == expand(replacement@, git_root@, opt_str_view(home)),
{
    let ghost g = git_root@;
    let ghost h = opt_str_view(home);
    let cs = chars_of(replacement);
    let git_tok: Vec<char> = vec!['$', '{', 'g', 'i', 't', 'r', 'o', 'o', 't', '}'];
    let home_tok: Vec<char> = vec!['$', '{', 'h', 'o', 'm', 'e', '}'];
    assert(git_tok@ =~= placeholder(gitroot_name()));
    assert(home_tok@ =~= placeholder(home_name()));
    let n = cs.len();
    let mut out = String::new();
    let mut quoting = false;
    let mut i: usize = 0;
    while i < n
        invariant
            n == cs@.len(),
            cs@ == replacement@,
            git_tok@ == placeholder(gitroot_name()),
            home_tok@ == placeholder(home_name()),
            g == git_root@,
            h == opt_str_view(home),
            i <= n,
            expand(cs@, g, h) == out@ + expand_from(cs@, i as int, quoting, g, h),
        decreases n - i,
    {
        let c = cs[i];
        let ghost before = out@;
        let ghost i0 = i as int;
        let ghost q0 = quoting;
        if quoting {
            push_char(&mut out, c);
            quoting = c != '}';
            i += 1;
        } else if c == '\\' && n - i > 2 && cs[i + 1] == '$' && cs[i + 2] == '{' {
            push_char(&mut out, '$');
            push_char(&mut out, '{');
            quoting = true;
            i += 3;
        } else if c == '\\' && n - i > 1 && cs[i + 1] == '$' {
            push_char(&mut out, '\\');
            push_char(&mut out, '$');
            i += 2;
        } else if token_at(&cs, i, &git_tok) {
            push_escaped(&mut out, git_root);
            i += 10;
        } else if token_at(&cs, i, &home_tok) {
            match home {
                Some(hd) => push_escaped(&mut out, hd),
                None => {},
            }
            i += 7;
        } else {
            push_char(&mut out, c);
            i += 1;
        }
        assert(expand_from(cs@, i0, q0, g, h) =~= out@.subrange(
            before.len() as int,
            out@.len() as int,
        ) + expand_from(cs@, i as int, quoting, g, h));
        assert(out@ =~= before + out@.subrange(before.len() as int, out@.len() as int));
    }
    assert(out@ =~= out@ + expand_from(cs@, i as int, quoting, g, h));
    out
}


proof fn lemma_escaped_concat(a: Seq<char>, b: Seq<char>)
    ensures
        escaped(a + b) == escaped(a) + escaped(b),
    decreases b.len(),
{
    if b.len() == 0 {
        assert(a + b =~= a);
        assert(escaped(b) =~= Seq::<char>::empty());
        assert(escaped(a) + escaped(b) =~= escaped(a));
    } else {
        lemma_escaped_concat(a, b.drop_last());
        assert((a + b).drop_last() =~= a + b.drop_last());
        assert(escaped(a) + escaped(b) =~= escaped(a) + escaped(b.drop_last()) + escaped_char(
            b.last(),
        ));
    }
}

/// `${gitroot}` expands to the escaped git root and to nothing more: the
/// inserted text is not scanned again for placeholders, and every dollar
/// sign of the git root comes out with a backslash before it.
pub proof fn lemma_gitroot_expansion_escaped(
    git_root: Seq<char>,
    home: Option<Seq<char>>,
    k: int,
)
    requires
        0 <= k < git_root.len(),
        git_root[k] == '$',
    ensures
        expand(placeholder(gitroot_name()), git_root, home) == escaped(git_root),
        exists|p: int|
            0 <= p && p + 1 < escaped(git_root).len() && #[trigger] escaped(git_root)[p] == '\\'
                && escaped(git_root)[p + 1] == '$',
{
    let t = placeholder(gitroot_name());
    assert(t.len() == 10);
    assert(t.subrange(0, 10) =~= t);
    assert(expand_from(t, 10, false, git_root, home) =~= Seq::<char>::empty());
    assert(expand_from(t, 0, false, git_root, home) =~= escaped(git_root));
    let pre = git_root.subrange(0, k);
    let post = git_root.subrange(k + 1, git_root.len() as int);
    assert(git_root =~= pre + seq!['$'] + post);
    lemma_escaped_concat(pre + seq!['$'], post);
    lemma_escaped_concat(pre, seq!['$']);
    let d = seq!['$'];
    assert(d.drop_last() =~= Seq::<char>::empty());
    assert(escaped(d.drop_last()) =~= Seq::<char>::empty());
    assert(d.last() == '$');
    assert(escaped(d) == escaped(d.drop_last()) + escaped_char(d.last()));
    assert(escaped(d) =~= seq!['\\', '$']);
    let p = escaped(pre).len() as int;
    assert(escaped(git_root)[p] == '\\');
    assert(escaped(git_root)[p + 1] == '$');
}


proof fn lemma_occurs_at_suffix(a: Seq<char>, b: Seq<char>, j: int, tok: Seq<char>)
    requires
        0 <= j,
    ensures
        occurs_at(a + b, a.len() + j, tok) == occurs_at(b, j, tok),
{
    if j + tok.len() <= b.len() {
        assert((a + b).subrange(a.len() + j, a.len() + j + tok.len()) =~= b.subrange(
            j,
            j + tok.len(),
        ));
    }
}

/// The expansion from a position in `b` does not depend on what precedes
/// `b`: the scan only looks ahead.
proof fn lemma_expand_suffix(
    a: Seq<char>,
    b: Seq<char>,
    j: int,
    quoting: bool,
    git_root: Seq<char>,
    home: Option<Seq<char>>,
)
    requires
        0 <= j,
    ensures
        expand_from(a + b, a.len() + j, quoting, git_root, home) == expand_from(
            b,
            j,
            quoting,
            git_root,
            home,
        ),
    decreases b.len() - j,
{
    let s = a + b;
    let i = a.len() + j;
    if j < b.len() {
        assert(s[i] == b[j]);
        if j + 1 < b.len() {
            assert(s[i + 1] == b[j + 1]);
        }
        if j + 2 < b.len() {
            assert(s[i + 2] == b[j + 2]);
        }
        lemma_occurs_at_suffix(a, b, j, placeholder(gitroot_name()));
        lemma_occurs_at_suffix(a, b, j, placeholder(home_name()));
        lemma_expand_suffix(a, b, j + 1, b[j] != '}', git_root, home);
        lemma_expand_suffix(a, b, j + 1, false, git_root, home);
        if j + 2 <= b.len() {
            lemma_expand_suffix(a, b, j + 2, false, git_root, home);
        }
        if j + 3 <= b.len() {
            lemma_expand_suffix(a, b, j + 3, true, git_root, home);
        }
        assert(placeholder(gitroot_name()).len() == 10);
        assert(placeholder(home_name()).len() == 7);
        if j + 7 <= b.len() {
            lemma_expand_suffix(a, b, j + 7, false, git_root, home);
        }
        if j + 10 <= b.len() {
            lemma_expand_suffix(a, b, j + 10, false, git_root, home);
        }
    }
}

proof fn lemma_quoted_run(
    s: Seq<char>,
    start: int,
    body: Seq<char>,
    k: int,
    git_root: Seq<char>,
    home: Option<Seq<char>>,
)
    requires
        0 <= start,
        0 <= k <= body.len(),
        start + body.len() + 1 <= s.len(),
        s.subrange(start, start + body.len()) == body,
        s[start + body.len()] == '}',
        forall|i: int| 0 <= i < body.len() ==> #[trigger] body[i] != '}',
    ensures
        expand_from(s, start + k, true, git_root, home) == body.subrange(k, body.len() as int)
            + seq!['}'] + expand_from(s, start + body.len() + 1, false, git_root, home),
    decreases body.len() - k,
{
    let i = start + k;
    if k == body.len() {
        assert(body.subrange(k, body.len() as int) =~= Seq::<char>::empty());
        assert(expand_from(s, i, true, git_root, home) == seq![s[i]] + expand_from(
            s,
            i + 1,
            false,
            git_root,
            home,
        ));
    } else {
        assert(s[i] == s.subrange(start, start + body.len())[k]);
        assert(s[i] == body[k]);
        lemma_quoted_run(s, start, body, k + 1, git_root, home);
        assert(body.subrange(k, body.len() as int) =~= seq![body[k]] + body.subrange(
            k + 1,
            body.len() as int,
        ));
    }
}

/// An escaped placeholder `\${body}` comes out as the literal `${body}`,
/// whatever the git root and the home directory, and the rest of the
/// template expands as it would alone.
pub proof fn lemma_escaped_placeholder_literal(
    body: Seq<char>,
    rest: Seq<char>,
    git_root: Seq<char>,
    home: Option<Seq<char>>,
)
    requires
        forall|i: int| 0 <= i < body.len() ==> #[trigger] body[i] != '}',
    ensures
        expand(seq!['\\', '$', '{'] + body + seq!['}'] + rest, git_root, home) == seq!['$', '{']
            + body + seq!['}'] + expand(rest, git_root, home),
{
    let head = seq!['\\', '$', '{'] + body + seq!['}'];
    let s = head + rest;
    assert(s.subrange(3, 3 + body.len() as int) =~= body);
    assert(s[3 + body.len() as int] == '}');
    assert(s[0] == '\\' && s[1] == '$' && s[2] == '{');
    lemma_quoted_run(s, 3, body, 0, git_root, home);
    assert(body.subrange(0, body.len() as int) =~= body);
    lemma_expand_suffix(head, rest, 0, false, git_root, home);
    assert(head.len() == 3 + body.len() + 1);
    assert(expand_from(s, 0, false, git_root, home) == seq!['$', '{'] + expand_from(
        s,
        3,
        true,
        git_root,
        home,
    ));
    assert(seq!['$', '{'] + (body + seq!['}'] + expand(rest, git_root, home)) =~= seq!['$', '{']
        + body + seq!['}'] + expand(rest, git_root, home));
}

} // verus!
