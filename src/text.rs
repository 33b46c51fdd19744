//! Character-level helpers on strings.

use vstd::prelude::*;

verus! {

/// Relies on `String::push`: appends one character to the string.
#[verifier::external_body]
pub(crate) fn push_char(s: &mut String, c: char)
    ensures
        final(s)@ == old(s)@.push(c),
{
    s.push(c)
}

/// Appends the characters of `t`.
pub fn push_str(s: &mut String, t: &str)
    ensures
        final(s)@ == old(s)@ + t@,
{
    s.append(t);
}

/// The characters of `s`, one per element.
pub fn chars_of(s: &str) -> (r: Vec<char>)
    ensures
        r@ == s@,
{
    let n: usize = s.unicode_len();
    let mut out: Vec<char> = Vec::new();
    let mut i: usize = 0;
    while i < n
        invariant
            n == s@.len(),
            i <= n,
            out@ == s@.subrange(0, i as int),
        decreases n - i,
    {
        out.push(s.get_char(i));
        i += 1;
        assert(out@ =~= s@.subrange(0, i as int));
    }
    assert(out@ =~= s@);
    out
}

/// Whether `tok` occurs in `cs` at position `i`.
pub open spec fn occurs_at(cs: Seq<char>, i: int, tok: Seq<char>) -> bool {
    0 <= i && i + tok.len() <= cs.len() && cs.subrange(i, i + tok.len()) == tok
}

/// Whether `tok` occurs in `cs` at position `i`.
pub fn token_at(cs: &Vec<char>, i: usize, tok: &Vec<char>) -> (r: bool)
    ensures
        r == occurs_at(cs@, i as int, tok@),
{
    if i > cs.len() || tok.len() > cs.len() - i {
        return false;
    }
    let len = cs.len();
    let mut k: usize = 0;
    while k < tok.len()
        invariant
            len == cs@.len(),
            i + tok@.len() <= cs@.len(),
            k <= tok@.len(),
            forall|j: int| 0 <= j < k ==> cs@[i + j] == tok@[j],
        decreases tok.len() - k,
    {
        if cs[i + k] != tok[k] {
            assert(cs@.subrange(i as int, i + tok@.len())[k as int] != tok@[k as int]);
            return false;
        }
        k += 1;
    }
    assert(cs@.subrange(i as int, i + tok@.len()) =~= tok@);
    true
}

/// Whether `c` is white space: the characters that Unicode gives the
/// White_Space property.
pub open spec fn is_white_space(c: char) -> bool {
    ('\u{9}' <= c <= '\u{d}') || c == ' ' || c == '\u{85}' || c == '\u{a0}' || c == '\u{1680}'
        || ('\u{2000}' <= c <= '\u{200a}') || c == '\u{2028}' || c == '\u{2029}' || c
        == '\u{202f}' || c == '\u{205f}' || c == '\u{3000}'
}

/// Whether `c` is white space, as `char::is_whitespace` decides it.
pub fn white_space(c: char) -> (r: bool)
    ensures
        r == is_white_space(c),
{
    ('\u{9}' <= c && c <= '\u{d}') || c == ' ' || c == '\u{85}' || c == '\u{a0}' || c
        == '\u{1680}' || ('\u{2000}' <= c && c <= '\u{200a}') || c == '\u{2028}' || c
        == '\u{2029}' || c == '\u{202f}' || c == '\u{205f}' || c == '\u{3000}'
}

fn is_separator_char(c: char, on_white_space: bool) -> (r: bool)
    ensures
        r == is_separator(c, on_white_space),
{
    if on_white_space {
        white_space(c)
    } else {
        c == '\n'
    }
}

/// Whether `c` separates pieces: white space, or else a newline.
pub open spec fn is_separator(c: char, on_white_space: bool) -> bool {
    if on_white_space {
        is_white_space(c)
    } else {
        c == '\n'
    }
}

/// `s` split at each separator, as `str::split` splits it: `k` separators
/// give `k + 1` pieces.
pub open spec fn split_pieces(s: Seq<char>, on_white_space: bool) -> Seq<Seq<char>>
    decreases s.len(),
{
    if s.len() == 0 {
        seq![Seq::empty()]
    } else if is_separator(s.last(), on_white_space) {
        split_pieces(s.drop_last(), on_white_space).push(Seq::empty())
    } else {
        let p = split_pieces(s.drop_last(), on_white_space);
        p.update(p.len() - 1, p.last().push(s.last()))
    }
}

pub open spec fn non_empty(s: Seq<char>) -> bool {
    s.len() > 0
}

/// The non-empty pieces of `s`, in order.
pub open spec fn nonempty_pieces(s: Seq<char>, on_white_space: bool) -> Seq<Seq<char>> {
    split_pieces(s, on_white_space).filter(|l: Seq<char>| non_empty(l))
}

/// The non-empty pieces of `text` between separators, in order.
pub fn split_nonempty(text: &str, on_white_space: bool) -> (r: Vec<String>)
    ensures
        r.deep_view() == nonempty_pieces(text@, on_white_space),
{
    reveal(Seq::filter);
    let ghost pred = |l: Seq<char>| non_empty(l);
    let n: usize = text.unicode_len();
    let mut out: Vec<String> = Vec::new();
    let mut current = String::new();
    let mut i: usize = 0;
    proof {
        assert(text@.subrange(0, 0) =~= Seq::<char>::empty());
        assert(split_pieces(Seq::<char>::empty(), on_white_space).drop_last() =~= Seq::<Seq<char>>::empty());
    }
    while i < n
        invariant
            n == text@.len(),
            i <= n,
            pred == (|l: Seq<char>| non_empty(l)),
            split_pieces(text@.subrange(0, i as int), on_white_space).len() >= 1,
            out.deep_view() == split_pieces(text@.subrange(0, i as int), on_white_space).drop_last().filter(pred),
            current@ == split_pieces(text@.subrange(0, i as int), on_white_space).last(),
        decreases n - i,
    {
        reveal(Seq::filter);
        let c = text.get_char(i);
        let ghost prefix = text@.subrange(0, i as int);
        let ghost longer = text@.subrange(0, i + 1);
        assert(longer.drop_last() =~= prefix);
        let ghost p = split_pieces(prefix, on_white_space);
        if is_separator_char(c, on_white_space) {
            assert(split_pieces(longer, on_white_space) == p.push(Seq::empty()));
            assert(p.push(Seq::<char>::empty()).drop_last() =~= p);
            assert(p.drop_last().push(p.last()) =~= p);
            assert(split_pieces(longer, on_white_space).drop_last() == p);
            assert(p.filter(pred) == if pred(p.last()) {
                p.drop_last().filter(pred).push(p.last())
            } else {
                p.drop_last().filter(pred)
            });
            let ghost prev = out.deep_view();
            if current.unicode_len() > 0 {
                let ghost cur = current@;
                out.push(current);
                assert(out.deep_view() =~= prev.push(cur));
            }
            current = String::new();
        } else {
            assert(split_pieces(longer, on_white_space) == p.update(p.len() - 1, p.last().push(c)));
            assert(p.update(p.len() - 1, p.last().push(c)).drop_last() =~= p.drop_last());
            push_char(&mut current, c);
        }
        i += 1;
    }
    let ghost p = split_pieces(text@.subrange(0, n as int), on_white_space);
    assert(text@.subrange(0, n as int) =~= text@);
    assert(p.drop_last().push(p.last()) =~= p);
    if current.unicode_len() > 0 {
        out.push(current);
    }
    out
}

} // verus!
