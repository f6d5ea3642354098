//! Searching for a text with SQL's `LIKE`.

use crate::text::{ascii_lower, lowercase, same_ignoring_case};
use vstd::prelude::*;
use vstd::string::*;

verus! {

/// `LIKE`'s wildcards, and the character that takes their meaning from them.
pub open spec fn is_special(c: char) -> bool {
    c == '%' || c == '_' || c == '\\'
}

/// `c` as a pattern that stands for `c` alone.
pub open spec fn escaped_char(c: char) -> Seq<char> {
    if is_special(c) {
        seq!['\\', c]
    } else {
        seq![c]
    }
}

/// `s` as a pattern that stands for `s` alone.
pub open spec fn escaped(s: Seq<char>) -> Seq<char>
    decreases s.len(),
{
    if s.len() == 0 {
        Seq::empty()
    } else {
        escaped_char(s.first()) + escaped(s.drop_first())
    }
}

proof fn lemma_escaped_push(s: Seq<char>, c: char)
    ensures
        escaped(s.push(c)) == escaped(s) + escaped_char(c),
    decreases s.len(),
{
    if s.len() == 0 {
        assert(s.push(c).drop_first() =~= Seq::empty());
        assert(escaped(s.push(c).drop_first()) =~= Seq::empty());
        assert(s.push(c).first() == c);
        assert(escaped(s.push(c)) =~= escaped(s) + escaped_char(c));
    } else {
        assert(s.push(c).drop_first() =~= s.drop_first().push(c));
        lemma_escaped_push(s.drop_first(), c);
        assert(escaped(s.push(c)) =~= escaped(s) + escaped_char(c));
    }
}

/// The text with a backslash before every character that `LIKE` would read as
/// something else.
pub fn escape_like(pattern: &str) -> (r: String)
    ensures
        r@ == escaped(pattern@),
{
    let mut out: String = String::new();
    proof {
        assert(pattern@.take(0) =~= Seq::empty());
    }
    for c in it: pattern.chars()
        invariant
            it.seq() == pattern@,
            out@ == escaped(pattern@.take(it.index() as int)),
    {
        proof {
            let n = it.index() as int;
            assert(pattern@.take(n + 1) =~= pattern@.take(n).push(c));
            lemma_escaped_push(pattern@.take(n), c);
        }
        let ghost before = out@;
        if c == '%' || c == '_' || c == '\\' {
            out.push('\\');
        }
        out.push(c);
        assert(out@ =~= before + escaped_char(c));
    }
    assert(pattern@.take(pattern@.len() as int) =~= pattern@);
    out
}

/// The pattern for the texts in which `text` occurs.
pub fn containing(text: &str) -> (r: String)
    ensures
        r@ == "%"@ + escaped(text@) + "%"@,
{
    let mut pattern: String = "%".to_owned();
    pattern.append(escape_like(text).as_str());
    pattern.append("%");
    pattern
}

/// What `text LIKE pattern ESCAPE '\'` means: `%` stands for any text, `_` for
/// any character, a character after a backslash for itself, and any other for
/// itself, with ASCII letters in either case.
pub open spec fn like(pattern: Seq<char>, text: Seq<char>) -> bool
    decreases pattern.len(), text.len(),
{
    if pattern.len() == 0 {
        text.len() == 0
    } else if pattern.first() == '%' {
        ||| like(pattern.drop_first(), text)
        ||| text.len() > 0 && like(pattern, text.drop_first())
    } else if pattern.first() == '_' {
        text.len() > 0 && like(pattern.drop_first(), text.drop_first())
    } else if pattern.first() == '\\' {
        &&& pattern.len() > 1
        &&& text.len() > 0
        &&& ascii_lower(pattern[1]) == ascii_lower(text.first())
        &&& like(pattern.skip(2), text.drop_first())
    } else {
        &&& text.len() > 0
        &&& ascii_lower(pattern.first()) == ascii_lower(text.first())
        &&& like(pattern.drop_first(), text.drop_first())
    }
}

proof fn lemma_lowercase_cons(s: Seq<char>)
    requires
        s.len() > 0,
    ensures
        lowercase(s) == seq![ascii_lower(s.first())] + lowercase(s.drop_first()),
{
    assert(lowercase(s) =~= seq![ascii_lower(s.first())] + lowercase(s.drop_first()));
}

proof fn lemma_same_cons(s: Seq<char>, t: Seq<char>)
    requires
        s.len() > 0,
        t.len() > 0,
    ensures
        same_ignoring_case(s, t) == (ascii_lower(s.first()) == ascii_lower(t.first())
            && same_ignoring_case(s.drop_first(), t.drop_first())),
{
    lemma_lowercase_cons(s);
    lemma_lowercase_cons(t);
    if same_ignoring_case(s, t) {
        assert(lowercase(s).first() == lowercase(t).first());
        assert(lowercase(s.drop_first()) =~= lowercase(s).drop_first());
        assert(lowercase(t.drop_first()) =~= lowercase(t).drop_first());
    }
}

/// One literal character of a pattern.
proof fn lemma_like_char(c: char, rest: Seq<char>, text: Seq<char>)
    ensures
        like(escaped_char(c) + rest, text) == (text.len() > 0 && ascii_lower(c) == ascii_lower(
            text.first(),
        ) && like(rest, text.drop_first())),
{
    let pattern = escaped_char(c) + rest;
    if is_special(c) {
        assert(pattern[0] == '\\' && pattern[1] == c);
        assert(pattern.skip(2) =~= rest);
    } else {
        assert(pattern[0] == c);
        assert(pattern.drop_first() =~= rest);
    }
}

/// An escaped text in front of a pattern matches that text and nothing else.
proof fn lemma_like_escaped(s: Seq<char>, rest: Seq<char>, text: Seq<char>)
    ensures
        like(escaped(s) + rest, text) == (s.len() <= text.len() && same_ignoring_case(
            s,
            text.take(s.len() as int),
        ) && like(rest, text.skip(s.len() as int))),
    decreases s.len(),
{
    if s.len() == 0 {
        assert(escaped(s) + rest =~= rest);
        assert(text.skip(0) =~= text);
        assert(lowercase(s) =~= lowercase(text.take(0)));
    } else {
        let tail = escaped(s.drop_first()) + rest;
        assert(escaped(s) + rest =~= escaped_char(s.first()) + tail);
        lemma_like_char(s.first(), tail, text);
        if text.len() > 0 {
            lemma_like_escaped(s.drop_first(), rest, text.drop_first());
            if s.len() <= text.len() {
                let head = text.take(s.len() as int);
                lemma_same_cons(s, head);
                assert(head.drop_first() =~= text.drop_first().take(s.len() - 1));
                assert(text.drop_first().skip(s.len() - 1) =~= text.skip(s.len() as int));
            }
        }
    }
}

proof fn lemma_like_any(text: Seq<char>)
    ensures
        like("%"@, text),
    decreases text.len(),
{
    reveal_strlit("%");
    assert("%"@.drop_first() =~= Seq::empty());
    assert(like(Seq::empty(), text) == (text.len() == 0));
    if text.len() > 0 {
        lemma_like_any(text.drop_first());
    }
}

/// An escaped text has no wildcard left: it matches exactly the texts that
/// differ from it at most in the case of ASCII letters.
pub proof fn law_escaped_matches_itself_only(s: Seq<char>, text: Seq<char>)
    ensures
        like(escaped(s), text) <==> same_ignoring_case(s, text),
{
    lemma_like_escaped(s, Seq::empty(), text);
    assert(escaped(s) + Seq::empty() =~= escaped(s));
    if same_ignoring_case(s, text) {
        assert(lowercase(s).len() == s.len() && lowercase(text).len() == text.len());
        assert(text.take(s.len() as int) =~= text);
    }
    if like(escaped(s), text) {
        assert(text.take(s.len() as int) =~= text);
    }
}

proof fn lemma_like_after_any(rest: Seq<char>, text: Seq<char>)
    ensures
        like(seq!['%'] + rest, text) <==> exists|i: int|
            0 <= i <= text.len() && #[trigger] like(rest, text.skip(i)),
    decreases text.len(),
{
    let pattern = seq!['%'] + rest;
    assert(pattern.drop_first() =~= rest);
    assert(text.skip(0) =~= text);
    assert(like(rest, text.skip(0)) == like(rest, text));
    if text.len() > 0 {
        lemma_like_after_any(rest, text.drop_first());
        if like(pattern, text.drop_first()) {
            let i = choose|i: int|
                0 <= i <= text.len() - 1 && #[trigger] like(rest, text.drop_first().skip(i));
            assert(text.drop_first().skip(i) =~= text.skip(i + 1));
            assert(like(rest, text.skip(i + 1)));
        }
        if exists|i: int| 0 < i <= text.len() && #[trigger] like(rest, text.skip(i)) {
            let i = choose|i: int| 0 < i <= text.len() && #[trigger] like(rest, text.skip(i));
            assert(text.drop_first().skip(i - 1) =~= text.skip(i));
            assert(like(rest, text.drop_first().skip(i - 1)));
        }
    }
}

/// A search finds exactly the texts in which what was asked for occurs, with
/// ASCII letters in either case, whatever wildcards were asked for.
pub proof fn law_search_finds_occurrences(s: Seq<char>, text: Seq<char>)
    ensures
        like("%"@ + escaped(s) + "%"@, text) <==> exists|i: int|
            0 <= i <= text.len() - s.len() && same_ignoring_case(
                s,
                #[trigger] text.subrange(i, i + s.len()),
            ),
{
    reveal_strlit("%");
    let tail = escaped(s) + "%"@;
    assert("%"@ + escaped(s) + "%"@ =~= seq!['%'] + tail);
    lemma_like_after_any(tail, text);
    assert forall|i: int| 0 <= i <= text.len() implies #[trigger] like(tail, text.skip(i)) == (i
        <= text.len() - s.len() && same_ignoring_case(s, text.subrange(i, i + s.len()))) by {
        lemma_like_escaped(s, "%"@, text.skip(i));
        if i <= text.len() - s.len() {
            assert(text.skip(i).take(s.len() as int) =~= text.subrange(i, i + s.len()));
            lemma_like_any(text.skip(i).skip(s.len() as int));
        }
    }
    if exists|i: int|
        0 <= i <= text.len() - s.len() && same_ignoring_case(
            s,
            #[trigger] text.subrange(i, i + s.len()),
        ) {
        let i = choose|i: int|
            0 <= i <= text.len() - s.len() && same_ignoring_case(
                s,
                #[trigger] text.subrange(i, i + s.len()),
            );
        assert(like(tail, text.skip(i)));
    }
}

} // verus!
