//! Values inside double-quoted YAML scalars.

use crate::path::display_text;
#[allow(unused_imports)]
use crate::path;
use std::path::Path;
use vstd::prelude::*;

verus! {

/// How one character is written inside double quotes: a backslash and a quote
/// are preceded by a backslash.
pub open spec fn escaped_char(c: char) -> Seq<char> {
    if c == '\\' || c == '"' {
        seq!['\\', c]
    } else {
        seq![c]
    }
}

/// How a text is written inside double quotes.
pub open spec fn escaped(s: Seq<char>) -> Seq<char>
    decreases s.len(),
{
    if s.len() == 0 {
        seq![]
    } else {
        escaped_char(s.first()) + escaped(s.drop_first())
    }
}

/// A text with every backslash turned into a slash.
pub open spec fn slashed(s: Seq<char>) -> Seq<char> {
    s.map_values(
        |c: char|
            if c == '\\' {
                '/'
            } else {
                c
            },
    )
}

/// Reads the rest of a double-quoted text, whose opening quote has been read:
/// the text up to the closing quote, a backslash giving the quote or backslash
/// after it, and what follows the closing quote.
pub open spec fn read_quoted(s: Seq<char>) -> Option<(Seq<char>, Seq<char>)>
    decreases s.len(),
{
    if s.len() == 0 {
        None
    } else if s.first() == '"' {
        Some((seq![], s.drop_first()))
    } else if s.first() == '\\' {
        if s.len() >= 2 && (s[1] == '\\' || s[1] == '"') {
            match read_quoted(s.skip(2)) {
                Some((text, rest)) => Some((seq![s[1]] + text, rest)),
                None => None,
            }
        } else {
            None
        }
    } else {
        match read_quoted(s.drop_first()) {
            Some((text, rest)) => Some((seq![s.first()] + text, rest)),
            None => None,
        }
    }
}

/// An escaped text between double quotes is read back as it was, and what
/// follows the closing quote is left as it was: no text can close its own
/// quotes.
pub proof fn law_escaped_text_reads_back(s: Seq<char>, rest: Seq<char>)
    ensures
        read_quoted(escaped(s) + seq!['"'] + rest) == Some((s, rest)),
    decreases s.len(),
{
    let written = escaped(s) + seq!['"'] + rest;
    if s.len() == 0 {
        assert(written.drop_first() =~= rest);
        assert(s =~= seq![]);
    } else {
        let c = s.first();
        let tail = s.drop_first();
        law_escaped_text_reads_back(tail, rest);
        let after = escaped(tail) + seq!['"'] + rest;
        assert(written =~= escaped_char(c) + after);
        assert(seq![c] + tail =~= s);
        if c == '\\' || c == '"' {
            assert(written.skip(2) =~= after);
        } else {
            assert(written.drop_first() =~= after);
        }
    }
}

/// Different texts are written differently.
pub proof fn law_escaping_is_injective(a: Seq<char>, b: Seq<char>)
    requires
        escaped(a) == escaped(b),
    ensures
        a == b,
{
    law_escaped_text_reads_back(a, seq![]);
    law_escaped_text_reads_back(b, seq![]);
}

/// Turning backslashes into slashes leaves no backslash, and changes nothing
/// the second time.
pub proof fn law_slashed_text_has_no_backslash(s: Seq<char>)
    ensures
        forall|i: int| 0 <= i < slashed(s).len() ==> #[trigger] slashed(s)[i] != '\\',
        slashed(slashed(s)) == slashed(s),
{
    assert(slashed(slashed(s)) =~= slashed(s));
}

/// Texts are escaped piece by piece.
pub proof fn lemma_escaped_add(a: Seq<char>, b: Seq<char>)
    ensures
        escaped(a + b) == escaped(a) + escaped(b),
    decreases a.len(),
{
    if a.len() == 0 {
        assert(a + b =~= b);
        assert(escaped(a) + escaped(b) =~= escaped(b));
    } else {
        assert((a + b).drop_first() =~= a.drop_first() + b);
        lemma_escaped_add(a.drop_first(), b);
        assert(escaped(a + b) =~= escaped(a) + escaped(b));
    }
}

/// A text without quotes and backslashes is written as it is.
pub proof fn law_plain_text_is_not_escaped(s: Seq<char>)
    requires
        forall|i: int| 0 <= i < s.len() ==> #[trigger] s[i] != '\\' && s[i] != '"',
    ensures
        escaped(s) == s,
    decreases s.len(),
{
    if s.len() > 0 {
        let tail = s.drop_first();
        assert(s[0] != '\\' && s[0] != '"');
        assert forall|i: int| 0 <= i < tail.len() implies #[trigger] tail[i] != '\\' && tail[i]
            != '"' by {
            assert(tail[i] == s[i + 1]);
        }
        law_plain_text_is_not_escaped(tail);
        assert(seq![s.first()] + tail =~= s);
    } else {
        assert(s =~= seq![]);
    }
}

/// Escapes a text for use inside double quotes.
pub fn yaml_escape(value: &str) -> (res: String)
    ensures
        res@ == escaped(value@),
{
    let mut res = String::new();
    for c in it: value.chars()
        invariant
            it.seq() == value@,
            res@ == escaped(value@.take(it.index())),
    {
        let ghost before = value@.take(it.index());
        assert(c == value@[it.index()]);
        assert(value@.take(it.index() + 1) =~= before + seq![c]);
        proof {
            lemma_escaped_add(before, seq![c]);
            reveal_with_fuel(escaped, 2);
            assert(escaped(seq![c]) =~= escaped_char(c));
        }
        if c == '\\' || c == '"' {
            res.push('\\');
        }
        res.push(c);
        assert(res@ =~= escaped(before) + escaped_char(c));
    }
    assert(value@.take(value@.len() as int) =~= value@);
    res
}

/// A text with every backslash turned into a slash.
pub fn slash_text(value: &str) -> (res: String)
    ensures
        res@ == slashed(value@),
{
    let mut res = String::new();
    for c in it: value.chars()
        invariant
            it.seq() == value@,
            res@ == slashed(value@.take(it.index())),
    {
        assert(c == value@[it.index()]);
        let ghost before = value@.take(it.index());
        assert(value@.take(it.index() + 1) =~= before.push(c));
        if c == '\\' {
            res.push('/');
        } else {
            res.push(c);
        }
        assert(res@ =~= slashed(before.push(c)));
    }
    assert(value@.take(value@.len() as int) =~= value@);
    res
}

/// A path for use inside double quotes: with slashes in place of backslashes,
/// and escaped.
pub fn yaml_path(path: &Path) -> (res: String)
    ensures
        res@ == escaped(slashed(path::path_text(path))),
{
    yaml_escape(slash_text(display_text(path).as_str()).as_str())
}

/// Escaping goes character by character: a quote and a backslash gain a
/// backslash before them, every other character stays as it is, and nothing
/// else happens.
pub proof fn law_escaping_goes_character_by_character(s: Seq<char>, c: char)
    ensures
        escaped(seq![]) == Seq::<char>::empty(),
        c == '"' ==> escaped(s.push(c)) == escaped(s) + seq!['\\', '"'],
        c == '\\' ==> escaped(s.push(c)) == escaped(s) + seq!['\\', '\\'],
        c != '"' && c != '\\' ==> escaped(s.push(c)) == escaped(s) + seq![c],
{
    reveal_with_fuel(escaped, 2);
    assert(s.push(c) =~= s + seq![c]);
    lemma_escaped_add(s, seq![c]);
    assert(seq![c].drop_first() =~= seq![]);
    assert(escaped(seq![c]) =~= escaped_char(c));
}

/// Each backslash becomes a slash in its place, and every other character
/// stays where it is.
pub proof fn law_only_backslashes_become_slashes(s: Seq<char>, i: int)
    requires
        0 <= i < s.len(),
    ensures
        slashed(s).len() == s.len(),
        s[i] == '\\' ==> slashed(s)[i] == '/',
        s[i] != '\\' ==> slashed(s)[i] == s[i],
{
}

/// What the library escapes can be read back from between double quotes, and
/// the text of a path is escaped with slashes for its backslashes.
pub proof fn law_quoted_values_read_back(
    value: &str,
    path: &Path,
    text: String,
    path_text: String,
    rest: Seq<char>,
)
    requires
        call_ensures(yaml_escape, (value,), text),
        call_ensures(yaml_path, (path,), path_text),
    ensures
        read_quoted(text@ + seq!['"'] + rest) == Some((value@, rest)),
        read_quoted(path_text@ + seq!['"'] + rest) == Some(
            (slashed(path::path_text(path)), rest),
        ),
        (forall|i: int| 0 <= i < value@.len() ==> #[trigger] value@[i] != '\\' && value@[i] != '"')
            ==> text@ == value@,
{
    law_escaped_text_reads_back(value@, rest);
    law_escaped_text_reads_back(slashed(path::path_text(path)), rest);
    if forall|i: int| 0 <= i < value@.len() ==> #[trigger] value@[i] != '\\' && value@[i] != '"' {
        law_plain_text_is_not_escaped(value@);
    }
}

} // verus!
