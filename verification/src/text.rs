//! Plain text as sequences of characters: trimming and searching.

use vstd::prelude::*;

verus! {

// ---------------------------------------------------------------------------
// Character classes
// ---------------------------------------------------------------------------

/// The characters with the Unicode property `White_Space`.
pub open spec fn is_white_space(c: char) -> bool {
    let n = c as u32;
    ||| 0x9 <= n <= 0xd
    ||| n == 0x20
    ||| n == 0x85
    ||| n == 0xa0
    ||| n == 0x1680
    ||| 0x2000 <= n <= 0x200a
    ||| n == 0x2028
    ||| n == 0x2029
    ||| n == 0x202f
    ||| n == 0x205f
    ||| n == 0x3000
}

/// `char::is_whitespace` of the standard library: it answers whether the
/// character has the Unicode property `White_Space`.
pub assume_specification[ char::is_whitespace ](c: char) -> (b: bool)
    ensures
        b == is_white_space(c),
;

/// `String::push` of the standard library: it appends the character.
pub assume_specification[ String::push ](s: &mut String, c: char)
    ensures
        final(s)@ == old(s)@.push(c),
;

/// The kinds of characters that are trimmed off the ends of a text.
#[derive(Clone, Copy)]
pub enum CharClass {
    /// Unicode white space.
    White,
    /// `[` and `]`.
    Bracket,
}

impl CharClass {
    pub open spec fn has(self, c: char) -> bool {
        match self {
            CharClass::White => is_white_space(c),
            CharClass::Bracket => c == '[' || c == ']',
        }
    }

    pub fn contains(self, c: char) -> (b: bool)
        ensures
            b == self.has(c),
    {
        match self {
            CharClass::White => c.is_whitespace(),
            CharClass::Bracket => c == '[' || c == ']',
        }
    }
}

/// A text without the leading characters of a class.
pub open spec fn trim_start_of(s: Seq<char>, class: CharClass) -> Seq<char>
    decreases s.len(),
{
    if s.len() > 0 && class.has(s.first()) {
        trim_start_of(s.drop_first(), class)
    } else {
        s
    }
}

/// A text without the trailing characters of a class.
pub open spec fn trim_end_of(s: Seq<char>, class: CharClass) -> Seq<char>
    decreases s.len(),
{
    if s.len() > 0 && class.has(s.last()) {
        trim_end_of(s.drop_last(), class)
    } else {
        s
    }
}

/// A text without the leading and trailing characters of a class.
pub open spec fn trim_of(s: Seq<char>, class: CharClass) -> Seq<char> {
    trim_end_of(trim_start_of(s, class), class)
}

/// A text without leading and trailing white space.
pub open spec fn trim(s: Seq<char>) -> Seq<char> {
    trim_of(s, CharClass::White)
}

pub proof fn lemma_trim_start_skips(s: Seq<char>, class: CharClass, n: int)
    requires
        0 <= n <= s.len(),
        forall|i: int| 0 <= i < n ==> class.has(#[trigger] s[i]),
        n < s.len() ==> !class.has(s[n]),
    ensures
        trim_start_of(s, class) == s.skip(n),
    decreases n,
{
    if n == 0 {
        assert(s.skip(0) =~= s);
    } else {
        assert(class.has(s[0]));
        let rest = s.drop_first();
        assert forall|i: int| 0 <= i < n - 1 implies class.has(#[trigger] rest[i]) by {
            assert(rest[i] == s[i + 1]);
        }
        lemma_trim_start_skips(rest, class, n - 1);
        assert(rest.skip(n - 1) =~= s.skip(n));
    }
}

pub proof fn lemma_trim_end_takes(s: Seq<char>, class: CharClass, n: int)
    requires
        0 <= n <= s.len(),
        forall|i: int| n <= i < s.len() ==> class.has(#[trigger] s[i]),
        0 < n ==> !class.has(s[n - 1]),
    ensures
        trim_end_of(s, class) == s.take(n),
    decreases s.len() - n,
{
    if n == s.len() {
        assert(s.take(n) =~= s);
    } else {
        assert(class.has(s[s.len() - 1]));
        let rest = s.drop_last();
        assert forall|i: int| n <= i < rest.len() implies class.has(#[trigger] rest[i]) by {
            assert(rest[i] == s[i]);
        }
        lemma_trim_end_takes(rest, class, n);
        assert(rest.take(n) =~= s.take(n));
    }
}

/// A text whose ends are outside the class is left as it is.
pub proof fn lemma_trim_of_bare(s: Seq<char>, class: CharClass)
    requires
        s.len() > 0 ==> !class.has(s.first()) && !class.has(s.last()),
    ensures
        trim_of(s, class) == s,
{
}

/// What trimming leaves: a middle piece of the text, whose ends are outside
/// the class, between two runs of characters of the class.
pub proof fn lemma_trim_of_shape(s: Seq<char>, class: CharClass) -> (bounds: (int, int))
    ensures
        0 <= bounds.0 <= bounds.1 <= s.len(),
        trim_of(s, class) == s.subrange(bounds.0, bounds.1),
        forall|i: int| 0 <= i < bounds.0 ==> class.has(#[trigger] s[i]),
        forall|i: int| bounds.1 <= i < s.len() ==> class.has(#[trigger] s[i]),
        bounds.0 < bounds.1 ==> !class.has(s[bounds.0]) && !class.has(s[bounds.1 - 1]),
{
    let from = lemma_trim_start_shape(s, class);
    let t = s.skip(from);
    let kept = lemma_trim_end_shape(t, class);
    assert(t.take(kept) =~= s.subrange(from, from + kept));
    assert forall|i: int| from + kept <= i < s.len() implies class.has(#[trigger] s[i]) by {
        assert(t[i - from] == s[i]);
    }
    if kept > 0 {
        assert(t[kept - 1] == s[from + kept - 1]);
        assert(from < s.len());
    }
    (from, from + kept)
}

proof fn lemma_trim_start_shape(s: Seq<char>, class: CharClass) -> (from: int)
    ensures
        0 <= from <= s.len(),
        trim_start_of(s, class) == s.skip(from),
        forall|i: int| 0 <= i < from ==> class.has(#[trigger] s[i]),
        from < s.len() ==> !class.has(s[from]),
    decreases s.len(),
{
    if s.len() > 0 && class.has(s.first()) {
        let rest = s.drop_first();
        let n = lemma_trim_start_shape(rest, class);
        assert(rest.skip(n) =~= s.skip(n + 1));
        assert forall|i: int| 0 <= i < n + 1 implies class.has(#[trigger] s[i]) by {
            if i > 0 {
                assert(rest[i - 1] == s[i]);
            }
        }
        n + 1
    } else {
        assert(s.skip(0) =~= s);
        0
    }
}

proof fn lemma_trim_end_shape(s: Seq<char>, class: CharClass) -> (to: int)
    ensures
        0 <= to <= s.len(),
        trim_end_of(s, class) == s.take(to),
        forall|i: int| to <= i < s.len() ==> class.has(#[trigger] s[i]),
        0 < to ==> !class.has(s[to - 1]),
    decreases s.len(),
{
    if s.len() > 0 && class.has(s.last()) {
        let rest = s.drop_last();
        let n = lemma_trim_end_shape(rest, class);
        assert(rest.take(n) =~= s.take(n));
        assert forall|i: int| n <= i < s.len() implies class.has(#[trigger] s[i]) by {
            if i < s.len() - 1 {
                assert(rest[i] == s[i]);
            }
        }
        n
    } else {
        assert(s.take(s.len() as int) =~= s);
        s.len() as int
    }
}

// ---------------------------------------------------------------------------
// Characters and strings
// ---------------------------------------------------------------------------

/// The characters of a string.
pub fn chars_of(s: &str) -> (chars: Vec<char>)
    ensures
        chars@ == s@,
{
    let mut chars: Vec<char> = Vec::new();
    for c in it: s.chars()
        invariant
            it.seq() == s@,
            chars@ == s@.take(it.index()),
    {
        assert(c == s@[it.index()]);
        chars.push(c);
        assert(s@.take(it.index() + 1) =~= s@.take(it.index()).push(c));
    }
    chars
}

/// The string of the characters from position `from` up to position `to`.
pub(crate) fn text_between(chars: &[char], from: usize, to: usize) -> (s: String)
    requires
        from <= to <= chars@.len(),
    ensures
        s@ == chars@.subrange(from as int, to as int),
{
    let mut s = String::new();
    let mut i: usize = from;
    while i < to
        invariant
            from <= i <= to <= chars@.len(),
            s@ == chars@.subrange(from as int, i as int),
        decreases to - i,
    {
        s.push(chars[i]);
        i = i + 1;
        assert(s@ =~= chars@.subrange(from as int, i as int));
    }
    s
}

/// The bounds of what is left of `chars[from..to]` when the characters of a
/// class are trimmed off both ends.
pub(crate) fn trim_bounds(chars: &[char], from: usize, to: usize, class: CharClass) -> (bounds: (
    usize,
    usize,
))
    requires
        from <= to <= chars@.len(),
    ensures
        from <= bounds.0 <= bounds.1 <= to,
        chars@.subrange(bounds.0 as int, bounds.1 as int) == trim_of(
            chars@.subrange(from as int, to as int),
            class,
        ),
{
    let mut start: usize = from;
    while start < to && class.contains(chars[start])
        invariant
            from <= start <= to <= chars@.len(),
            forall|i: int| from <= i < start ==> class.has(#[trigger] chars@[i]),
        decreases to - start,
    {
        start = start + 1;
    }
    let ghost s = chars@.subrange(from as int, to as int);
    let ghost t = chars@.subrange(start as int, to as int);
    proof {
        lemma_trim_start_skips(s, class, start - from);
        assert(s.skip(start - from) =~= t);
    }
    let mut end: usize = to;
    while end > start && class.contains(chars[end - 1])
        invariant
            from <= start <= end <= to <= chars@.len(),
            forall|i: int| end <= i < to ==> class.has(#[trigger] chars@[i]),
        decreases end,
    {
        end = end - 1;
    }
    proof {
        lemma_trim_end_takes(t, class, end - start);
        assert(t.take(end - start) =~= chars@.subrange(start as int, end as int));
    }
    (start, end)
}

/// A text without leading and trailing white space.
pub fn trim_text(s: &str) -> (res: String)
    ensures
        res@ == trim(s@),
{
    let chars = chars_of(s);
    let bounds = trim_bounds(chars.as_slice(), 0, chars.len(), CharClass::White);
    assert(chars@.subrange(0, chars@.len() as int) =~= s@);
    text_between(chars.as_slice(), bounds.0, bounds.1)
}

/// Whether two strings hold the same characters.
pub fn same_text(a: &str, b: &str) -> (res: bool)
    ensures
        res == (a@ == b@),
{
    let x = chars_of(a);
    let y = chars_of(b);
    if x.len() != y.len() {
        return false;
    }
    let mut i: usize = 0;
    while i < x.len()
        invariant
            i <= x@.len(),
            x@.len() == y@.len(),
            a@ == x@,
            b@ == y@,
            forall|j: int| 0 <= j < i ==> x@[j] == y@[j],
        decreases x@.len() - i,
    {
        if x[i] != y[i] {
            return false;
        }
        i = i + 1;
    }
    assert(a@ =~= b@);
    true
}

// ---------------------------------------------------------------------------
// Searching
// ---------------------------------------------------------------------------

/// Whether `piece` stands in `s` from position `at` on.
pub open spec fn occurs_at(s: Seq<char>, piece: Seq<char>, at: int) -> bool {
    0 <= at && at + piece.len() <= s.len() && s.subrange(at, at + piece.len()) == piece
}

/// The position of the first `c` in a text, or its length where there is none.
pub open spec fn first_index_of(s: Seq<char>, c: char) -> int
    decreases s.len(),
{
    if s.len() == 0 || s.first() == c {
        0
    } else {
        1 + first_index_of(s.drop_first(), c)
    }
}

/// The position of the last `c` in a text, or -1 where there is none.
pub open spec fn last_index_of(s: Seq<char>, c: char) -> int
    decreases s.len(),
{
    if s.len() == 0 {
        -1
    } else if s.last() == c {
        s.len() - 1
    } else {
        last_index_of(s.drop_last(), c)
    }
}

/// The part of a text before the first `c`, or all of it.
pub open spec fn before_first(s: Seq<char>, c: char) -> Seq<char> {
    s.take(first_index_of(s, c))
}

pub proof fn lemma_first_index_is(s: Seq<char>, c: char, n: int)
    requires
        0 <= n <= s.len(),
        forall|i: int| 0 <= i < n ==> #[trigger] s[i] != c,
        n < s.len() ==> s[n] == c,
    ensures
        first_index_of(s, c) == n,
    decreases n,
{
    if n > 0 {
        assert(s[0] != c);
        let rest = s.drop_first();
        assert forall|i: int| 0 <= i < n - 1 implies #[trigger] rest[i] != c by {
            assert(rest[i] == s[i + 1]);
        }
        lemma_first_index_is(rest, c, n - 1);
    }
}

pub proof fn lemma_first_index_bounds(s: Seq<char>, c: char)
    ensures
        0 <= first_index_of(s, c) <= s.len(),
        forall|i: int| 0 <= i < first_index_of(s, c) ==> #[trigger] s[i] != c,
        first_index_of(s, c) < s.len() ==> s[first_index_of(s, c)] == c,
    decreases s.len(),
{
    if s.len() > 0 && s.first() != c {
        let rest = s.drop_first();
        lemma_first_index_bounds(rest, c);
        assert forall|i: int| 0 <= i < first_index_of(s, c) implies #[trigger] s[i] != c by {
            if i > 0 {
                assert(rest[i - 1] == s[i]);
            }
        }
    }
}

pub proof fn lemma_last_index_is(s: Seq<char>, c: char, n: int)
    requires
        -1 <= n < s.len(),
        forall|i: int| n < i < s.len() ==> #[trigger] s[i] != c,
        0 <= n ==> s[n] == c,
    ensures
        last_index_of(s, c) == n,
    decreases s.len(),
{
    if s.len() > 0 && n != s.len() - 1 {
        assert(s[s.len() - 1] != c);
        let rest = s.drop_last();
        assert forall|i: int| n < i < rest.len() implies #[trigger] rest[i] != c by {
            assert(rest[i] == s[i]);
        }
        lemma_last_index_is(rest, c, n);
    }
}

pub proof fn lemma_last_index_bounds(s: Seq<char>, c: char)
    ensures
        -1 <= last_index_of(s, c) < s.len(),
        forall|i: int| last_index_of(s, c) < i < s.len() ==> #[trigger] s[i] != c,
        0 <= last_index_of(s, c) ==> s[last_index_of(s, c)] == c,
    decreases s.len(),
{
    if s.len() > 0 && s.last() != c {
        let rest = s.drop_last();
        lemma_last_index_bounds(rest, c);
        assert forall|i: int| last_index_of(s, c) < i < s.len() implies #[trigger] s[i] != c by {
            if i < s.len() - 1 {
                assert(rest[i] == s[i]);
            }
        }
    }
}

/// The position of the first `c` in `chars[from..to]`, or `to`.
pub(crate) fn find_first(chars: &[char], from: usize, to: usize, c: char) -> (pos: usize)
    requires
        from <= to <= chars@.len(),
    ensures
        from <= pos <= to,
        pos - from == first_index_of(chars@.subrange(from as int, to as int), c),
{
    let mut pos: usize = from;
    while pos < to && chars[pos] != c
        invariant
            from <= pos <= to <= chars@.len(),
            forall|i: int| from <= i < pos ==> #[trigger] chars@[i] != c,
        decreases to - pos,
    {
        pos = pos + 1;
    }
    proof {
        lemma_first_index_is(chars@.subrange(from as int, to as int), c, pos - from);
    }
    pos
}

/// The position of the last `c` in `chars[from..to]`.
pub(crate) fn find_last(chars: &[char], from: usize, to: usize, c: char) -> (res: Option<usize>)
    requires
        from <= to <= chars@.len(),
    ensures
        match res {
            Some(pos) => from <= pos < to && pos - from == last_index_of(
                chars@.subrange(from as int, to as int),
                c,
            ),
            None => last_index_of(chars@.subrange(from as int, to as int), c) == -1,
        },
{
    let ghost s = chars@.subrange(from as int, to as int);
    let mut end: usize = to;
    while end > from
        invariant
            from <= end <= to <= chars@.len(),
            s == chars@.subrange(from as int, to as int),
            forall|i: int| end <= i < to ==> #[trigger] chars@[i] != c,
        decreases end,
    {
        if chars[end - 1] == c {
            proof {
                lemma_last_index_is(s, c, end - 1 - from);
            }
            return Some(end - 1);
        }
        end = end - 1;
    }
    proof {
        lemma_last_index_is(s, c, -1);
    }
    None
}

/// Whether `prefix` stands in `chars` from position `at` on.
pub(crate) fn stands_at(chars: &[char], at: usize, prefix: &str) -> (res: bool)
    requires
        at <= chars@.len(),
    ensures
        res == prefix@.is_prefix_of(chars@.skip(at as int)),
{
    let p = chars_of(prefix);
    let ghost rest = chars@.skip(at as int);
    let total: usize = chars.len();
    if p.len() > total - at {
        return false;
    }
    let mut i: usize = 0;
    while i < p.len()
        invariant
            total == chars@.len(),
            at <= total,
            i <= p@.len() <= total - at,
            p@ == prefix@,
            rest == chars@.skip(at as int),
            forall|j: int| 0 <= j < i ==> p@[j] == #[trigger] rest[j],
        decreases p@.len() - i,
    {
        assert(rest[i as int] == chars@[at + i]);
        if p[i] != chars[at + i] {
            assert(rest.subrange(0, p@.len() as int)[i as int] != p@[i as int]);
            return false;
        }
        i = i + 1;
    }
    assert(p@ =~= rest.subrange(0, p@.len() as int));
    true
}

// ---------------------------------------------------------------------------
// Laws
// ---------------------------------------------------------------------------

/// White space is made of twenty-five characters: tab, line feed, vertical tab,
/// form feed, carriage return, space, next line, and the spaces and separators
/// of Unicode. Brackets are the two square ones.
pub proof fn law_trimmed_characters(c: char)
    ensures
        CharClass::White.has(c) <==> (c == '\t' || c == '\n' || c == '\u{b}' || c == '\u{c}' || c
            == '\r' || c == ' ' || c == '\u{85}' || c == '\u{a0}' || c == '\u{1680}' || c
            == '\u{2000}' || c == '\u{2001}' || c == '\u{2002}' || c == '\u{2003}' || c
            == '\u{2004}' || c == '\u{2005}' || c == '\u{2006}' || c == '\u{2007}' || c
            == '\u{2008}' || c == '\u{2009}' || c == '\u{200a}' || c == '\u{2028}' || c
            == '\u{2029}' || c == '\u{202f}' || c == '\u{205f}' || c == '\u{3000}'),
        CharClass::White.has(c) <==> is_white_space(c),
        CharClass::Bracket.has(c) <==> (c == '[' || c == ']'),
{
}

/// Trimming takes off all characters of a class at both ends, however many, and
/// keeps all between them, also characters of the class.
pub proof fn law_trimming_keeps_the_middle(
    lead: Seq<char>,
    middle: Seq<char>,
    trail: Seq<char>,
    class: CharClass,
)
    requires
        forall|i: int| 0 <= i < lead.len() ==> class.has(#[trigger] lead[i]),
        forall|i: int| 0 <= i < trail.len() ==> class.has(#[trigger] trail[i]),
        middle.len() > 0 ==> !class.has(middle[0]) && !class.has(middle[middle.len() - 1]),
    ensures
        trim_of(lead + middle + trail, class) == middle,
        class is White ==> trim(lead + middle + trail) == middle,
{
    let s = lead + middle + trail;
    let a = lead.len() as int;
    let b = a + middle.len();
    let n = if middle.len() > 0 {
        a
    } else {
        s.len() as int
    };
    assert forall|i: int| 0 <= i < n implies class.has(#[trigger] s[i]) by {
        if i < a {
            assert(s[i] == lead[i]);
        } else {
            assert(s[i] == trail[i - b]);
        }
    }
    if middle.len() > 0 {
        assert(s[a] == middle[0]);
    }
    lemma_trim_start_skips(s, class, n);
    let rest = s.skip(n);
    assert forall|i: int| middle.len() <= i < rest.len() implies class.has(#[trigger] rest[i]) by {
        assert(rest[i] == trail[i - middle.len()]);
    }
    if middle.len() > 0 {
        assert(rest[middle.len() - 1] == middle[middle.len() - 1]);
        lemma_trim_end_takes(rest, class, middle.len() as int);
        assert(rest.take(middle.len() as int) =~= middle);
    } else {
        assert(rest =~= middle);
        lemma_trim_end_takes(rest, class, 0);
    }
}

/// What trimming leaves is empty exactly where every character is of the class.
pub proof fn law_blank_text_is_trimmed_away(s: Seq<char>, class: CharClass)
    ensures
        trim_of(s, class).len() == 0 <==> forall|i: int|
            0 <= i < s.len() ==> class.has(#[trigger] s[i]),
{
    let bounds = lemma_trim_of_shape(s, class);
    if bounds.0 < bounds.1 {
        assert(!class.has(s[bounds.0]));
    } else {
        assert forall|i: int| 0 <= i < s.len() implies class.has(#[trigger] s[i]) by {
            if i < bounds.0 {
            } else {
                assert(bounds.1 <= i);
            }
        }
    }
}

/// A piece stands at a position exactly where its characters do, one by one.
pub proof fn law_piece_stands_character_by_character(s: Seq<char>, piece: Seq<char>, at: int)
    requires
        0 <= at,
        at + piece.len() <= s.len(),
    ensures
        occurs_at(s, piece, at) <==> forall|i: int|
            0 <= i < piece.len() ==> #[trigger] piece[i] == s[at + i],
{
    let part = s.subrange(at, at + piece.len());
    if occurs_at(s, piece, at) {
        assert forall|i: int| 0 <= i < piece.len() implies #[trigger] piece[i] == s[at + i] by {
            assert(part[i] == s[at + i]);
        }
    } else if forall|i: int| 0 <= i < piece.len() ==> #[trigger] piece[i] == s[at + i] {
        assert(part =~= piece);
    }
}

/// The library trims white space alone, at both ends and nowhere else.
pub proof fn law_trimmed_text_is_the_middle(
    s: &str,
    lead: Seq<char>,
    middle: Seq<char>,
    trail: Seq<char>,
    res: String,
)
    requires
        call_ensures(trim_text, (s,), res),
        s@ == lead + middle + trail,
        forall|i: int| 0 <= i < lead.len() ==> is_white_space(#[trigger] lead[i]),
        forall|i: int| 0 <= i < trail.len() ==> is_white_space(#[trigger] trail[i]),
        middle.len() > 0 ==> !is_white_space(middle[0]) && !is_white_space(
            middle[middle.len() - 1],
        ),
    ensures
        res@ == middle,
{
    law_trimming_keeps_the_middle(lead, middle, trail, CharClass::White);
}

} // verus!
