//! Leaving services out of a protobuf contract.

use crate::text::{chars_of, stands_at, text_between};
#[allow(unused_imports)]
use crate::text;
use vstd::prelude::*;

verus! {

/// The first position, not before `from`, at which `needle` stands in `s`.
pub open spec fn find_from(s: Seq<char>, needle: Seq<char>, from: int) -> Option<int>
    decreases s.len() + 1 - from,
{
    if from < 0 || from + needle.len() > s.len() {
        None
    } else if text::occurs_at(s, needle, from) {
        Some(from)
    } else {
        find_from(s, needle, from + 1)
    }
}

/// The line that opens a service.
pub open spec fn service_head(name: Seq<char>) -> Seq<char> {
    "service "@ + name + " {"@
}

/// The position after the brace that closes a block, where `depth` braces are
/// open at `from`. A closing brace with none open closes the block too.
pub open spec fn block_end(s: Seq<char>, from: int, depth: nat) -> Option<int>
    decreases s.len() - from,
{
    if from < 0 || from >= s.len() {
        None
    } else if s[from] == '{' {
        block_end(s, from + 1, depth + 1)
    } else if s[from] == '}' {
        if depth <= 1 {
            Some(from + 1)
        } else {
            block_end(s, from + 1, (depth - 1) as nat)
        }
    } else {
        block_end(s, from + 1, depth)
    }
}

/// A text without the line break that it may start with.
pub open spec fn after_line_break(s: Seq<char>) -> Seq<char> {
    if s.len() >= 2 && s[0] == '\r' && s[1] == '\n' {
        s.skip(2)
    } else if s.len() >= 1 && s[0] == '\n' {
        s.skip(1)
    } else {
        s
    }
}

/// A contract without the first block that defines the named service, and
/// without the line break after it. Where there is no such block, or it is not
/// closed, the contract is left as it is.
pub open spec fn without_service(proto: Seq<char>, name: Seq<char>) -> Seq<char> {
    match find_from(proto, service_head(name), 0) {
        None => proto,
        Some(start) => match block_end(proto, start, 0) {
            None => proto,
            Some(end) => proto.take(start) + after_line_break(proto.skip(end)),
        },
    }
}

fn find_needle(s: &[char], needle: &str) -> (res: Option<usize>)
    ensures
        match res {
            Some(at) => at + needle@.len() <= s@.len() && find_from(s@, needle@, 0) == Some(
                at as int,
            ),
            None => find_from(s@, needle@, 0) is None,
        },
{
    let total: usize = s.len();
    let mut at: usize = 0;
    while at <= total
        invariant
            total == s@.len(),
            at <= total + 1,
            find_from(s@, needle@, at as int) == find_from(s@, needle@, 0),
        decreases total + 1 - at,
    {
        proof {
            let rest = s@.skip(at as int);
            if needle@.is_prefix_of(rest) {
                assert(rest.subrange(0, needle@.len() as int) =~= s@.subrange(
                    at as int,
                    at + needle@.len(),
                ));
            } else if at + needle@.len() <= total {
                assert(rest.subrange(0, needle@.len() as int) =~= s@.subrange(
                    at as int,
                    at + needle@.len(),
                ));
            }
        }
        if stands_at(s, at, needle) {
            return Some(at);
        }
        if at == total {
            return None;
        }
        at = at + 1;
    }
    None
}

fn find_block_end(s: &[char], start: usize) -> (res: Option<usize>)
    requires
        start <= s@.len(),
    ensures
        match res {
            Some(end) => start <= end <= s@.len() && block_end(s@, start as int, 0) == Some(
                end as int,
            ),
            None => block_end(s@, start as int, 0) is None,
        },
{
    let total: usize = s.len();
    let mut depth: usize = 0;
    let mut i: usize = start;
    while i < total
        invariant
            total == s@.len(),
            start <= i <= total,
            depth <= i - start,
            block_end(s@, i as int, depth as nat) == block_end(s@, start as int, 0),
        decreases total - i,
    {
        if s[i] == '{' {
            depth = depth + 1;
        } else if s[i] == '}' {
            if depth <= 1 {
                return Some(i + 1);
            }
            depth = depth - 1;
        }
        i = i + 1;
    }
    None
}

/// A contract without the named service.
pub fn remove_service_block(proto: &str, service_name: &str) -> (res: String)
    ensures
        res@ == without_service(proto@, service_name@),
{
    let mut head = "service ".to_owned();
    head.append(service_name);
    head.append(" {");
    let s = chars_of(proto);
    let total: usize = s.len();
    match find_needle(s.as_slice(), head.as_str()) {
        None => proto.to_owned(),
        Some(start) => match find_block_end(s.as_slice(), start) {
            None => proto.to_owned(),
            Some(end) => {
                let mut from: usize = end;
                if total - end >= 2 && s[end] == '\r' && s[end + 1] == '\n' {
                    from = end + 2;
                } else if total - end >= 1 && s[end] == '\n' {
                    from = end + 1;
                }
                let mut res = text_between(s.as_slice(), 0, start);
                let rest = text_between(s.as_slice(), from, total);
                proof {
                    let tail = proto@.skip(end as int);
                    assert(rest@ =~= after_line_break(tail));
                    assert(res@ =~= proto@.take(start as int));
                }
                res.append(rest.as_str());
                res
            },
        },
    }
}

// ---------------------------------------------------------------------------
// Laws
// ---------------------------------------------------------------------------

/// How many braces are open after a text, where `depth` were before it; none
/// where a brace is closed that was not opened.
pub open spec fn depth_after(s: Seq<char>, depth: nat) -> Option<nat>
    decreases s.len(),
{
    if s.len() == 0 {
        Some(depth)
    } else if s.first() == '{' {
        depth_after(s.drop_first(), depth + 1)
    } else if s.first() == '}' {
        if depth == 0 {
            None
        } else {
            depth_after(s.drop_first(), (depth - 1) as nat)
        }
    } else {
        depth_after(s.drop_first(), depth)
    }
}

/// Whether every brace of a text is closed in it, and none that is not opened
/// in it.
pub open spec fn is_balanced(s: Seq<char>) -> bool {
    depth_after(s, 0) == Some(0nat)
}

proof fn lemma_block_end_skips(s: Seq<char>, from: int, body: Seq<char>, low: nat, depth: nat)
    requires
        0 <= from,
        from + body.len() <= s.len(),
        s.subrange(from, from + body.len()) == body,
        low >= 1,
        depth_after(body, depth) is Some,
    ensures
        block_end(s, from, (low + depth) as nat) == block_end(
            s,
            from + body.len(),
            (low + depth_after(body, depth).unwrap()) as nat,
        ),
    decreases body.len(),
{
    if body.len() > 0 {
        let rest = body.drop_first();
        assert(s[from] == body[0]);
        assert(s.subrange(from + 1, from + 1 + rest.len()) =~= rest);
        if body[0] == '{' {
            lemma_block_end_skips(s, from + 1, rest, low, depth + 1);
        } else if body[0] == '}' {
            lemma_block_end_skips(s, from + 1, rest, low, (depth - 1) as nat);
        } else {
            lemma_block_end_skips(s, from + 1, rest, low, depth);
        }
    }
}

proof fn lemma_block_end_plain(s: Seq<char>, from: int, to: int, depth: nat)
    requires
        0 <= from <= to <= s.len(),
        forall|i: int| from <= i < to ==> #[trigger] s[i] != '{' && s[i] != '}',
    ensures
        block_end(s, from, depth) == block_end(s, to, depth),
    decreases to - from,
{
    if from < to {
        assert(s[from] != '{' && s[from] != '}');
        lemma_block_end_plain(s, from + 1, to, depth);
    }
}

proof fn lemma_find_is(s: Seq<char>, needle: Seq<char>, from: int, at: int)
    requires
        0 <= from <= at,
        text::occurs_at(s, needle, at),
        forall|i: int| from <= i < at ==> !#[trigger] text::occurs_at(s, needle, i),
    ensures
        find_from(s, needle, from) == Some(at),
    decreases at - from,
{
    if from < at {
        assert(!text::occurs_at(s, needle, from));
        lemma_find_is(s, needle, from + 1, at);
    }
}

proof fn lemma_find_none(s: Seq<char>, needle: Seq<char>, from: int)
    requires
        0 <= from,
        forall|i: int| from <= i ==> !#[trigger] text::occurs_at(s, needle, i),
    ensures
        find_from(s, needle, from) is None,
    decreases s.len() + 1 - from,
{
    if from + needle.len() <= s.len() {
        assert(!text::occurs_at(s, needle, from));
        lemma_find_none(s, needle, from + 1);
    }
}

/// A service with a balanced body is taken out together with the line break
/// after it, and everything else is kept: what stood before and after the
/// service then stands together.
pub proof fn law_service_is_taken_out(
    before: Seq<char>,
    name: Seq<char>,
    body: Seq<char>,
    line_break: Seq<char>,
    after: Seq<char>,
)
    requires
        forall|i: int| 0 <= i < name.len() ==> #[trigger] name[i] != '{' && name[i] != '}',
        is_balanced(body),
        line_break == seq!['\n'] || line_break == seq!['\r', '\n'],
        forall|i: int|
            0 <= i < before.len() ==> !#[trigger] text::occurs_at(
                before + service_head(name) + body + seq!['}'] + line_break + after,
                service_head(name),
                i,
            ),
    ensures
        without_service(
            before + service_head(name) + body + seq!['}'] + line_break + after,
            name,
        ) == before + after,
{
    let head = service_head(name);
    let s = before + head + body + seq!['}'] + line_break + after;
    let start = before.len() as int;
    let inner = start + head.len();
    let close = inner + body.len();
    assert(s.subrange(start, inner) =~= head);
    lemma_find_is(s, head, 0, start);
    reveal_strlit("service ");
    reveal_strlit(" {");
    assert(head.last() == '{');
    assert(s[inner - 1] == '{');
    assert forall|i: int| start <= i < inner - 1 implies #[trigger] s[i] != '{' && s[i] != '}' by {
        assert(s[i] == head[i - start]);
        if i - start < 8 {
            assert(head[i - start] == "service "@[i - start]);
        } else if i - start < 8 + name.len() {
            assert(head[i - start] == name[i - start - 8]);
        } else {
            assert(head[i - start] == " {"@[i - start - 8 - name.len()]);
        }
    }
    lemma_block_end_plain(s, start, inner - 1, 0);
    assert(block_end(s, inner - 1, 0) == block_end(s, inner, 1));
    assert(s.subrange(inner, close) =~= body);
    lemma_block_end_skips(s, inner, body, 1, 0);
    assert(s[close] == '}');
    assert(block_end(s, close, 1) == Some(close + 1));
    let tail = s.skip(close + 1);
    assert(tail =~= line_break + after);
    assert(tail[0] == line_break[0]);
    assert(after_line_break(tail) =~= after);
    assert(s.take(start) =~= before);
}

/// A contract without the service is left as it is.
pub proof fn law_missing_service_changes_nothing(proto: Seq<char>, name: Seq<char>)
    requires
        forall|i: int| !#[trigger] text::occurs_at(proto, service_head(name), i),
    ensures
        without_service(proto, name) == proto,
{
    lemma_find_none(proto, service_head(name), 0);
}

/// A service opens with the word `service`, a space, its name, a space and an
/// opening brace.
pub proof fn law_service_heads_are_spelled_out(name: Seq<char>)
    ensures
        service_head(name) == seq!['s', 'e', 'r', 'v', 'i', 'c', 'e', ' '] + name + seq![' ', '{'],
{
    reveal_strlit("service ");
    reveal_strlit(" {");
    assert("service "@ =~= seq!['s', 'e', 'r', 'v', 'i', 'c', 'e', ' ']);
    assert(" {"@ =~= seq![' ', '{']);
}

proof fn lemma_depth_after_add(a: Seq<char>, b: Seq<char>, depth: nat)
    requires
        depth_after(a, depth) is Some,
    ensures
        depth_after(a + b, depth) == depth_after(b, depth_after(a, depth).unwrap()),
    decreases a.len(),
{
    if a.len() == 0 {
        assert(a + b =~= b);
    } else {
        let rest = a.drop_first();
        assert((a + b).drop_first() =~= rest + b);
        assert((a + b).first() == a.first());
        if a.first() == '{' {
            lemma_depth_after_add(rest, b, depth + 1);
        } else if a.first() == '}' {
            lemma_depth_after_add(rest, b, (depth - 1) as nat);
        } else {
            lemma_depth_after_add(rest, b, depth);
        }
    }
}

proof fn lemma_depth_after_shift(a: Seq<char>, depth: nat, more: nat)
    requires
        depth_after(a, depth) is Some,
    ensures
        depth_after(a, depth + more) == Some((depth_after(a, depth).unwrap() + more) as nat),
    decreases a.len(),
{
    if a.len() > 0 {
        let rest = a.drop_first();
        if a.first() == '{' {
            lemma_depth_after_shift(rest, depth + 1, more);
        } else if a.first() == '}' {
            lemma_depth_after_shift(rest, (depth - 1) as nat, more);
        } else {
            lemma_depth_after_shift(rest, depth, more);
        }
    }
}

/// Text without braces is balanced, balanced texts one after the other are, and
/// so is a balanced text in braces; a lone brace is not.
pub proof fn law_balanced_texts(plain: Seq<char>, a: Seq<char>, b: Seq<char>)
    requires
        forall|i: int| 0 <= i < plain.len() ==> #[trigger] plain[i] != '{' && plain[i] != '}',
        is_balanced(a),
        is_balanced(b),
    ensures
        is_balanced(plain),
        is_balanced(a + b),
        is_balanced(seq!['{'] + a + seq!['}']),
        !is_balanced(seq!['{'] + a),
        !is_balanced(a + seq!['}']),
    decreases plain.len(),
{
    if plain.len() > 0 {
        let rest = plain.drop_first();
        assert(plain[0] != '{' && plain[0] != '}');
        assert forall|i: int| 0 <= i < rest.len() implies #[trigger] rest[i] != '{' && rest[i]
            != '}' by {
            assert(rest[i] == plain[i + 1]);
        }
        law_balanced_texts(rest, a, b);
    }
    lemma_depth_after_add(a, b, 0);
    lemma_depth_after_shift(a, 0, 1);
    let opened = seq!['{'] + a;
    assert(opened.drop_first() =~= a);
    assert(depth_after(opened, 0) == Some(1nat));
    lemma_depth_after_add(opened, seq!['}'], 0);
    lemma_depth_after_add(a, seq!['}'], 0);
    assert(seq!['}'].drop_first() =~= seq![]);
    reveal_with_fuel(depth_after, 2);
}

/// A service with a balanced body is taken out with nothing else where no line
/// break follows it: a lone carriage return and every other character stay.
pub proof fn law_only_a_line_break_goes_with_the_service(
    before: Seq<char>,
    name: Seq<char>,
    body: Seq<char>,
    after: Seq<char>,
)
    requires
        forall|i: int| 0 <= i < name.len() ==> #[trigger] name[i] != '{' && name[i] != '}',
        is_balanced(body),
        after.len() > 0 ==> after[0] != '\n',
        after.len() > 1 ==> !(after[0] == '\r' && after[1] == '\n'),
        forall|i: int|
            0 <= i < before.len() ==> !#[trigger] text::occurs_at(
                before + ("service "@ + name + " {"@) + body + seq!['}'] + after,
                "service "@ + name + " {"@,
                i,
            ),
    ensures
        without_service(
            before + ("service "@ + name + " {"@) + body + seq!['}'] + after,
            name,
        ) == before + after,
{
    let head = service_head(name);
    let s = before + head + body + seq!['}'] + after;
    let end = lemma_block_is_found(before, name, body, after);
    let tail = s.skip(end);
    assert(tail =~= after);
    assert(after_line_break(tail) =~= after);
    assert(s.take(before.len() as int) =~= before);
}

/// Where the block of a service ends.
proof fn lemma_block_is_found(
    before: Seq<char>,
    name: Seq<char>,
    body: Seq<char>,
    after: Seq<char>,
) -> (end: int)
    requires
        forall|i: int| 0 <= i < name.len() ==> #[trigger] name[i] != '{' && name[i] != '}',
        is_balanced(body),
        forall|i: int|
            0 <= i < before.len() ==> !#[trigger] text::occurs_at(
                before + service_head(name) + body + seq!['}'] + after,
                service_head(name),
                i,
            ),
    ensures
        ({
            let head = service_head(name);
            let s = before + head + body + seq!['}'] + after;
            &&& find_from(s, head, 0) == Some(before.len() as int)
            &&& block_end(s, before.len() as int, 0) == Some(end)
            &&& end == before.len() + head.len() + body.len() + 1
        }),
{
    let head = service_head(name);
    let s = before + head + body + seq!['}'] + after;
    let start = before.len() as int;
    let inner = start + head.len();
    let close = inner + body.len();
    assert(s.subrange(start, inner) =~= head);
    lemma_find_is(s, head, 0, start);
    lemma_head_opens_one_brace(s, name, start);
    assert(s.subrange(inner, close) =~= body);
    lemma_block_end_skips(s, inner, body, 1, 0);
    assert(s[close] == '}');
    assert(block_end(s, close, 1) == Some(close + 1));
    close + 1
}

proof fn lemma_head_opens_one_brace(s: Seq<char>, name: Seq<char>, start: int)
    requires
        forall|i: int| 0 <= i < name.len() ==> #[trigger] name[i] != '{' && name[i] != '}',
        text::occurs_at(s, service_head(name), start),
    ensures
        block_end(s, start, 0) == block_end(s, start + service_head(name).len(), 1),
{
    reveal_strlit("service ");
    reveal_strlit(" {");
    let head = service_head(name);
    let inner = start + head.len();
    let part = s.subrange(start, inner);
    assert(head.last() == '{');
    assert(part[head.len() - 1] == s[inner - 1]);
    assert forall|i: int| start <= i < inner - 1 implies #[trigger] s[i] != '{' && s[i] != '}' by {
        assert(part[i - start] == s[i]);
        if i - start < 8 {
            assert(head[i - start] == "service "@[i - start]);
        } else if i - start < 8 + name.len() {
            assert(head[i - start] == name[i - start - 8]);
        } else {
            assert(head[i - start] == " {"@[i - start - 8 - name.len()]);
        }
    }
    lemma_block_end_plain(s, start, inner - 1, 0);
    assert(block_end(s, inner - 1, 0) == block_end(s, inner, 1));
}

/// A block that is never closed is left where it is, with all that follows.
pub proof fn law_open_service_changes_nothing(
    before: Seq<char>,
    name: Seq<char>,
    rest: Seq<char>,
)
    requires
        forall|i: int| 0 <= i < name.len() ==> #[trigger] name[i] != '{' && name[i] != '}',
        forall|n: int|
            0 <= n <= rest.len() ==> {
                &&& depth_after(#[trigger] rest.take(n), 1) is Some
                &&& depth_after(rest.take(n), 1) != Some(0nat)
            },
        forall|i: int|
            0 <= i < before.len() ==> !#[trigger] text::occurs_at(
                before + ("service "@ + name + " {"@) + rest,
                "service "@ + name + " {"@,
                i,
            ),
    ensures
        without_service(before + ("service "@ + name + " {"@) + rest, name) == before + (
        "service "@ + name + " {"@) + rest,
{
    let head = service_head(name);
    let s = before + head + rest;
    let start = before.len() as int;
    let inner = start + head.len();
    assert(s.subrange(start, inner) =~= head);
    lemma_find_is(s, head, 0, start);
    lemma_head_opens_one_brace(s, name, start);
    assert(s.skip(inner) =~= rest);
    lemma_never_closed(s, inner, rest, 0, 1);
}

proof fn lemma_never_closed(s: Seq<char>, from: int, rest: Seq<char>, n: int, depth: nat)
    requires
        0 <= from <= s.len(),
        s.skip(from) == rest,
        0 <= n <= rest.len(),
        depth_after(rest.take(n), 1) == Some(depth),
        forall|k: int|
            0 <= k <= rest.len() ==> {
                &&& depth_after(#[trigger] rest.take(k), 1) is Some
                &&& depth_after(rest.take(k), 1) != Some(0nat)
            },
    ensures
        block_end(s, from + n, depth) is None,
    decreases rest.len() - n,
{
    if n < rest.len() {
        let c = rest[n];
        assert(s[from + n] == c) by {
            assert(s.skip(from)[n] == s[from + n]);
        }
        assert(rest.take(n + 1) =~= rest.take(n) + seq![c]);
        lemma_depth_after_add(rest.take(n), seq![c], 1);
        reveal_with_fuel(depth_after, 2);
        assert(seq![c].drop_first() =~= seq![]);
        let next = depth_after(rest.take(n + 1), 1);
        assert(next is Some && next != Some(0nat));
        lemma_never_closed(s, from, rest, n + 1, next.unwrap());
    }
}

/// The library takes a service out like this: with its block and the line break
/// behind it, and nothing else.
pub proof fn law_contracts_lose_one_service(
    proto: &str,
    name: &str,
    res: String,
    before: Seq<char>,
    body: Seq<char>,
    line_break: Seq<char>,
    after: Seq<char>,
)
    requires
        call_ensures(remove_service_block, (proto, name), res),
        proto@ == before + ("service "@ + name@ + " {"@) + body + seq!['}'] + line_break + after,
        forall|i: int| 0 <= i < name@.len() ==> #[trigger] name@[i] != '{' && name@[i] != '}',
        is_balanced(body),
        line_break == seq!['\n'] || line_break == seq!['\r', '\n'],
        forall|i: int|
            0 <= i < before.len() ==> !#[trigger] text::occurs_at(
                proto@,
                "service "@ + name@ + " {"@,
                i,
            ),
    ensures
        res@ == before + after,
{
    law_service_is_taken_out(before, name@, body, line_break, after);
}

} // verus!
