//! Prompts that carry local context.

use crate::number::push_decimal;
#[allow(unused_imports)]
use crate::number;
use crate::preview::ContextSourcePreview;
#[allow(unused_imports)]
use crate::preview;
use crate::text::{chars_of, text_between, trim_text};
#[allow(unused_imports)]
use crate::text;
use vstd::prelude::*;

verus! {

/// The most characters of a piece of context that a prompt quotes.
pub const LOCAL_CONTEXT_MAX_SNIPPET_CHARS: usize = 900;

/// A text cut off after `max` characters, with an ellipsis where it was cut.
pub open spec fn truncated(s: Seq<char>, max: int) -> Seq<char> {
    if s.len() <= max {
        s
    } else {
        s.take(max) + "..."@
    }
}

/// What a prompt says of a piece of context, under the given number.
pub open spec fn source_block(number: nat, source: preview::SourceView) -> Seq<char> {
    "["@ + number::decimal(number) + "] "@ + text::trim(source.title) + "\nURI: "@ + text::trim(
        source.uri,
    ) + "\n"@ + truncated(text::trim(source.snippet), LOCAL_CONTEXT_MAX_SNIPPET_CHARS as int)
        + "\n\n"@
}

/// What a prompt says of pieces of context, numbered from one.
pub open spec fn source_blocks(sources: Seq<ContextSourcePreview>) -> Seq<char>
    decreases sources.len(),
{
    if sources.len() == 0 {
        seq![]
    } else {
        source_blocks(sources.drop_last()) + source_block(sources.len(), sources.last()@)
    }
}

/// A message with pieces of context before it; without any, just the message.
pub open spec fn augmented(message: Seq<char>, sources: Seq<ContextSourcePreview>) -> Seq<char> {
    if sources.len() == 0 {
        message
    } else {
        "Local context:\n"@ + source_blocks(sources) + "User request:\n"@ + message
    }
}

/// A text cut off after `max_chars` characters, with an ellipsis where it was cut.
pub fn truncate_chars(value: &str, max_chars: usize) -> (res: String)
    ensures
        res@ == truncated(value@, max_chars as int),
{
    let chars = chars_of(value);
    if chars.len() <= max_chars {
        return value.to_owned();
    }
    let mut res = text_between(chars.as_slice(), 0, max_chars);
    res.append("...");
    assert(chars@.subrange(0, max_chars as int) =~= value@.take(max_chars as int));
    res
}

fn push_source_block(out: &mut String, number: u64, source: &ContextSourcePreview)
    ensures
        final(out)@ == old(out)@ + source_block(number as nat, source@),
{
    out.append("[");
    push_decimal(out, number);
    out.append("] ");
    out.append(trim_text(source.title.as_str()).as_str());
    out.append("\nURI: ");
    out.append(trim_text(source.uri.as_str()).as_str());
    out.append("\n");
    let snippet = trim_text(source.snippet.as_str());
    out.append(truncate_chars(snippet.as_str(), LOCAL_CONTEXT_MAX_SNIPPET_CHARS).as_str());
    out.append("\n\n");
    assert(out@ =~= old(out)@ + source_block(number as nat, source@));
}

/// A message with pieces of context before it.
pub fn build_augmented_prompt(message: &str, sources: &[ContextSourcePreview]) -> (res: String)
    ensures
        res@ == augmented(message@, sources@),
{
    if sources.len() == 0 {
        return message.to_owned();
    }
    let mut prompt = "Local context:\n".to_owned();
    let mut i: usize = 0;
    assert(prompt@ =~= "Local context:\n"@ + source_blocks(sources@.take(0)));
    while i < sources.len()
        invariant
            i <= sources@.len() <= usize::MAX,
            prompt@ == "Local context:\n"@ + source_blocks(sources@.take(i as int)),
        decreases sources@.len() - i,
    {
        push_source_block(&mut prompt, i as u64 + 1, &sources[i]);
        i = i + 1;
        proof {
            let seen = sources@.take(i as int);
            assert(seen.drop_last() =~= sources@.take(i - 1));
            assert(prompt@ =~= "Local context:\n"@ + source_blocks(seen));
        }
    }
    assert(sources@.take(sources@.len() as int) =~= sources@);
    prompt.append("User request:\n");
    prompt.append(message);
    prompt
}

// ---------------------------------------------------------------------------
// Laws
// ---------------------------------------------------------------------------

/// Without context a prompt is the message itself.
pub proof fn law_no_context_changes_nothing(message: Seq<char>)
    ensures
        augmented(message, seq![]) == message,
{
}

/// With context, whatever it holds, a prompt starts with the context and ends
/// with the message.
pub proof fn law_message_comes_last(message: Seq<char>, sources: Seq<ContextSourcePreview>)
    requires
        sources.len() > 0,
    ensures
        "Local context:\n"@.is_prefix_of(augmented(message, sources)),
        ("User request:\n"@ + message).is_suffix_of(augmented(message, sources)),
{
    let prompt = augmented(message, sources);
    let head = "Local context:\n"@;
    let tail = "User request:\n"@ + message;
    assert(prompt.subrange(0, head.len() as int) =~= head);
    assert(prompt.subrange(prompt.len() - tail.len(), prompt.len() as int) =~= tail);
}

/// A text that is short enough is not changed; a longer one keeps its first
/// `max` characters and gains three.
pub proof fn law_truncated_text_is_bounded(s: Seq<char>, max: int)
    requires
        0 <= max,
    ensures
        truncated(s, max).len() <= max + 3,
        s.len() <= max ==> truncated(s, max) == s,
        s.len() > max ==> truncated(s, max).take(max) == s.take(max) && truncated(s, max).len()
            == max + 3,
        s.len() > max ==> truncated(s, max) == s.take(max) + seq!['.', '.', '.'],
{
    reveal_strlit("...");
    if s.len() > max {
        assert(truncated(s, max).take(max) =~= s.take(max));
        assert("..."@ =~= seq!['.', '.', '.']);
    }
}

/// The context of a prompt is bounded: leaving out its number, title and
/// address, each piece takes at most the snippet limit and the fixed text.
pub proof fn law_context_block_is_bounded(number: nat, source: preview::SourceView)
    ensures
        source_block(number, source).len() <= number::decimal(number).len() + text::trim(
            source.title,
        ).len() + text::trim(source.uri).len() + LOCAL_CONTEXT_MAX_SNIPPET_CHARS + 15,
{
    reveal_strlit("[");
    reveal_strlit("] ");
    reveal_strlit("\nURI: ");
    reveal_strlit("\n");
    reveal_strlit("\n\n");
    law_truncated_text_is_bounded(
        text::trim(source.snippet),
        LOCAL_CONTEXT_MAX_SNIPPET_CHARS as int,
    );
}

/// A piece of context reads: its number in square brackets, its title, its
/// address on a line of its own, then its text, whole where it has at most nine
/// hundred characters and else cut off after them with an ellipsis, and an empty
/// line. Title, address and text stand without the white space around them, and
/// with all that is inside.
pub proof fn law_source_reads_like_this(number: nat, source: preview::SourceView)
    ensures
        ({
            let snippet = text::trim(source.snippet);
            source_block(number, source) == "["@ + number::decimal(number) + "] "@ + text::trim(
                source.title,
            ) + "\nURI: "@ + text::trim(source.uri) + "\n"@ + (if snippet.len() <= 900 {
                snippet
            } else {
                snippet.take(900) + seq!['.', '.', '.']
            }) + "\n\n"@
        }),
{
    law_truncated_text_is_bounded(text::trim(source.snippet), 900);
}

/// Whether `piece` stands somewhere in `s`.
pub open spec fn holds_piece(s: Seq<char>, piece: Seq<char>) -> bool {
    exists|at: int| #[trigger] text::occurs_at(s, piece, at)
}

proof fn lemma_holds_piece(before: Seq<char>, piece: Seq<char>, after: Seq<char>)
    ensures
        holds_piece(before + piece + after, piece),
{
    let s = before + piece + after;
    let at = before.len() as int;
    assert(s.subrange(at, at + piece.len()) =~= piece);
    assert(text::occurs_at(s, piece, at));
}

/// Every piece of context is in the prompt, under its number.
pub proof fn law_every_source_is_quoted(
    message: Seq<char>,
    sources: Seq<ContextSourcePreview>,
    i: int,
)
    requires
        0 <= i < sources.len(),
    ensures
        holds_piece(augmented(message, sources), source_block((i + 1) as nat, sources[i]@)),
{
    let head = "Local context:\n"@;
    let tail = "User request:\n"@ + message;
    let split = lemma_blocks_split(sources, i);
    let piece = source_block((i + 1) as nat, sources[i]@);
    assert(augmented(message, sources) =~= (head + split.0) + piece + (split.1 + tail));
    lemma_holds_piece(head + split.0, piece, split.1 + tail);
}

proof fn lemma_blocks_split(sources: Seq<ContextSourcePreview>, i: int) -> (split: (
    Seq<char>,
    Seq<char>,
))
    requires
        0 <= i < sources.len(),
    ensures
        source_blocks(sources) == split.0 + source_block((i + 1) as nat, sources[i]@) + split.1,
    decreases sources.len(),
{
    let rest = sources.drop_last();
    let last = source_block(sources.len(), sources.last()@);
    if i == sources.len() - 1 {
        assert(source_blocks(sources) =~= source_blocks(rest) + last + seq![]);
        (source_blocks(rest), seq![])
    } else {
        let split = lemma_blocks_split(rest, i);
        assert(rest[i] == sources[i]);
        assert(source_blocks(sources) =~= split.0 + source_block((i + 1) as nat, sources[i]@) + (
        split.1 + last));
        (split.0, split.1 + last)
    }
}

/// Every piece of context is quoted as a whole, under its number: title,
/// address and text, each without the white space around it, the text cut off
/// after nine hundred characters where it is longer.
pub proof fn law_every_source_is_quoted_in_full(
    message: Seq<char>,
    sources: Seq<ContextSourcePreview>,
    i: int,
) -> (around: (Seq<char>, Seq<char>))
    requires
        0 <= i < sources.len(),
    ensures
        ({
            let title = text::trim(sources[i].title@);
            let uri = text::trim(sources[i].uri@);
            let snippet = text::trim(sources[i].snippet@);
            let quote = if snippet.len() <= 900 {
                snippet
            } else {
                snippet.take(900) + seq!['.', '.', '.']
            };
            let piece = "["@ + number::decimal((i + 1) as nat) + "] "@ + title + "\nURI: "@ + uri
                + "\n"@ + quote + "\n\n"@;
            augmented(message, sources) == around.0 + piece + around.1
        }),
{
    let head = "Local context:\n"@;
    let tail = "User request:\n"@ + message;
    let split = lemma_blocks_split(sources, i);
    let piece = source_block((i + 1) as nat, sources[i]@);
    law_source_reads_like_this((i + 1) as nat, sources[i]@);
    assert(augmented(message, sources) =~= (head + split.0) + piece + (split.1 + tail));
    (head + split.0, split.1 + tail)
}

/// One more source changes a prompt only by its piece, between the pieces
/// before it and the request: with `pieces` for what stood there, the prompt
/// reads `Local context:`, the pieces, the new piece, `User request:` and the
/// message, and nothing else.
pub proof fn law_prompt_grows_by_one_piece(
    message: Seq<char>,
    sources: Seq<ContextSourcePreview>,
    source: ContextSourcePreview,
) -> (pieces: Seq<char>)
    ensures
        sources.len() == 0 ==> pieces == Seq::<char>::empty(),
        forall|other: Seq<char>|
            sources.len() > 0 ==> #[trigger] augmented(other, sources) == "Local context:\n"@
                + pieces + "User request:\n"@ + other,
        ({
            let snippet = text::trim(source.snippet@);
            let quote = if snippet.len() <= 900 {
                snippet
            } else {
                snippet.take(900) + seq!['.', '.', '.']
            };
            augmented(message, sources.push(source)) == "Local context:\n"@ + pieces + ("["@
                + number::decimal((sources.len() + 1) as nat) + "] "@ + text::trim(source.title@)
                + "\nURI: "@ + text::trim(source.uri@) + "\n"@ + quote + "\n\n"@)
                + "User request:\n"@ + message
        }),
{
    let all = sources.push(source);
    let piece = source_block(all.len(), source@);
    law_source_reads_like_this(all.len(), source@);
    assert(all.drop_last() =~= sources);
    assert(source_blocks(all) == source_blocks(sources) + piece);
    assert(augmented(message, all) =~= "Local context:\n"@ + source_blocks(sources) + piece
        + "User request:\n"@ + message);
    source_blocks(sources)
}

/// Only what the prompt shows of sources matters: sources that agree up to the
/// white space around their texts make the same prompt.
pub proof fn law_white_space_around_sources_is_ignored(
    message: Seq<char>,
    a: Seq<ContextSourcePreview>,
    b: Seq<ContextSourcePreview>,
)
    requires
        a.len() == b.len(),
        forall|i: int|
            0 <= i < a.len() ==> {
                &&& text::trim((#[trigger] a[i]).title@) == text::trim(b[i].title@)
                &&& text::trim(a[i].uri@) == text::trim(b[i].uri@)
                &&& text::trim(a[i].snippet@) == text::trim(b[i].snippet@)
            },
    ensures
        augmented(message, a) == augmented(message, b),
{
    if a.len() > 0 {
        lemma_same_blocks(a, b);
    }
}

proof fn lemma_same_blocks(a: Seq<ContextSourcePreview>, b: Seq<ContextSourcePreview>)
    requires
        a.len() == b.len(),
        forall|i: int|
            0 <= i < a.len() ==> {
                &&& text::trim((#[trigger] a[i]).title@) == text::trim(b[i].title@)
                &&& text::trim(a[i].uri@) == text::trim(b[i].uri@)
                &&& text::trim(a[i].snippet@) == text::trim(b[i].snippet@)
            },
    ensures
        source_blocks(a) == source_blocks(b),
    decreases a.len(),
{
    if a.len() > 0 {
        let x = a.drop_last();
        let y = b.drop_last();
        assert forall|i: int| 0 <= i < x.len() implies ({
            &&& text::trim((#[trigger] x[i]).title@) == text::trim(y[i].title@)
            &&& text::trim(x[i].uri@) == text::trim(y[i].uri@)
            &&& text::trim(x[i].snippet@) == text::trim(y[i].snippet@)
        }) by {
            assert(x[i] == a[i] && y[i] == b[i]);
        }
        lemma_same_blocks(x, y);
        assert(a[a.len() - 1] == a.last() && b[b.len() - 1] == b.last());
    }
}

/// The library builds these prompts, and cuts texts off like this.
pub proof fn law_prompts_are_built_like_this(
    message: &str,
    sources: &[ContextSourcePreview],
    prompt: String,
    value: &str,
    max_chars: usize,
    cut: String,
)
    requires
        call_ensures(build_augmented_prompt, (message, sources), prompt),
        call_ensures(truncate_chars, (value, max_chars), cut),
    ensures
        prompt@ == augmented(message@, sources@),
        sources@.len() == 0 ==> prompt@ == message@,
        sources@.len() > 0 ==> "Local context:\n"@.is_prefix_of(prompt@) && (
        "User request:\n"@ + message@).is_suffix_of(prompt@),
        value@.len() <= max_chars ==> cut@ == value@,
        value@.len() > max_chars ==> cut@ == value@.take(max_chars as int) + seq!['.', '.', '.'],
{
    law_truncated_text_is_bounded(value@, max_chars as int);
    if sources@.len() > 0 {
        law_message_comes_last(message@, sources@);
    }
}

} // verus!
