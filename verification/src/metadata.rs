//! Free-form string properties that come with models and documents.

use crate::text::{same_text, trim_text};
#[allow(unused_imports)]
use crate::text;
use std::collections::HashMap;
use vstd::prelude::*;

verus! {

/// `HashMap::get` of the standard library, on a map from strings to strings:
/// the value of the key with the given characters, if there is one.
#[verifier::external_body]
pub(crate) fn get_text<'a>(map: &'a HashMap<String, String>, key: &str) -> (res: Option<&'a String>)
    ensures
        match res {
            Some(value) => map.deep_view().contains_key(key@) && value@ == map.deep_view()[key@],
            None => !map.deep_view().contains_key(key@),
        },
{
    map.get(key)
}

/// `HashMap::insert` of the standard library, on a map from strings to strings:
/// the key with the given characters has the given value afterwards, and the
/// other keys keep theirs. What the key had before is dropped.
#[verifier::external_body]
pub(crate) fn insert_text(map: &mut HashMap<String, String>, key: String, value: String)
    ensures
        final(map).deep_view() == old(map).deep_view().insert(key@, value@),
{
    map.insert(key, value);
}

/// An ASCII capital as the small letter; any other character as it is.
pub open spec fn ascii_lower(c: char) -> char {
    if 'A' <= c <= 'Z' {
        (c as u32 + 0x20) as char
    } else {
        c
    }
}

/// A text with its ASCII capitals as small letters.
pub open spec fn lowered(s: Seq<char>) -> Seq<char> {
    s.map_values(|c: char| ascii_lower(c))
}

/// The property values that mean yes: `true`, `1` and `yes`, in any case and
/// with any white space around them.
pub open spec fn is_yes(value: Seq<char>) -> bool {
    let word = lowered(text::trim(value));
    word == "true"@ || word == "1"@ || word == "yes"@
}

/// Whether a property is there and means yes.
pub open spec fn has_flag(map: Map<Seq<char>, Seq<char>>, key: Seq<char>) -> bool {
    map.contains_key(key) && is_yes(map[key])
}

/// The value, without white space around it, of the first of the keys that
/// has one that is more than white space.
pub open spec fn first_value(map: Map<Seq<char>, Seq<char>>, keys: Seq<Seq<char>>) -> Option<
    Seq<char>,
>
    decreases keys.len(),
{
    if keys.len() == 0 {
        None
    } else if map.contains_key(keys.first()) && text::trim(map[keys.first()]).len() > 0 {
        Some(text::trim(map[keys.first()]))
    } else {
        first_value(map, keys.drop_first())
    }
}

/// A text with its ASCII capitals as small letters.
pub fn lower_text(s: &str) -> (res: String)
    ensures
        res@ == lowered(s@),
{
    let mut res = String::new();
    for c in it: s.chars()
        invariant
            it.seq() == s@,
            res@ == lowered(s@.take(it.index())),
    {
        assert(c == s@[it.index()]);
        let ghost before = s@.take(it.index());
        assert(s@.take(it.index() + 1) =~= before.push(c));
        if 'A' <= c && c <= 'Z' {
            res.push((c as u8 + 0x20) as char);
        } else {
            res.push(c);
        }
        assert(res@ =~= lowered(before.push(c)));
    }
    assert(s@.take(s@.len() as int) =~= s@);
    res
}

/// Whether a property is there and means yes.
pub fn metadata_bool(metadata: &HashMap<String, String>, key: &str) -> (res: bool)
    ensures
        res == has_flag(metadata.deep_view(), key@),
{
    match get_text(metadata, key) {
        None => false,
        Some(value) => {
            let word = lower_text(trim_text(value.as_str()).as_str());
            same_text(word.as_str(), "true") || same_text(word.as_str(), "1") || same_text(
                word.as_str(),
                "yes",
            )
        },
    }
}

/// The value, without white space around it, of the first of the keys that has
/// one that is more than white space.
pub fn first_metadata_value(metadata: &HashMap<String, String>, keys: &[&str]) -> (res: Option<
    String,
>)
    ensures
        match res {
            Some(value) => first_value(
                metadata.deep_view(),
                keys@.map_values(|s: &str| s@),
            ) == Some(value@),
            None => first_value(metadata.deep_view(), keys@.map_values(|s: &str| s@)) is None,
        },
{
    let ghost map = metadata.deep_view();
    let ghost all = keys@.map_values(|s: &str| s@);
    let mut i: usize = 0;
    assert(all.skip(0) =~= all);
    while i < keys.len()
        invariant
            i <= keys@.len(),
            map == metadata.deep_view(),
            all == keys@.map_values(|s: &str| s@),
            first_value(map, all.skip(i as int)) == first_value(map, all),
        decreases keys@.len() - i,
    {
        assert(all.skip(i as int).first() == keys@[i as int]@);
        assert(all.skip(i as int).drop_first() =~= all.skip(i + 1));
        match get_text(metadata, keys[i]) {
            None => {},
            Some(value) => {
                let word = trim_text(value.as_str());
                if !word.as_str().is_empty() {
                    return Some(word);
                }
            },
        }
        i = i + 1;
    }
    None
}

/// A property that is missing is no flag.
pub proof fn law_missing_flag_is_off(map: Map<Seq<char>, Seq<char>>, key: Seq<char>)
    requires
        !map.contains_key(key),
    ensures
        !has_flag(map, key),
{
}

/// A value that is found is what trimming leaves of the value of one of the keys,
/// it is not empty, and no earlier key has a value that is more than white
/// space. Where none is found, no key has one.
pub proof fn law_first_value_is_first(map: Map<Seq<char>, Seq<char>>, keys: Seq<Seq<char>>)
    ensures
        match first_value(map, keys) {
            Some(value) => exists|i: int|
                {
                    &&& 0 <= i < keys.len()
                    &&& map.contains_key(#[trigger] keys[i])
                    &&& value == text::trim(map[keys[i]])
                    &&& value.len() > 0
                    &&& forall|j: int|
                        0 <= j < i && map.contains_key(#[trigger] keys[j]) ==> text::trim(
                            map[keys[j]],
                        ).len() == 0
                },
            None => forall|j: int|
                0 <= j < keys.len() && map.contains_key(#[trigger] keys[j]) ==> text::trim(
                    map[keys[j]],
                ).len() == 0,
        },
    decreases keys.len(),
{
    if keys.len() > 0 {
        let rest = keys.drop_first();
        law_first_value_is_first(map, rest);
        if map.contains_key(keys.first()) && text::trim(map[keys.first()]).len() > 0 {
            assert(map.contains_key(keys[0]));
        } else if first_value(map, rest) is Some {
            let value = first_value(map, rest).unwrap();
            let i = choose|i: int|
                {
                    &&& 0 <= i < rest.len()
                    &&& map.contains_key(#[trigger] rest[i])
                    &&& value == text::trim(map[rest[i]])
                    &&& value.len() > 0
                    &&& forall|j: int|
                        0 <= j < i && map.contains_key(#[trigger] rest[j]) ==> text::trim(
                            map[rest[j]],
                        ).len() == 0
                };
            assert(keys[i + 1] == rest[i]);
            assert forall|j: int|
                0 <= j < i + 1 && map.contains_key(#[trigger] keys[j]) implies text::trim(
                map[keys[j]],
            ).len() == 0 by {
                if j > 0 {
                    assert(rest[j - 1] == keys[j]);
                }
            }
        } else {
            assert forall|j: int|
                0 <= j < keys.len() && map.contains_key(#[trigger] keys[j]) implies text::trim(
                map[keys[j]],
            ).len() == 0 by {
                if j > 0 {
                    assert(rest[j - 1] == keys[j]);
                }
            }
        }
    }
}

/// Only the letters from `A` to `Z` change when a text is put in small letters,
/// each to the letter thirty-two places on; nothing is added or lost.
pub proof fn law_only_capitals_are_lowered(s: Seq<char>, i: int)
    requires
        0 <= i < s.len(),
    ensures
        lowered(s).len() == s.len(),
        'A' <= s[i] <= 'Z' ==> lowered(s)[i] as u32 == s[i] as u32 + 32,
        !('A' <= s[i] <= 'Z') ==> lowered(s)[i] == s[i],
{
}

proof fn lemma_lowered_letter(c: char, small: char, large: char)
    requires
        'a' <= small <= 'z',
        large as u32 == small as u32 - 32,
    ensures
        ascii_lower(c) == small <==> c == small || c == large,
{
    if 'A' <= c <= 'Z' {
        assert((c as u32 + 0x20) as char as u32 == c as u32 + 0x20);
    }
}

/// A property is a flag exactly where it is there and reads `true`, `1` or
/// `yes`, its letters large or small in any mixture, between any white space.
pub proof fn law_flags_read_true_one_or_yes(map: Map<Seq<char>, Seq<char>>, key: Seq<char>)
    ensures
        ({
            let word = text::trim(map[key]);
            has_flag(map, key) <==> {
                &&& map.contains_key(key)
                &&& {
                    ||| {
                        &&& word.len() == 4
                        &&& word[0] == 't' || word[0] == 'T'
                        &&& word[1] == 'r' || word[1] == 'R'
                        &&& word[2] == 'u' || word[2] == 'U'
                        &&& word[3] == 'e' || word[3] == 'E'
                    }
                    ||| word == seq!['1']
                    ||| {
                        &&& word.len() == 3
                        &&& word[0] == 'y' || word[0] == 'Y'
                        &&& word[1] == 'e' || word[1] == 'E'
                        &&& word[2] == 's' || word[2] == 'S'
                    }
                }
            }
        }),
{
    let word = text::trim(map[key]);
    let low = lowered(word);
    reveal_strlit("true");
    reveal_strlit("1");
    reveal_strlit("yes");
    assert(low.len() == word.len());
    if word.len() == 4 {
        lemma_lowered_letter(word[0], 't', 'T');
        lemma_lowered_letter(word[1], 'r', 'R');
        lemma_lowered_letter(word[2], 'u', 'U');
        lemma_lowered_letter(word[3], 'e', 'E');
        assert(low == "true"@ <==> low[0] == 't' && low[1] == 'r' && low[2] == 'u' && low[3] == 'e')
            by {
            if low[0] == 't' && low[1] == 'r' && low[2] == 'u' && low[3] == 'e' {
                assert(low =~= "true"@);
            }
        }
    }
    if word.len() == 1 {
        assert(low == "1"@ <==> low[0] == '1') by {
            if low[0] == '1' {
                assert(low =~= "1"@);
            }
        }
        assert(word == seq!['1'] <==> word[0] == '1') by {
            if word[0] == '1' {
                assert(word =~= seq!['1']);
            }
        }
    }
    if word.len() == 3 {
        lemma_lowered_letter(word[0], 'y', 'Y');
        lemma_lowered_letter(word[1], 'e', 'E');
        lemma_lowered_letter(word[2], 's', 'S');
        assert(low == "yes"@ <==> low[0] == 'y' && low[1] == 'e' && low[2] == 's') by {
            if low[0] == 'y' && low[1] == 'e' && low[2] == 's' {
                assert(low =~= "yes"@);
            }
        }
    }
}

/// The library reads a property that is not there as no flag, and a value that
/// it finds is that of one of the keys, trimmed, and not empty.
pub proof fn law_properties_are_read_by_key(
    properties: HashMap<String, String>,
    key: &str,
    keys: &[&str],
    flag: bool,
    value: Option<String>,
)
    requires
        call_ensures(metadata_bool, (&properties, key), flag),
        call_ensures(first_metadata_value, (&properties, keys), value),
    ensures
        flag ==> properties.deep_view().contains_key(key@),
        flag == has_flag(properties.deep_view(), key@),
        value matches Some(found) ==> found@.len() > 0 && exists|i: int|
            {
                &&& 0 <= i < keys@.len()
                &&& properties.deep_view().contains_key((#[trigger] keys@[i])@)
                &&& found@ == text::trim(properties.deep_view()[keys@[i]@])
                &&& forall|j: int|
                    0 <= j < i && properties.deep_view().contains_key((#[trigger] keys@[j])@)
                        ==> text::trim(properties.deep_view()[keys@[j]@]).len() == 0
            },
        value is None ==> forall|j: int|
            0 <= j < keys@.len() && properties.deep_view().contains_key((#[trigger] keys@[j])@)
                ==> text::trim(properties.deep_view()[keys@[j]@]).len() == 0,
{
    let map = properties.deep_view();
    let all = keys@.map_values(|s: &str| s@);
    law_first_value_is_first(map, all);
    assert forall|j: int| 0 <= j < keys@.len() implies all[j] == (#[trigger] keys@[j])@ by {}
    if value is Some {
        let found = value->0@;
        let i = choose|i: int|
            {
                &&& 0 <= i < all.len()
                &&& map.contains_key(#[trigger] all[i])
                &&& found == text::trim(map[all[i]])
                &&& found.len() > 0
                &&& forall|j: int|
                    0 <= j < i && map.contains_key(#[trigger] all[j]) ==> text::trim(
                        map[all[j]],
                    ).len() == 0
            };
        assert(all[i] == keys@[i]@);
        assert forall|j: int|
            0 <= j < i && map.contains_key((#[trigger] keys@[j])@) implies text::trim(
            map[keys@[j]@],
        ).len() == 0 by {
            assert(all[j] == keys@[j]@);
        }
    } else {
        assert forall|j: int|
            0 <= j < keys@.len() && map.contains_key((#[trigger] keys@[j])@) implies text::trim(
            map[keys@[j]@],
        ).len() == 0 by {
            assert(all[j] == keys@[j]@);
        }
    }
}

} // verus!
