//! Paths of the operating system, as far as their text is concerned.
//!
//! What is said of them holds on Unix and on Windows alike: a slash separates
//! the names of a path on both.

#[allow(unused_imports)]
use crate::yaml;
use std::path::{Path, PathBuf};
use vstd::prelude::*;

verus! {

// ---------------------------------------------------------------------------
// Paths of the standard library
// ---------------------------------------------------------------------------

/// A borrowed path of the standard library.
#[verifier::external_type_specification]
#[verifier::external_body]
pub struct ExPath(std::path::Path);

/// An owned path of the standard library.
#[verifier::external_type_specification]
#[verifier::external_body]
pub struct ExPathBuf(std::path::PathBuf);

/// The characters that a path holds, as it is displayed.
pub uninterp spec fn path_text(path: &Path) -> Seq<char>;

/// The characters that an owned path holds, as it is displayed.
pub uninterp spec fn path_buf_text(path: PathBuf) -> Seq<char>;

/// A character that means nothing special in a path on any platform.
pub open spec fn is_plain_char(c: char) -> bool {
    c != '/' && c != '\\' && c != ':'
}

pub open spec fn has_plain_chars(name: Seq<char>) -> bool {
    forall|i: int| 0 <= i < name.len() ==> is_plain_char(#[trigger] name[i])
}

/// A name that is one component of a path on every platform.
pub open spec fn is_plain_name(name: Seq<char>) -> bool {
    &&& has_plain_chars(name)
    &&& name.len() > 0
    &&& name != seq!['.']
    &&& name != seq!['.', '.']
}

/// A path that Windows takes literally, and rewrites when a name is joined to it.
pub open spec fn is_verbatim(base: Seq<char>) -> bool {
    base.len() >= 4 && base[0] == '\\' && base[1] == '\\' && base[2] == '?' && base[3] == '\\'
}

/// What the text of a path can be after a plain name has been joined to `base`.
/// The platform's separator comes between the two, unless `base` is empty or
/// ends in a slash. Whether it does after a backslash, or after a drive such as
/// `C:`, is up to the platform; of a literal Windows path only the end of the
/// text is known, a separator and the name.
pub open spec fn is_joined(base: Seq<char>, name: Seq<char>, res: Seq<char>) -> bool {
    if is_verbatim(base) {
        ||| (seq!['\\'] + name).is_suffix_of(res)
        ||| (seq!['/'] + name).is_suffix_of(res)
    } else if base.len() == 0 || base.last() == '/' {
        res == base + name
    } else {
        ||| res == base + seq!['/'] + name
        ||| res == base + seq!['\\'] + name
        ||| (base.last() == '\\' || base.last() == ':') && res == base + name
    }
}

/// `Path::display` of the standard library, written to a string: the
/// characters of the path.
#[verifier::external_body]
pub(crate) fn display_text(path: &Path) -> (res: String)
    ensures
        res@ == path_text(path),
{
    path.display().to_string()
}

/// `PathBuf::as_path` of the standard library: the borrowed path holds the
/// same characters.
#[verifier::external_body]
fn borrow_path(path: &PathBuf) -> (res: &Path)
    ensures
        path_text(res) == path_buf_text(*path),
{
    path.as_path()
}

/// `PathBuf::from` of the standard library, on a string: the path holds the
/// characters of the string.
#[verifier::external_body]
pub(crate) fn path_from(text: &str) -> (res: PathBuf)
    ensures
        path_buf_text(res) == text@,
{
    PathBuf::from(text)
}

/// `Path::join` of the standard library: the name is adjoined to the path, with
/// the separator of whatever platform this is. Nothing is claimed of a name
/// that is not one plain component.
#[verifier::external_body]
fn join_name(base: &Path, name: &str) -> (res: PathBuf)
    ensures
        is_plain_name(name@) ==> is_joined(path_text(base), name@, path_buf_text(res)),
{
    base.join(name)
}

/// A path that starts with two separators. Windows takes what comes next for
/// the name of another machine or of a device.
pub open spec fn is_remote(base: Seq<char>) -> bool {
    &&& base.len() >= 2
    &&& base[0] == '/' || base[0] == '\\'
    &&& base[1] == '/' || base[1] == '\\'
}

/// Whether `path` is a plain name after a slash, in a directory whose text
/// stands for itself on every platform.
pub open spec fn is_entry(path: Seq<char>, base: Seq<char>, name: Seq<char>) -> bool {
    &&& is_plain_dir(base)
    &&& base.last() != '.'
    &&& !is_remote(base)
    &&& is_plain_name(name)
    &&& path == base + seq!['/'] + name
}

/// What the text of a path without its last name can be, if it has one to lose.
/// It is always a proper beginning of the text of the path. Of an entry of a
/// directory it is that directory, of a plain name in the root it is the root,
/// and of a plain name alone it is empty; the root has no parent.
pub open spec fn is_parent(path: Seq<char>, dir: Option<Seq<char>>) -> bool {
    &&& dir matches Some(text) ==> text.len() < path.len() && text.is_prefix_of(path)
    &&& forall|base: Seq<char>, name: Seq<char>| #[trigger]
        is_entry(path, base, name) ==> dir == Some(base)
    &&& path.len() > 0 && path[0] == '/' && is_plain_name(path.drop_first()) ==> dir == Some(
        seq!['/'],
    )
    &&& is_plain_name(path) ==> dir == Some(Seq::<char>::empty())
    &&& path == seq!['/'] ==> dir is None
}

/// The text of a path that may be missing.
pub open spec fn optional_text(path: Option<PathBuf>) -> Option<Seq<char>> {
    match path {
        Some(path) => Some(path_buf_text(path)),
        None => None,
    }
}

/// `Path::parent` of the standard library: the path without its last name, or
/// nothing where the path is empty, a root or a prefix. Which other characters
/// than a slash separate names is up to the platform, so of a path with such
/// characters only a beginning is claimed.
#[verifier::external_body]
fn parent_dir(path: &Path) -> (res: Option<PathBuf>)
    ensures
        is_parent(path_text(path), optional_text(res)),
{
    path.parent().map(PathBuf::from)
}

/// `Path::is_file` of the standard library: whether there is a regular file at
/// the path. That is up to the disk, so nothing is claimed of the answer.
pub assume_specification[ std::path::Path::is_file ](file: &std::path::Path) -> (res: bool)
;

/// `std::path::is_separator` of the standard library: whether a character
/// separates the components of a path on this platform. That is up to the
/// platform, so nothing is claimed of the answer.
pub assume_specification[ std::path::is_separator ](c: char) -> (res: bool)
;

/// `std::path::MAIN_SEPARATOR` of the standard library: the character that this
/// platform writes between the components of a path. Which one that is is up to
/// the platform, so nothing is claimed of it.
#[verifier::external_body]
fn main_separator() -> (res: char) {
    std::path::MAIN_SEPARATOR
}

// ---------------------------------------------------------------------------
// Questions to the platform
// ---------------------------------------------------------------------------

/// Asks a question, whose answer may be another one each time.
fn ask<T, F: Fn() -> T>(question: F) -> (res: T)
    requires
        call_requires(question, ()),
    ensures
        call_ensures(question, (), res),
{
    question()
}

/// Asks a question about a character.
fn ask_of_char<F: Fn(char) -> bool>(question: F, c: char) -> (res: bool)
    requires
        call_requires(question, (c,)),
    ensures
        call_ensures(question, (c,), res),
{
    question(c)
}

/// Whether the platform may say that it writes `c` between the components of a
/// path.
pub closed spec fn is_main_separator(c: char) -> bool {
    call_ensures(main_separator, (), c)
}

/// Whether the platform may answer like this whether `c` separates the
/// components of a path.
pub open spec fn is_separator_answer(c: char, answer: bool) -> bool {
    call_ensures(std::path::is_separator, (c,), answer)
}

/// What the platform writes between the components of a path.
pub(crate) fn ask_main_separator() -> (res: char)
    ensures
        is_main_separator(res),
{
    ask(main_separator)
}

/// Whether `c` separates the components of a path on this platform.
pub(crate) fn ask_separator(c: char) -> (res: bool)
    ensures
        is_separator_answer(c, res),
{
    ask_of_char(std::path::is_separator, c)
}

/// Asks for the borrowed form of a path.
fn ask_to_borrow<'a, F: Fn(&PathBuf) -> &Path>(question: F, path: &'a PathBuf) -> (res: &'a Path)
    requires
        call_requires(question, (path,)),
    ensures
        call_ensures(question, (path,), res),
{
    question(path)
}

/// Asks to join a name to a path.
fn ask_to_join<F: Fn(&Path, &str) -> PathBuf>(question: F, base: &Path, name: &str) -> (res:
    PathBuf)
    requires
        call_requires(question, (base, name)),
    ensures
        call_ensures(question, (base, name), res),
{
    question(base, name)
}

/// Asks for the parent of a path.
fn ask_for_parent<F: Fn(&Path) -> Option<PathBuf>>(question: F, path: &Path) -> (res: Option<
    PathBuf,
>)
    requires
        call_requires(question, (path,)),
    ensures
        call_ensures(question, (path,), res),
{
    question(path)
}

/// Whether borrowing `path` may give `res`.
pub closed spec fn is_borrow_answer(path: PathBuf, res: &Path) -> bool {
    call_ensures(borrow_path, (&path,), res)
}

/// Whether `res` is `path`, borrowed.
pub open spec fn is_borrow(path: PathBuf, res: &Path) -> bool {
    &&& is_borrow_answer(path, res)
    &&& path_text(res) == path_buf_text(path)
}

/// Whether the platform may give `res` when the name is joined to `base`.
pub closed spec fn is_join_answer(base: &Path, name: Seq<char>, res: PathBuf) -> bool {
    exists|word: &str| word@ == name && #[trigger] call_ensures(join_name, (base, word), res)
}

/// Whether `res` is `base` with the name joined to it by the platform.
pub open spec fn is_join(base: &Path, name: Seq<char>, res: PathBuf) -> bool {
    &&& is_join_answer(base, name, res)
    &&& is_joined(path_text(base), name, path_buf_text(res))
}

/// Whether the platform may give `dir` when it is asked for the parent of `path`.
pub closed spec fn is_parent_answer(path: &Path, dir: Option<PathBuf>) -> bool {
    call_ensures(parent_dir, (path,), dir)
}

/// Whether `dir` is what the platform takes for the parent of `path`.
pub open spec fn is_parent_dir(path: &Path, dir: Option<PathBuf>) -> bool {
    &&& is_parent_answer(path, dir)
    &&& is_parent(path_text(path), optional_text(dir))
}

/// A path, borrowed.
pub(crate) fn borrowed(path: &PathBuf) -> (res: &Path)
    ensures
        is_borrow(*path, res),
{
    ask_to_borrow(borrow_path, path)
}

/// Joins a plain name to a path.
pub(crate) fn join_plain(base: &Path, name: &str) -> (res: PathBuf)
    requires
        is_plain_name(name@),
    ensures
        is_join(base, name@, res),
{
    ask_to_join(join_name, base, name)
}

/// The parent of a path, if it has one.
pub(crate) fn parent_of(path: &Path) -> (res: Option<PathBuf>)
    ensures
        is_parent_dir(path, res),
{
    ask_for_parent(parent_dir, path)
}

/// Whether a question about a path may be answered like this when it is asked
/// about `path`.
pub open spec fn is_answer<F: Fn(&Path) -> bool>(question: F, path: PathBuf, answer: bool) -> bool {
    exists|asked: &Path|
        is_borrow(path, asked) && #[trigger] call_ensures(question, (asked,), answer)
}

/// Asks a question about a path.
pub(crate) fn ask_of_path<F: Fn(&Path) -> bool>(question: &F, path: &PathBuf) -> (res: bool)
    requires
        forall|asked: &Path| call_requires(*question, (asked,)),
    ensures
        is_answer(*question, *path, res),
{
    question(borrowed(path))
}

// ---------------------------------------------------------------------------
// Names below a directory
// ---------------------------------------------------------------------------

/// Whether `res` is `base` with names joined to it, one after the other. There
/// is at least one name.
pub open spec fn is_below(base: &Path, names: Seq<Seq<char>>, res: PathBuf) -> bool
    decreases names.len(),
{
    if names.len() == 0 {
        false
    } else if names.len() == 1 {
        is_join(base, names.last(), res)
    } else {
        exists|dir: PathBuf, at: &Path|
            {
                &&& is_below(base, names.drop_last(), dir)
                &&& #[trigger] is_borrow(dir, at)
                &&& #[trigger] is_join(at, names.last(), res)
            }
    }
}

/// Names with a slash before each.
pub open spec fn slash_path(names: Seq<Seq<char>>) -> Seq<char>
    decreases names.len(),
{
    if names.len() == 0 {
        seq![]
    } else {
        slash_path(names.drop_last()) + seq!['/'] + names.last()
    }
}

/// A directory whose text tells, on every platform, where the next name goes:
/// it does not end in a separator or a drive, and is no literal Windows path.
pub open spec fn is_plain_dir(base: Seq<char>) -> bool {
    &&& base.len() > 0
    &&& base.last() != '/'
    &&& base.last() != '\\'
    &&& base.last() != ':'
    &&& !(base.len() >= 3 && base[0] == '\\' && base[1] == '\\' && base[2] == '?')
}

/// With slashes in place of backslashes, a name that is joined to a plain
/// directory stands behind its text and a slash, and makes a plain directory.
pub proof fn law_text_joined_to_plain_dir(base: Seq<char>, name: Seq<char>, res: Seq<char>)
    requires
        is_plain_dir(base),
        is_plain_name(name),
        is_joined(base, name, res),
    ensures
        yaml::slashed(res) == yaml::slashed(base) + seq!['/'] + name,
        is_plain_dir(res),
{
    assert(!is_verbatim(base));
    let n = base.len() as int;
    assert(res.len() == n + 1 + name.len());
    assert(res.take(n) =~= base);
    assert(res[n] == '/' || res[n] == '\\');
    assert(res.skip(n + 1) =~= name);
    assert forall|i: int| 0 <= i < res.len() implies #[trigger] yaml::slashed(res)[i] == (
    yaml::slashed(base) + seq!['/'] + name)[i] by {
        if i < n {
            assert(res[i] == base[i]);
        } else if i > n {
            assert(res[i] == name[i - n - 1]);
        }
    }
    assert(yaml::slashed(res) =~= yaml::slashed(base) + seq!['/'] + name);
    assert(res.last() == name.last());
    assert(name.last() == name[name.len() - 1]);
    assert(res[0] == base[0]);
    if n >= 2 {
        assert(res[1] == base[1]);
    }
    if n >= 3 {
        assert(res[2] == base[2]);
    }
}

/// With slashes in place of backslashes, the text of a path below a plain
/// directory is the same on every platform: the text of the directory, then
/// each name after a slash.
pub proof fn law_text_below_plain_dir(base: &Path, names: Seq<Seq<char>>, res: PathBuf)
    requires
        is_plain_dir(path_text(base)),
        forall|i: int| 0 <= i < names.len() ==> is_plain_name(#[trigger] names[i]),
        is_below(base, names, res),
    ensures
        yaml::slashed(path_buf_text(res)) == yaml::slashed(path_text(base)) + slash_path(names),
        is_plain_dir(path_buf_text(res)),
    decreases names.len(),
{
    let rest = names.drop_last();
    let name = names.last();
    assert(is_plain_name(names[names.len() - 1]));
    if names.len() == 1 {
        law_text_joined_to_plain_dir(path_text(base), name, path_buf_text(res));
        assert(slash_path(rest) =~= seq![]);
    } else {
        let (dir, at) = choose|dir: PathBuf, at: &Path|
            {
                &&& is_below(base, rest, dir)
                &&& #[trigger] is_borrow(dir, at)
                &&& #[trigger] is_join(at, name, res)
            };
        assert forall|i: int| 0 <= i < rest.len() implies is_plain_name(#[trigger] rest[i]) by {
            assert(rest[i] == names[i]);
        }
        law_text_below_plain_dir(base, rest, dir);
        law_text_joined_to_plain_dir(path_text(at), name, path_buf_text(res));
    }
    assert(yaml::slashed(path_buf_text(res)) =~= yaml::slashed(path_text(base)) + slash_path(
        names,
    ));
}

/// A name that is joined to a directory stands at the end, behind a separator.
/// Only an empty directory takes none, and a drive may take none.
pub proof fn law_joined_name_stands_behind_a_separator(
    base: Seq<char>,
    name: Seq<char>,
    res: Seq<char>,
)
    requires
        is_plain_name(name),
        is_joined(base, name, res),
        base.len() > 0,
        base.last() != ':' || is_verbatim(base),
    ensures
        (seq!['/'] + name).is_suffix_of(yaml::slashed(res)),
{
    let n = res.len() - name.len() - 1;
    let tail = res.skip(n);
    assert(tail =~= seq!['/'] + name || tail =~= seq!['\\'] + name) by {
        if !is_verbatim(base) {
            let slash = base + seq!['/'] + name;
            let backslash = base + seq!['\\'] + name;
            assert(slash.skip(base.len() as int) =~= seq!['/'] + name);
            assert(backslash.skip(base.len() as int) =~= seq!['\\'] + name);
            assert((base + name).skip(base.len() - 1) =~= seq![base.last()] + name);
        }
    }
    assert forall|i: int| 0 <= i < tail.len() implies #[trigger] yaml::slashed(tail)[i] == (
    seq!['/'] + name)[i] by {
        if i > 0 {
            assert(is_plain_char(name[i - 1]));
        }
    }
    assert(yaml::slashed(res).skip(n) =~= yaml::slashed(tail));
    assert(yaml::slashed(tail) =~= seq!['/'] + name);
}

/// Joins names to a directory, one after the other.
pub(crate) fn join_names(base: &Path, names: &[&str]) -> (res: PathBuf)
    requires
        names@.len() > 0,
        forall|i: int| 0 <= i < names@.len() ==> is_plain_name((#[trigger] names@[i])@),
    ensures
        is_below(base, names@.map_values(|s: &str| s@), res),
{
    let ghost all = names@.map_values(|s: &str| s@);
    let mut res = join_plain(base, names[0]);
    let mut i: usize = 1;
    assert(all.take(1).last() == all[0]);
    while i < names.len()
        invariant
            1 <= i <= names@.len(),
            all == names@.map_values(|s: &str| s@),
            forall|j: int| 0 <= j < names@.len() ==> is_plain_name((#[trigger] names@[j])@),
            is_below(base, all.take(i as int), res),
        decreases names@.len() - i,
    {
        let ghost dir = res;
        let at = borrowed(&res);
        let next = join_plain(at, names[i]);
        proof {
            let longer = all.take(i + 1);
            assert(longer.drop_last() =~= all.take(i as int));
            assert(longer.last() == all[i as int]);
            assert(is_borrow(dir, at));
            assert(is_join(at, longer.last(), next));
        }
        res = next;
        i = i + 1;
    }
    assert(all.take(all.len() as int) =~= all);
    res
}

/// An answer about a path is an answer of the question to a path that reads the
/// same, and not to its opposite.
pub proof fn law_answer_is_given_to_the_question<F: Fn(&Path) -> bool>(
    question: F,
    path: PathBuf,
    answer: bool,
)
    requires
        is_answer(question, path, answer),
    ensures
        exists|asked: &Path|
            path_text(asked) == path_buf_text(path) && #[trigger] call_ensures(
                question,
                (asked,),
                answer,
            ),
{
}

} // verus!
