//! Where the engine's files are: its data directory and its program.

#[allow(unused_imports)]
use crate::path;
use crate::path::{
    ask_main_separator, ask_of_path, ask_separator, borrowed, join_names, join_plain, parent_of,
};
#[allow(unused_imports)]
use crate::yaml;
use std::path::{Path, PathBuf};
use vstd::prelude::*;

verus! {

/// The name of the engine's directory below the application's data directory.
pub const ENGINE_DATA_DIR_NAME: &'static str = "rag-engine";

/// The name of the engine's program, without what the platform appends to it.
pub const ENGINE_BINARY_BASENAME: &'static str = "ai-engine-server";

/// The engine's directory below the application's data directory.
pub fn engine_root_dir(app_data_dir: &Path) -> (res: PathBuf)
    ensures
        path::is_join(app_data_dir, ENGINE_DATA_DIR_NAME@, res),
{
    proof {
        lemma_names_are_plain(false);
    }
    join_plain(app_data_dir, ENGINE_DATA_DIR_NAME)
}

/// The file name of a program: Windows appends `.exe`.
pub open spec fn binary_name(base: Seq<char>, is_windows: bool) -> Seq<char> {
    if is_windows {
        base + ".exe"@
    } else {
        base
    }
}

/// The file name of a program on Windows, or on another platform.
pub fn platform_binary_name_for(base: &str, is_windows: bool) -> (res: String)
    ensures
        res@ == binary_name(base@, is_windows),
{
    let mut name = base.to_owned();
    if is_windows {
        name.append(".exe");
    }
    name
}

/// Whether a platform is Windows, told by its paths: Windows alone writes them
/// with backslashes and reads slashes too.
pub fn has_windows_paths(main_separator: char, slash_separates: bool) -> (res: bool)
    ensures
        res == (main_separator == '\\' && slash_separates),
{
    main_separator == '\\' && slash_separates
}

/// Whether the platform is Windows or not, as told by what it may answer when
/// it is asked about its paths.
pub open spec fn is_windows_answer(answer: bool) -> bool {
    exists|main_separator: char, slash_separates: bool|
        {
            &&& #[trigger] path::is_main_separator(main_separator)
            &&& #[trigger] path::is_separator_answer('/', slash_separates)
            &&& answer == (main_separator == '\\' && slash_separates)
        }
}

/// Whether this platform is Windows.
fn on_windows() -> (res: bool)
    ensures
        is_windows_answer(res),
{
    has_windows_paths(ask_main_separator(), ask_separator('/'))
}

/// The file name of a program on this platform.
pub fn platform_binary_name(base: &str) -> (res: String)
    ensures
        exists|is_windows: bool| #[trigger]
            is_windows_answer(is_windows) && res@ == binary_name(base@, is_windows),
{
    platform_binary_name_for(base, on_windows())
}

/// The directories below a root in which the engine's program is looked for,
/// in that order: the root itself, the bundled programs, those of a source
/// tree, and the output of a build of the engine.
pub open spec fn binary_dirs() -> Seq<Seq<Seq<char>>> {
    seq![
        seq![],
        seq!["binaries"@],
        seq!["src-tauri"@, "binaries"@],
        seq!["external"@, "rag-engine"@, "engine"@, "go"@, "bin"@],
    ]
}

/// Every name on the way to the engine's program is one plain component.
proof fn lemma_names_are_plain(is_windows: bool)
    ensures
        path::is_plain_name(binary_name(ENGINE_BINARY_BASENAME@, is_windows)),
        path::is_plain_name("binaries"@),
        path::is_plain_name("src-tauri"@),
        path::is_plain_name("external"@),
        path::is_plain_name("rag-engine"@),
        path::is_plain_name("engine"@),
        path::is_plain_name("go"@),
        path::is_plain_name("bin"@),
{
    let base = ENGINE_BINARY_BASENAME@;
    let name = binary_name(base, is_windows);
    assert(path::has_plain_chars(base) && base.len() > 2) by {
        reveal_strlit("ai-engine-server");
    }
    assert(path::has_plain_chars(".exe"@)) by {
        reveal_strlit(".exe");
    }
    assert forall|i: int| 0 <= i < name.len() implies path::is_plain_char(#[trigger] name[i]) by {
        if i < base.len() {
            assert(name[i] == base[i]);
        } else {
            assert(name[i] == ".exe"@[i - base.len()]);
        }
    }
    assert(path::has_plain_chars("binaries"@) && "binaries"@.len() > 2) by {
        reveal_strlit("binaries");
    }
    assert(path::has_plain_chars("src-tauri"@) && "src-tauri"@.len() > 2) by {
        reveal_strlit("src-tauri");
    }
    assert(path::has_plain_chars("external"@) && "external"@.len() > 2) by {
        reveal_strlit("external");
    }
    assert(path::has_plain_chars("rag-engine"@) && "rag-engine"@.len() > 2) by {
        reveal_strlit("rag-engine");
    }
    assert(path::has_plain_chars("engine"@) && "engine"@.len() > 2) by {
        reveal_strlit("engine");
    }
    assert(path::has_plain_chars("go"@) && "go"@.len() == 2 && "go"@[0] == 'g') by {
        reveal_strlit("go");
    }
    assert(path::has_plain_chars("bin"@) && "bin"@.len() > 2) by {
        reveal_strlit("bin");
    }
}

/// Whether `paths` are the places below `root` where the program named
/// `binary` is looked for.
pub open spec fn are_candidates(root: &Path, binary: Seq<char>, paths: Seq<PathBuf>) -> bool {
    &&& paths.len() == binary_dirs().len()
    &&& forall|i: int|
        0 <= i < paths.len() ==> path::is_below(
            root,
            binary_dirs()[i].push(binary),
            #[trigger] paths[i],
        )
}

/// The places below `root` where the engine's program is looked for, under its
/// name on Windows or on another platform.
pub fn candidate_engine_binary_paths_for(root: &Path, is_windows: bool) -> (res: Vec<PathBuf>)
    ensures
        are_candidates(root, binary_name(ENGINE_BINARY_BASENAME@, is_windows), res@),
{
    let binary = platform_binary_name_for(ENGINE_BINARY_BASENAME, is_windows);
    let name = binary.as_str();
    proof {
        lemma_names_are_plain(is_windows);
    }
    let in_root: Vec<&str> = vec![name];
    let bundled: Vec<&str> = vec!["binaries", name];
    let in_tree: Vec<&str> = vec!["src-tauri", "binaries", name];
    let built: Vec<&str> = vec!["external", "rag-engine", "engine", "go", "bin", name];
    proof {
        assert(in_root@.map_values(|s: &str| s@) =~= binary_dirs()[0].push(name@));
        assert(bundled@.map_values(|s: &str| s@) =~= binary_dirs()[1].push(name@));
        assert(in_tree@.map_values(|s: &str| s@) =~= binary_dirs()[2].push(name@));
        assert(built@.map_values(|s: &str| s@) =~= binary_dirs()[3].push(name@));
    }
    let mut paths: Vec<PathBuf> = Vec::new();
    paths.push(join_names(root, in_root.as_slice()));
    paths.push(join_names(root, bundled.as_slice()));
    paths.push(join_names(root, in_tree.as_slice()));
    paths.push(join_names(root, built.as_slice()));
    paths
}

/// The places below `root` where the engine's program is looked for.
pub fn candidate_engine_binary_paths(root: &Path) -> (res: Vec<PathBuf>)
    ensures
        exists|is_windows: bool| #[trigger]
            is_windows_answer(is_windows) && are_candidates(
                root,
                binary_name(ENGINE_BINARY_BASENAME@, is_windows),
                res@,
            ),
{
    candidate_engine_binary_paths_for(root, on_windows())
}

/// Where a plain root has the engine's program, told with slashes: in the root
/// itself, in `binaries`, in `src-tauri/binaries` and in
/// `external/rag-engine/engine/go/bin`.
pub proof fn law_candidates_below_plain_root(
    root: &Path,
    is_windows: bool,
    paths: Seq<PathBuf>,
    i: int,
)
    requires
        path::is_plain_dir(path::path_text(root)),
        are_candidates(root, binary_name(ENGINE_BINARY_BASENAME@, is_windows), paths),
        0 <= i < paths.len(),
    ensures
        yaml::slashed(path::path_buf_text(paths[i])) == yaml::slashed(path::path_text(root))
            + path::slash_path(binary_dirs()[i]) + seq!['/'] + binary_name(
            ENGINE_BINARY_BASENAME@,
            is_windows,
        ),
{
    let binary = binary_name(ENGINE_BINARY_BASENAME@, is_windows);
    let names = binary_dirs()[i].push(binary);
    lemma_names_are_plain(is_windows);
    assert forall|k: int| 0 <= k < names.len() implies path::is_plain_name(#[trigger] names[k]) by {
        if k < binary_dirs()[i].len() {
            assert(names[k] == binary_dirs()[i][k]);
        }
    }
    path::law_text_below_plain_dir(root, names, paths[i]);
    assert(names.drop_last() =~= binary_dirs()[i]);
    let base = yaml::slashed(path::path_text(root));
    assert(base + path::slash_path(names) =~= base + path::slash_path(binary_dirs()[i]) + seq!['/']
        + binary);
}

// ---------------------------------------------------------------------------
// Choosing the program
// ---------------------------------------------------------------------------

/// The roots that are known, in the order in which they are searched.
pub open spec fn known_roots<'a>(
    resource_dir: Option<&'a Path>,
    current_dir: Option<&'a Path>,
    exe_dir: Option<&'a Path>,
) -> Seq<&'a Path> {
    as_roots(resource_dir) + as_roots(current_dir) + as_roots(exe_dir)
}

pub open spec fn as_roots(root: Option<&Path>) -> Seq<&Path> {
    match root {
        Some(dir) => seq![dir],
        None => seq![],
    }
}

/// Whether `dir` is `parent`, borrowed, or both are missing.
pub open spec fn is_optional_borrow(parent: Option<PathBuf>, dir: Option<&Path>) -> bool {
    match parent {
        Some(path) => dir is Some && path::is_borrow(path, dir->0),
        None => dir is None,
    }
}

/// Whether `dir` is the directory of the running program: missing where the
/// program is not known, and else what the platform takes for its parent.
pub open spec fn is_exe_dir(exe: Option<&Path>, dir: Option<&Path>) -> bool {
    match exe {
        Some(program) => exists|parent: Option<PathBuf>| #[trigger]
            path::is_parent_dir(program, parent) && is_optional_borrow(parent, dir),
        None => dir is None,
    }
}

/// Whether `paths` are the places below each of the roots, root after root.
pub open spec fn are_candidates_of_all(
    roots: Seq<&Path>,
    binary: Seq<char>,
    paths: Seq<PathBuf>,
) -> bool
    decreases roots.len(),
{
    if roots.len() == 0 {
        paths.len() == 0
    } else {
        let n = binary_dirs().len();
        &&& paths.len() >= n
        &&& are_candidates_of_all(roots.drop_last(), binary, paths.take(paths.len() - n))
        &&& are_candidates(roots.last(), binary, paths.skip(paths.len() - n))
    }
}

/// Places below some roots, followed by places below others, are the places
/// below all of them.
proof fn lemma_candidates_add(
    roots: Seq<&Path>,
    more_roots: Seq<&Path>,
    binary: Seq<char>,
    paths: Seq<PathBuf>,
    more_paths: Seq<PathBuf>,
)
    requires
        are_candidates_of_all(roots, binary, paths),
        are_candidates_of_all(more_roots, binary, more_paths),
    ensures
        are_candidates_of_all(roots + more_roots, binary, paths + more_paths),
    decreases more_roots.len(),
{
    let all = paths + more_paths;
    if more_roots.len() == 0 {
        assert(roots + more_roots =~= roots);
        assert(all =~= paths);
    } else {
        let n = binary_dirs().len();
        let kept = more_paths.take(more_paths.len() - n);
        lemma_candidates_add(roots, more_roots.drop_last(), binary, paths, kept);
        assert((roots + more_roots).drop_last() =~= roots + more_roots.drop_last());
        assert(all.take(all.len() - n) =~= paths + kept);
        assert(all.skip(all.len() - n) =~= more_paths.skip(more_paths.len() - n));
    }
}

/// The places below a root, if it is known.
fn candidates_below(root: Option<&Path>, is_windows: bool) -> (res: Vec<PathBuf>)
    ensures
        are_candidates_of_all(
            as_roots(root),
            binary_name(ENGINE_BINARY_BASENAME@, is_windows),
            res@,
        ),
{
    match root {
        None => Vec::new(),
        Some(dir) => {
            let paths = candidate_engine_binary_paths_for(dir, is_windows);
            proof {
                let n = binary_dirs().len();
                assert(as_roots(root).drop_last() =~= seq![]);
                assert(paths@.take(paths@.len() - n) =~= seq![]);
                assert(paths@.skip(paths@.len() - n) =~= paths@);
                reveal_with_fuel(are_candidates_of_all, 2);
            }
            paths
        },
    }
}

/// Whether `paths` is the order in which places are searched for the engine's
/// program: the place that was asked for, if any, then those below each of the
/// known roots.
pub open spec fn is_search_order(
    requested: Option<PathBuf>,
    roots: Seq<&Path>,
    is_windows: bool,
    paths: Seq<PathBuf>,
) -> bool {
    let binary = binary_name(ENGINE_BINARY_BASENAME@, is_windows);
    match requested {
        Some(path) => paths.len() > 0 && paths.first() == path && are_candidates_of_all(
            roots,
            binary,
            paths.drop_first(),
        ),
        None => are_candidates_of_all(roots, binary, paths),
    }
}

/// The order in which places are searched for the engine's program.
pub fn engine_binary_search_order(
    requested: Option<PathBuf>,
    resource_dir: Option<&Path>,
    current_dir: Option<&Path>,
    exe_dir: Option<&Path>,
    is_windows: bool,
) -> (res: Vec<PathBuf>)
    ensures
        is_search_order(
            requested,
            known_roots(resource_dir, current_dir, exe_dir),
            is_windows,
            res@,
        ),
{
    let mut candidates = candidates_below(resource_dir, is_windows);
    let mut in_current = candidates_below(current_dir, is_windows);
    let mut in_exe = candidates_below(exe_dir, is_windows);
    proof {
        let binary = binary_name(ENGINE_BINARY_BASENAME@, is_windows);
        let first = as_roots(resource_dir);
        let second = as_roots(current_dir);
        lemma_candidates_add(first, second, binary, candidates@, in_current@);
        lemma_candidates_add(
            first + second,
            as_roots(exe_dir),
            binary,
            candidates@ + in_current@,
            in_exe@,
        );
    }
    candidates.append(&mut in_current);
    candidates.append(&mut in_exe);
    match requested {
        None => candidates,
        Some(path) => {
            let ghost tail = candidates@;
            let mut paths: Vec<PathBuf> = Vec::new();
            paths.push(path);
            paths.append(&mut candidates);
            assert(paths@.drop_first() =~= tail);
            paths
        },
    }
}

/// The first of the paths whose mark is set.
pub open spec fn first_marked(paths: Seq<PathBuf>, marks: Seq<bool>) -> Option<PathBuf>
    decreases marks.len(),
{
    if paths.len() == 0 || marks.len() == 0 {
        None
    } else if marks.first() {
        Some(paths.first())
    } else {
        first_marked(paths.drop_first(), marks.drop_first())
    }
}

/// Whether the marks have the form of those of a search that goes through the
/// paths in order and stops at the first that is set: only the last mark may be
/// set, and it is set unless every path was marked.
pub open spec fn is_search(paths: Seq<PathBuf>, marks: Seq<bool>) -> bool {
    &&& marks.len() <= paths.len()
    &&& forall|i: int| 0 <= i < marks.len() - 1 ==> !#[trigger] marks[i]
    &&& marks.len() == paths.len() || (marks.len() > 0 && marks.last())
}

/// Whether each mark is an answer to a question about its path.
pub open spec fn are_answers<F: Fn(&Path) -> bool>(
    question: F,
    paths: Seq<PathBuf>,
    marks: Seq<bool>,
) -> bool {
    forall|i: int|
        0 <= i < marks.len() ==> path::is_answer(question, paths[i], #[trigger] marks[i])
}

proof fn lemma_first_marked_is(paths: Seq<PathBuf>, marks: Seq<bool>, n: int)
    requires
        0 <= n < marks.len(),
        n < paths.len(),
        marks[n],
        forall|i: int| 0 <= i < n ==> !#[trigger] marks[i],
    ensures
        first_marked(paths, marks) == Some(paths[n]),
    decreases n,
{
    if n > 0 {
        let rest = marks.drop_first();
        assert(!marks[0]);
        assert forall|i: int| 0 <= i < n - 1 implies !#[trigger] rest[i] by {
            assert(rest[i] == marks[i + 1]);
        }
        lemma_first_marked_is(paths.drop_first(), rest, n - 1);
    }
}

proof fn lemma_none_marked(paths: Seq<PathBuf>, marks: Seq<bool>)
    requires
        forall|i: int| 0 <= i < marks.len() && i < paths.len() ==> !#[trigger] marks[i],
    ensures
        first_marked(paths, marks) is None,
    decreases marks.len(),
{
    if marks.len() > 0 && paths.len() > 0 {
        let rest = marks.drop_first();
        assert(!marks[0]);
        assert forall|i: int|
            0 <= i < rest.len() && i < paths.len() - 1 implies !#[trigger] rest[i] by {
            assert(rest[i] == marks[i + 1]);
        }
        lemma_none_marked(paths.drop_first(), rest);
    }
}

/// The first of the paths whose mark is set.
#[verifier::loop_isolation(false)]
pub fn pick_marked(paths: Vec<PathBuf>, marks: &[bool]) -> (res: Option<PathBuf>)
    ensures
        res == first_marked(paths@, marks@),
{
    let ghost all = paths@;
    let mut left = paths;
    let mut i: usize = 0;
    while i < marks.len() && i < left.len()
        invariant
            i <= marks@.len(),
            i <= left@.len(),
            left@ == all,
            forall|j: int| 0 <= j < i ==> !#[trigger] marks@[j],
        decreases marks@.len() - i,
    {
        if marks[i] {
            proof {
                lemma_first_marked_is(all, marks@, i as int);
            }
            return Some(left.swap_remove(i));
        }
        i = i + 1;
    }
    proof {
        lemma_none_marked(all, marks@);
    }
    None
}

/// The first of the paths for which a question is answered with yes. It is asked
/// about the paths in order, and about none after that one.
pub fn first_path_where<F: Fn(&Path) -> bool>(paths: Vec<PathBuf>, question: F) -> (res: Option<
    PathBuf,
>)
    requires
        forall|asked: &Path| call_requires(question, (asked,)),
    ensures
        exists|marks: Seq<bool>|
            {
                &&& #[trigger] is_search(paths@, marks)
                &&& are_answers(question, paths@, marks)
                &&& res == first_marked(paths@, marks)
            },
{
    let mut marks: Vec<bool> = Vec::new();
    let mut found = false;
    while !found && marks.len() < paths.len()
        invariant
            forall|asked: &Path| call_requires(question, (asked,)),
            marks@.len() <= paths@.len(),
            are_answers(question, paths@, marks@),
            forall|i: int| 0 <= i < marks@.len() - 1 ==> !#[trigger] marks@[i],
            found <==> marks@.len() > 0 && marks@.last(),
        decreases paths@.len() - marks@.len(),
    {
        found = ask_of_path(&question, &paths[marks.len()]);
        marks.push(found);
    }
    assert(is_search(paths@, marks@));
    pick_marked(paths, marks.as_slice())
}

/// The first of the paths at which there is a regular file. The paths are
/// looked at in order, and none after the first file found.
pub fn first_existing_file(paths: Vec<PathBuf>) -> (res: Option<PathBuf>)
    ensures
        exists|marks: Seq<bool>|
            {
                &&& #[trigger] is_search(paths@, marks)
                &&& are_answers(Path::is_file, paths@, marks)
                &&& res == first_marked(paths@, marks)
            },
{
    first_path_where(paths, Path::is_file)
}

/// The engine's program: the first regular file in the search order. The roots
/// are the directory of bundled files, the current one and that of the running
/// program, as far as they are known.
pub fn resolve_engine_binary(
    requested: Option<PathBuf>,
    resource_dir: Option<&Path>,
    current_dir: Option<&Path>,
    exe: Option<&Path>,
) -> (res: Option<PathBuf>)
    ensures
        exists|
            exe_dir: Option<&Path>,
            is_windows: bool,
            paths: Seq<PathBuf>,
            marks: Seq<bool>,
        |
            {
                &&& #[trigger] is_exe_dir(exe, exe_dir)
                &&& is_windows_answer(is_windows)
                &&& #[trigger] is_search_order(
                    requested,
                    known_roots(resource_dir, current_dir, exe_dir),
                    is_windows,
                    paths,
                )
                &&& #[trigger] is_search(paths, marks)
                &&& are_answers(Path::is_file, paths, marks)
                &&& res == first_marked(paths, marks)
            },
{
    let is_windows = on_windows();
    let exe_parent = match exe {
        Some(program) => parent_of(program),
        None => None,
    };
    let exe_dir = match &exe_parent {
        Some(dir) => Some(borrowed(dir)),
        None => None,
    };
    let paths = engine_binary_search_order(
        requested,
        resource_dir,
        current_dir,
        exe_dir,
        is_windows,
    );
    assert(is_optional_borrow(exe_parent, exe_dir));
    assert(is_exe_dir(exe, exe_dir));
    first_existing_file(paths)
}

/// A search finds one of the paths, whatever the marks.
pub proof fn law_search_finds_one_of_the_paths(paths: Seq<PathBuf>, marks: Seq<bool>)
    requires
        is_search(paths, marks),
    ensures
        match first_marked(paths, marks) {
            Some(path) => marks.len() > 0 && marks.last() && path == paths[marks.len() - 1],
            None => marks.len() == paths.len() && forall|i: int|
                0 <= i < marks.len() ==> !#[trigger] marks[i],
        },
{
    if marks.len() > 0 && marks.last() {
        lemma_first_marked_is(paths, marks, marks.len() - 1);
    } else {
        assert forall|i: int| 0 <= i < marks.len() implies !#[trigger] marks[i] by {}
        lemma_none_marked(paths, marks);
    }
}

/// What a search finds was asked about and answered with yes, and every path
/// before it with no. Where it finds nothing, every path was answered with no.
pub proof fn law_search_finds_the_first_yes<F: Fn(&Path) -> bool>(
    question: F,
    paths: Seq<PathBuf>,
    marks: Seq<bool>,
)
    requires
        is_search(paths, marks),
        are_answers(question, paths, marks),
    ensures
        match first_marked(paths, marks) {
            Some(found) => exists|n: int|
                {
                    &&& 0 <= n < paths.len()
                    &&& found == #[trigger] paths[n]
                    &&& path::is_answer(question, found, true)
                    &&& forall|i: int|
                        0 <= i < n ==> path::is_answer(question, #[trigger] paths[i], false)
                },
            None => forall|i: int|
                0 <= i < paths.len() ==> path::is_answer(question, #[trigger] paths[i], false),
        },
{
    law_search_finds_one_of_the_paths(paths, marks);
    assert forall|i: int| 0 <= i < marks.len() && !marks[i] implies path::is_answer(
        question,
        #[trigger] paths[i],
        false,
    ) by {
        assert(path::is_answer(question, paths[i], marks[i]));
    }
    if first_marked(paths, marks) is Some {
        let n = marks.len() - 1;
        assert(path::is_answer(question, paths[n], marks[n]));
        assert forall|i: int| 0 <= i < n implies path::is_answer(
            question,
            #[trigger] paths[i],
            false,
        ) by {
            assert(!marks[i]);
        }
    }
}

/// Windows programs have `.exe` at the end of their names, others have their
/// bare names.
pub proof fn law_only_windows_appends_exe(base: Seq<char>)
    ensures
        binary_name(base, true) == base + seq!['.', 'e', 'x', 'e'],
        binary_name(base, false) == base,
{
    reveal_strlit(".exe");
    assert(".exe"@ =~= seq!['.', 'e', 'x', 'e']);
}

/// A platform is taken for Windows exactly where it writes backslashes in paths
/// and separates by slashes too.
pub proof fn law_windows_writes_backslashes_and_reads_slashes(answer: bool)
    requires
        is_windows_answer(answer),
    ensures
        exists|main: char, slash: bool|
            {
                &&& #[trigger] path::is_main_separator(main)
                &&& #[trigger] call_ensures(std::path::is_separator, ('/',), slash)
                &&& answer <==> main == '\\' && slash
            },
{
    let (main, slash) = choose|main: char, slash: bool|
        {
            &&& #[trigger] path::is_main_separator(main)
            &&& #[trigger] path::is_separator_answer('/', slash)
            &&& answer == (main == '\\' && slash)
        };
    assert(call_ensures(std::path::is_separator, ('/',), slash));
}

/// The directory of the running program is searched wherever the program is
/// known and has one: for a program in a plain directory it is that directory.
pub proof fn law_exe_dir_is_where_the_program_is(
    program: &Path,
    dir: Option<&Path>,
    base: Seq<char>,
    name: Seq<char>,
)
    requires
        is_exe_dir(Some(program), dir),
    ensures
        path::is_entry(path::path_text(program), base, name) ==> dir is Some && path::path_text(
            dir->0,
        ) == base,
        exists|parent: Option<PathBuf>| #[trigger]
            path::is_parent_answer(program, parent) && (parent is Some <==> dir is Some) && (
            parent is Some ==> path::path_text(dir->0) == path::path_buf_text(parent->0)),
{
    let parent = choose|parent: Option<PathBuf>| #[trigger]
        path::is_parent_dir(program, parent) && is_optional_borrow(parent, dir);
    assert(path::is_parent_answer(program, parent));
}

proof fn lemma_candidates_root_by_root(
    roots: Seq<&Path>,
    binary: Seq<char>,
    paths: Seq<PathBuf>,
    j: int,
)
    requires
        are_candidates_of_all(roots, binary, paths),
    ensures
        paths.len() == 4 * roots.len(),
        0 <= j < roots.len() ==> are_candidates(roots[j], binary, paths.subrange(4 * j, 4 * j + 4)),
    decreases roots.len(),
{
    if roots.len() > 0 {
        let rest = roots.drop_last();
        let kept = paths.take(paths.len() - 4);
        lemma_candidates_root_by_root(rest, binary, kept, j);
        if j == roots.len() - 1 {
            assert(paths.skip(paths.len() - 4) =~= paths.subrange(4 * j, 4 * j + 4));
        } else if 0 <= j < rest.len() {
            assert(rest[j] == roots[j]);
            assert(kept.subrange(4 * j, 4 * j + 4) =~= paths.subrange(4 * j, 4 * j + 4));
        }
    }
}

/// The four places below a root, at the positions from `at` on.
proof fn lemma_places(root: &Path, binary: Seq<char>, paths: Seq<PathBuf>, at: int)
    requires
        0 <= at,
        at + 4 <= paths.len(),
        are_candidates(root, binary, paths.subrange(at, at + 4)),
    ensures
        path::is_below(root, seq![binary], paths[at]),
        path::is_below(root, seq!["binaries"@, binary], paths[at + 1]),
        path::is_below(root, seq!["src-tauri"@, "binaries"@, binary], paths[at + 2]),
        path::is_below(
            root,
            seq!["external"@, "rag-engine"@, "engine"@, "go"@, "bin"@, binary],
            paths[at + 3],
        ),
{
    let part = paths.subrange(at, at + 4);
    assert(part[0] == paths[at]);
    assert(part[1] == paths[at + 1]);
    assert(part[2] == paths[at + 2]);
    assert(part[3] == paths[at + 3]);
    assert(binary_dirs()[0].push(binary) =~= seq![binary]);
    assert(binary_dirs()[1].push(binary) =~= seq!["binaries"@, binary]);
    assert(binary_dirs()[2].push(binary) =~= seq!["src-tauri"@, "binaries"@, binary]);
    assert(binary_dirs()[3].push(binary) =~= seq![
        "external"@,
        "rag-engine"@,
        "engine"@,
        "go"@,
        "bin"@,
        binary,
    ]);
}

/// The search is complete and in order. The place that was asked for, if any,
/// comes first. Then each known root has four places, and no other place is
/// searched: those of the resource directory, then those of the current
/// directory, then those of the program's directory. Below each root the program
/// is looked for in the root itself, in `binaries`, in `src-tauri/binaries` and
/// in `external/rag-engine/engine/go/bin`, in that order.
pub proof fn law_every_known_root_is_searched(
    requested: Option<PathBuf>,
    resource_dir: Option<&Path>,
    current_dir: Option<&Path>,
    exe_dir: Option<&Path>,
    is_windows: bool,
    paths: Seq<PathBuf>,
)
    requires
        is_search_order(
            requested,
            known_roots(resource_dir, current_dir, exe_dir),
            is_windows,
            paths,
        ),
    ensures
        ({
            let binary = if is_windows {
                "ai-engine-server"@ + seq!['.', 'e', 'x', 'e']
            } else {
                "ai-engine-server"@
            };
            let first: int = if requested is Some {
                1
            } else {
                0
            };
            let in_current: int = first + if resource_dir is Some {
                4int
            } else {
                0
            };
            let in_exe: int = in_current + if current_dir is Some {
                4int
            } else {
                0
            };
            let end: int = in_exe + if exe_dir is Some {
                4int
            } else {
                0
            };
            let places = |root: &Path, at: int|
                {
                    &&& path::is_below(root, seq![binary], paths[at])
                    &&& path::is_below(root, seq!["binaries"@, binary], paths[at + 1])
                    &&& path::is_below(root, seq!["src-tauri"@, "binaries"@, binary], paths[at + 2])
                    &&& path::is_below(
                        root,
                        seq!["external"@, "rag-engine"@, "engine"@, "go"@, "bin"@, binary],
                        paths[at + 3],
                    )
                };
            &&& paths.len() == end
            &&& requested matches Some(path) ==> paths[0] == path
            &&& resource_dir matches Some(dir) ==> places(dir, first)
            &&& current_dir matches Some(dir) ==> places(dir, in_current)
            &&& exe_dir matches Some(dir) ==> places(dir, in_exe)
        }),
{
    let binary = binary_name(ENGINE_BINARY_BASENAME@, is_windows);
    law_only_windows_appends_exe(ENGINE_BINARY_BASENAME@);
    let roots = known_roots(resource_dir, current_dir, exe_dir);
    let first: int = if requested is Some {
        1
    } else {
        0
    };
    let list = paths.skip(first);
    if requested is Some {
        assert(paths.drop_first() =~= list);
    } else {
        assert(paths =~= list);
    }
    let a: int = if resource_dir is Some {
        1
    } else {
        0
    };
    let b: int = a + if current_dir is Some {
        1int
    } else {
        0
    };
    lemma_candidates_root_by_root(roots, binary, list, 0);
    lemma_candidates_root_by_root(roots, binary, list, a);
    lemma_candidates_root_by_root(roots, binary, list, b);
    if resource_dir is Some {
        assert(roots[0] == resource_dir->0);
        assert(list.subrange(0, 4) =~= paths.subrange(first, first + 4));
        lemma_places(resource_dir->0, binary, paths, first);
    }
    if current_dir is Some {
        assert(roots[a] == current_dir->0);
        assert(list.subrange(4 * a, 4 * a + 4) =~= paths.subrange(
            first + 4 * a,
            first + 4 * a + 4,
        ));
        lemma_places(current_dir->0, binary, paths, first + 4 * a);
    }
    if exe_dir is Some {
        assert(roots[b] == exe_dir->0);
        assert(list.subrange(4 * b, 4 * b + 4) =~= paths.subrange(
            first + 4 * b,
            first + 4 * b + 4,
        ));
        lemma_places(exe_dir->0, binary, paths, first + 4 * b);
    }
}

/// Wherever a program is found below one of the known roots, no earlier place
/// had a file, and where none is found, no place had one: in particular a file
/// at a place below the current directory is never passed over for none.
pub proof fn law_no_place_is_passed_over(
    requested: Option<PathBuf>,
    resource_dir: Option<&Path>,
    current_dir: Option<&Path>,
    exe_dir: Option<&Path>,
    is_windows: bool,
    paths: Seq<PathBuf>,
    marks: Seq<bool>,
)
    requires
        is_search_order(
            requested,
            known_roots(resource_dir, current_dir, exe_dir),
            is_windows,
            paths,
        ),
        is_search(paths, marks),
        are_answers(Path::is_file, paths, marks),
    ensures
        match first_marked(paths, marks) {
            None => {
                &&& marks.len() == paths.len()
                &&& forall|i: int|
                    0 <= i < paths.len() ==> path::is_answer(
                        Path::is_file,
                        #[trigger] paths[i],
                        false,
                    )
            },
            Some(found) => exists|n: int|
                {
                    &&& 0 <= n < paths.len()
                    &&& found == #[trigger] paths[n]
                    &&& path::is_answer(Path::is_file, found, true)
                    &&& forall|i: int|
                        0 <= i < n ==> path::is_answer(Path::is_file, #[trigger] paths[i], false)
                },
        },
        requested matches Some(path) ==> paths.len() > 0 && paths[0] == path,
{
    law_every_known_root_is_searched(
        requested,
        resource_dir,
        current_dir,
        exe_dir,
        is_windows,
        paths,
    );
    law_search_finds_the_first_yes(Path::is_file, paths, marks);
    law_search_finds_one_of_the_paths(paths, marks);
}

/// The four places below a plain root, told with slashes and word for word.
pub proof fn law_candidates_by_name(root: &Path, is_windows: bool, paths: Seq<PathBuf>)
    requires
        path::is_plain_dir(path::path_text(root)),
        are_candidates(root, binary_name(ENGINE_BINARY_BASENAME@, is_windows), paths),
    ensures
        ({
            let base = yaml::slashed(path::path_text(root));
            let end = if is_windows {
                seq!['.', 'e', 'x', 'e']
            } else {
                seq![]
            };
            let text = |i: int| yaml::slashed(path::path_buf_text(paths[i]));
            &&& paths.len() == 4
            &&& text(0) == base + "/ai-engine-server"@ + end
            &&& text(1) == base + "/binaries/ai-engine-server"@ + end
            &&& text(2) == base + "/src-tauri/binaries/ai-engine-server"@ + end
            &&& text(3) == base + "/external/rag-engine/engine/go/bin/ai-engine-server"@ + end
        }),
{
    law_candidates_below_plain_root(root, is_windows, paths, 0);
    law_candidates_below_plain_root(root, is_windows, paths, 1);
    law_candidates_below_plain_root(root, is_windows, paths, 2);
    law_candidates_below_plain_root(root, is_windows, paths, 3);
    law_only_windows_appends_exe(ENGINE_BINARY_BASENAME@);
    let base = yaml::slashed(path::path_text(root));
    let binary = binary_name(ENGINE_BINARY_BASENAME@, is_windows);
    let end = if is_windows {
        seq!['.', 'e', 'x', 'e']
    } else {
        seq![]
    };
    let name = "ai-engine-server"@;
    assert(binary =~= name + end);
    lemma_place_texts();
    let dirs = binary_dirs();
    assert(base + path::slash_path(dirs[0]) + seq!['/'] + binary =~= base + (path::slash_path(
        dirs[0],
    ) + seq!['/'] + name) + end);
    assert(base + path::slash_path(dirs[1]) + seq!['/'] + binary =~= base + (path::slash_path(
        dirs[1],
    ) + seq!['/'] + name) + end);
    assert(base + path::slash_path(dirs[2]) + seq!['/'] + binary =~= base + (path::slash_path(
        dirs[2],
    ) + seq!['/'] + name) + end);
    assert(base + path::slash_path(dirs[3]) + seq!['/'] + binary =~= base + (path::slash_path(
        dirs[3],
    ) + seq!['/'] + name) + end);
}

proof fn lemma_slash_path_push(names: Seq<Seq<char>>, name: Seq<char>)
    ensures
        path::slash_path(names.push(name)) == path::slash_path(names) + seq!['/'] + name,
{
    assert(names.push(name).drop_last() =~= names);
}

proof fn lemma_place_texts()
    ensures
        ({
            let name = "ai-engine-server"@;
            let dirs = binary_dirs();
            &&& path::slash_path(dirs[0]) + seq!['/'] + name == "/ai-engine-server"@
            &&& path::slash_path(dirs[1]) + seq!['/'] + name == "/binaries/ai-engine-server"@
            &&& path::slash_path(dirs[2]) + seq!['/'] + name
                == "/src-tauri/binaries/ai-engine-server"@
            &&& path::slash_path(dirs[3]) + seq!['/'] + name
                == "/external/rag-engine/engine/go/bin/ai-engine-server"@
        }),
{
    let none = Seq::<Seq<char>>::empty();
    let name = "ai-engine-server"@;
    let dirs = binary_dirs();
    assert(path::slash_path(none) =~= seq![]);
    assert(dirs[0] =~= none);
    assert(path::slash_path(dirs[0]) + seq!['/'] + name =~= "/ai-engine-server"@) by {
        reveal_strlit("ai-engine-server");
        reveal_strlit("/ai-engine-server");
    }
    lemma_slash_path_push(none, "binaries"@);
    assert(dirs[1] =~= none.push("binaries"@));
    assert(path::slash_path(dirs[1]) + seq!['/'] + name =~= "/binaries/ai-engine-server"@) by {
        reveal_strlit("ai-engine-server");
        reveal_strlit("binaries");
        reveal_strlit("/binaries/ai-engine-server");
    }
    lemma_slash_path_push(none, "src-tauri"@);
    lemma_slash_path_push(none.push("src-tauri"@), "binaries"@);
    assert(dirs[2] =~= none.push("src-tauri"@).push("binaries"@));
    assert(path::slash_path(dirs[2]) + seq!['/'] + name
        =~= "/src-tauri/binaries/ai-engine-server"@) by {
        reveal_strlit("ai-engine-server");
        reveal_strlit("src-tauri");
        reveal_strlit("binaries");
        reveal_strlit("/src-tauri/binaries/ai-engine-server");
    }
    let e = none.push("external"@);
    let r = e.push("rag-engine"@);
    let n = r.push("engine"@);
    let g = n.push("go"@);
    lemma_slash_path_push(none, "external"@);
    lemma_slash_path_push(e, "rag-engine"@);
    lemma_slash_path_push(r, "engine"@);
    lemma_slash_path_push(n, "go"@);
    lemma_slash_path_push(g, "bin"@);
    assert(dirs[3] =~= g.push("bin"@));
    assert(path::slash_path(dirs[3]) + seq!['/'] + name
        =~= "/external/rag-engine/engine/go/bin/ai-engine-server"@) by {
        reveal_strlit("ai-engine-server");
        reveal_strlit("external");
        reveal_strlit("rag-engine");
        reveal_strlit("engine");
        reveal_strlit("go");
        reveal_strlit("bin");
        reveal_strlit("/external/rag-engine/engine/go/bin/ai-engine-server");
    }
}

/// The library searches the places like this: it asks about them in order and
/// takes the first with a file, and it names programs by the platform.
pub proof fn law_places_are_searched_like_this(
    requested: Option<PathBuf>,
    resource_dir: Option<&Path>,
    current_dir: Option<&Path>,
    exe_dir: Option<&Path>,
    is_windows: bool,
    order: Vec<PathBuf>,
)
    requires
        call_ensures(
            engine_binary_search_order,
            (requested, resource_dir, current_dir, exe_dir, is_windows),
            order,
        ),
    ensures
        order@.len() == (if requested is Some {
            1int
        } else {
            0
        }) + (if resource_dir is Some {
            4int
        } else {
            0
        }) + (if current_dir is Some {
            4int
        } else {
            0
        }) + (if exe_dir is Some {
            4int
        } else {
            0
        }),
        is_search_order(
            requested,
            known_roots(resource_dir, current_dir, exe_dir),
            is_windows,
            order@,
        ),
{
    law_every_known_root_is_searched(
        requested,
        resource_dir,
        current_dir,
        exe_dir,
        is_windows,
        order@,
    );
}

/// What the library takes for the engine's program is the place that was asked
/// for, or a place below a known root, and a file was found there; it takes
/// nothing only where none of them, in order and without exception, had a file.
pub proof fn law_program_is_found_wherever_it_is(
    requested: Option<PathBuf>,
    resource_dir: Option<&Path>,
    current_dir: Option<&Path>,
    exe: Option<&Path>,
    res: Option<PathBuf>,
)
    requires
        call_ensures(resolve_engine_binary, (requested, resource_dir, current_dir, exe), res),
    ensures
        res matches Some(found) ==> path::is_answer(Path::is_file, found, true),
        requested matches Some(path) ==> res == Some(path) || path::is_answer(
            Path::is_file,
            path,
            false,
        ),
        res is None ==> {
            &&& requested matches Some(path) ==> path::is_answer(Path::is_file, path, false)
            &&& resource_dir matches Some(dir) ==> no_program_below(dir)
            &&& current_dir matches Some(dir) ==> no_program_below(dir)
            &&& exists|exe_dir: Option<&Path>| #[trigger]
                is_exe_dir(exe, exe_dir) && (exe_dir matches Some(dir) ==> no_program_below(dir))
        },
{
    let (exe_dir, is_windows, paths, marks) = choose|
        exe_dir: Option<&Path>,
        is_windows: bool,
        paths: Seq<PathBuf>,
        marks: Seq<bool>,
    |
        {
            &&& #[trigger] is_exe_dir(exe, exe_dir)
            &&& is_windows_answer(is_windows)
            &&& #[trigger] is_search_order(
                requested,
                known_roots(resource_dir, current_dir, exe_dir),
                is_windows,
                paths,
            )
            &&& #[trigger] is_search(paths, marks)
            &&& are_answers(Path::is_file, paths, marks)
            &&& res == first_marked(paths, marks)
        };
    law_every_known_root_is_searched(
        requested,
        resource_dir,
        current_dir,
        exe_dir,
        is_windows,
        paths,
    );
    law_search_finds_the_first_yes(Path::is_file, paths, marks);
    law_only_windows_appends_exe("ai-engine-server"@);
    let first: int = if requested is Some {
        1
    } else {
        0
    };
    if res is None {
        if resource_dir is Some {
            lemma_no_program(resource_dir->0, is_windows, paths, first);
        }
        if current_dir is Some {
            lemma_no_program(
                current_dir->0,
                is_windows,
                paths,
                first + if resource_dir is Some {
                    4int
                } else {
                    0
                },
            );
        }
        if requested is Some {
            assert(path::is_answer(Path::is_file, paths[0], false));
        }
        if exe_dir is Some {
            lemma_no_program(exe_dir->0, is_windows, paths, paths.len() - 4);
        }
        assert(is_exe_dir(exe, exe_dir));
    } else if requested is Some {
        let n = choose|n: int|
            {
                &&& 0 <= n < paths.len()
                &&& res->0 == #[trigger] paths[n]
                &&& path::is_answer(Path::is_file, res->0, true)
                &&& forall|i: int|
                    0 <= i < n ==> path::is_answer(Path::is_file, #[trigger] paths[i], false)
            };
        if n > 0 {
            assert(path::is_answer(Path::is_file, paths[0], false));
        }
    }
}

/// Whether each of the four places below a root was looked at, under the
/// program's name on this platform, and had no file.
pub open spec fn no_program_below(root: &Path) -> bool {
    exists|is_windows: bool, paths: Seq<PathBuf>|
        {
            let binary = if is_windows {
                "ai-engine-server"@ + seq!['.', 'e', 'x', 'e']
            } else {
                "ai-engine-server"@
            };
            &&& #[trigger] is_windows_answer(is_windows)
            &&& #[trigger] paths.len() == 4
            &&& path::is_below(root, seq![binary], paths[0])
            &&& path::is_below(root, seq!["binaries"@, binary], paths[1])
            &&& path::is_below(root, seq!["src-tauri"@, "binaries"@, binary], paths[2])
            &&& path::is_below(
                root,
                seq!["external"@, "rag-engine"@, "engine"@, "go"@, "bin"@, binary],
                paths[3],
            )
            &&& forall|i: int|
                0 <= i < 4 ==> path::is_answer(Path::is_file, #[trigger] paths[i], false)
        }
}

proof fn lemma_no_program(root: &Path, is_windows: bool, paths: Seq<PathBuf>, at: int)
    requires
        is_windows_answer(is_windows),
        0 <= at,
        at + 4 <= paths.len(),
        forall|i: int|
            0 <= i < paths.len() ==> path::is_answer(Path::is_file, #[trigger] paths[i], false),
        ({
            let binary = if is_windows {
                "ai-engine-server"@ + seq!['.', 'e', 'x', 'e']
            } else {
                "ai-engine-server"@
            };
            &&& path::is_below(root, seq![binary], paths[at])
            &&& path::is_below(root, seq!["binaries"@, binary], paths[at + 1])
            &&& path::is_below(root, seq!["src-tauri"@, "binaries"@, binary], paths[at + 2])
            &&& path::is_below(
                root,
                seq!["external"@, "rag-engine"@, "engine"@, "go"@, "bin"@, binary],
                paths[at + 3],
            )
        }),
    ensures
        no_program_below(root),
{
    let part = paths.subrange(at, at + 4);
    assert(part.len() == 4);
    assert(part[0] == paths[at]);
    assert(part[1] == paths[at + 1]);
    assert(part[2] == paths[at + 2]);
    assert(part[3] == paths[at + 3]);
    assert forall|i: int| 0 <= i < 4 implies path::is_answer(
        Path::is_file,
        #[trigger] part[i],
        false,
    ) by {
        assert(part[i] == paths[at + i]);
    }
}

} // verus!
