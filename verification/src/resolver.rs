//! Resolution of one tokenised import statement against the set of
//! discovered files.

use vstd::prelude::*;
use crate::text::{
    append, chars_of, copy_text, drop_empty, holds, join, join_text, non_empty, rows, rows_of,
    same, split, split_text, string_of, texts, Cut,
};

verus! {

/// The name given to an import that no discovered file answers.
pub open spec fn unknown() -> Seq<char> {
    "UNKNOWN"@
}

/// The separator of path segments.
pub open spec fn slash() -> Seq<char> {
    seq!['/']
}

/// The suffix of a module file.
pub open spec fn module_suffix() -> Seq<char> {
    ".py"@
}

/// What follows a package directory in the path of its marker file.
pub open spec fn marker_suffix() -> Seq<char> {
    "/__init__.py"@
}

/// A dotted module name as a path: every dot becomes a slash.
pub open spec fn dots_to_slashes(name: Seq<char>) -> Seq<char> {
    name.map_values(
        |c: char|
            if c == '.' {
                '/'
            } else {
                c
            },
    )
}

/// The number of dots that `name` begins with.
pub open spec fn leading_dots(name: Seq<char>) -> nat
    decreases name.len(),
{
    if name.len() > 0 && name[0] == '.' {
        1 + leading_dots(name.skip(1))
    } else {
        0
    }
}

/// The top-level package of a dotted module name: what stands before its
/// first dot.
pub open spec fn package_of(name: Seq<char>) -> Seq<char> {
    split(name, Cut::At('.'))[0]
}

/// What the path `base` resolves to: the name of the module file
/// `base.py` if that file was discovered; else the directory `base/` if its
/// package marker was discovered; else nothing. The module file is preferred
/// where both exist.
pub open spec fn candidate(base: Seq<char>, files: Seq<Seq<char>>) -> Option<Seq<char>> {
    if files.contains(base + module_suffix()) {
        Some(split(base, Cut::At('/')).last() + module_suffix())
    } else if files.contains(base + marker_suffix()) {
        Some(base + slash())
    } else {
        None
    }
}

/// The path that an absolute module name stands for below the scan root.
pub open spec fn absolute_base(directory: Seq<char>, target: Seq<char>) -> Seq<char> {
    directory + slash() + dots_to_slashes(target)
}

/// The segments of `file_path` without its last `up` segments.
pub open spec fn climbed(file_path: Seq<char>, up: nat) -> Seq<Seq<char>> {
    let segments = split(file_path, Cut::At('/'));
    segments.take(
        if segments.len() > up {
            segments.len() - up
        } else {
            0
        },
    )
}

/// The path that a relative module name stands for: one segment is taken off
/// the importing file's path for each leading dot, then the name's segments
/// are descended into.
pub open spec fn relative_base(file_path: Seq<char>, target: Seq<char>) -> Seq<char> {
    join(
        climbed(file_path, leading_dots(target)) + non_empty(split(target, Cut::At('.'))),
        slash(),
    )
}

/// The path of the module `name` in the directory that the dots of `target`
/// lead to.
pub open spec fn sibling_base(file_path: Seq<char>, target: Seq<char>, name: Seq<char>) -> Seq<
    char,
> {
    join(climbed(file_path, leading_dots(target)).push(name), slash())
}

/// Whether the statement is `from <dots> import <name> ...`: its module part
/// holds dots only, so that the imported name is itself a module.
pub open spec fn names_sibling(import: Seq<Seq<char>>) -> bool {
    &&& import.len() >= 4
    &&& import[2] == "import"@
    &&& non_empty(split(import[1], Cut::At('.'))).len() == 0
}

/// What a `from` statement resolves to, if anything. A statement without a
/// module part resolves to nothing.
pub open spec fn resolve_from(
    directory: Seq<char>,
    import: Seq<Seq<char>>,
    file_path: Seq<char>,
    files: Seq<Seq<char>>,
) -> Option<Seq<char>> {
    if import.len() < 2 {
        None
    } else if import[1].len() > 0 && import[1][0] == '.' {
        let target = import[1];
        let plain = candidate(relative_base(file_path, target), files);
        if names_sibling(import) {
            match candidate(sibling_base(file_path, target, import[3]), files) {
                Some(t) => Some(t),
                None => plain,
            }
        } else {
            plain
        }
    } else {
        candidate(absolute_base(directory, import[1]), files)
    }
}

/// What an `import` statement resolves to, if anything. A statement without
/// a module resolves to nothing.
pub open spec fn resolve_import(
    directory: Seq<char>,
    import: Seq<Seq<char>>,
    files: Seq<Seq<char>>,
) -> Option<Seq<char>> {
    if import.len() < 2 {
        None
    } else if import.len() == 2 || import[2] == "as"@ {
        Some(import[1])
    } else if files.contains(directory + slash() + package_of(import[1]) + marker_suffix()) {
        Some(package_of(import[1]))
    } else {
        None
    }
}

/// The node that a tokenised import statement refers to, or `unknown()`.
pub open spec fn resolve(
    directory: Seq<char>,
    import: Seq<Seq<char>>,
    file_path: Seq<char>,
    files: Seq<Seq<char>>,
) -> Seq<char> {
    let found = if import.len() < 2 {
        None
    } else if import[0] == "import"@ {
        resolve_import(directory, import, files)
    } else if import[0] == "from"@ {
        resolve_from(directory, import, file_path, files)
    } else {
        None
    };
    match found {
        Some(t) => t,
        None => unknown(),
    }
}

/// The characters of an optional text.
pub open spec fn option_text(r: Option<Vec<char>>) -> Option<Seq<char>> {
    match r {
        Some(t) => Some(t@),
        None => None,
    }
}

/// `a` followed by `b`.
pub fn glue(a: &Vec<char>, b: &Vec<char>) -> (out: Vec<char>)
    ensures
        out@ == a@ + b@,
{
    let mut out = copy_text(a);
    append(&mut out, b);
    out
}

/// Counts the dots that `name` begins with.
pub fn count_leading_dots(name: &Vec<char>) -> (k: usize)
    ensures
        k == leading_dots(name@),
{
    let mut k: usize = 0;
    assert(name@.skip(0) =~= name@);
    while k < name.len() && name[k] == '.'
        invariant
            k <= name.len(),
            leading_dots(name@) == k + leading_dots(name@.skip(k as int)),
        decreases name.len() - k,
    {
        assert(name@.skip(k as int).skip(1) =~= name@.skip(k + 1));
        k += 1;
    }
    k
}

/// Replaces every dot of `name` by a slash.
pub fn path_of_dotted(name: &Vec<char>) -> (out: Vec<char>)
    ensures
        out@ == dots_to_slashes(name@),
{
    let mut out: Vec<char> = Vec::new();
    let mut i: usize = 0;
    while i < name.len()
        invariant
            i <= name.len(),
            out@ == dots_to_slashes(name@).take(i as int),
        decreases name.len() - i,
    {
        let c = name[i];
        out.push(
            if c == '.' {
                '/'
            } else {
                c
            },
        );
        assert(out@ =~= dots_to_slashes(name@).take(i + 1));
        i += 1;
    }
    assert(dots_to_slashes(name@).take(name.len() as int) =~= dots_to_slashes(name@));
    out
}

/// Tests the two candidate files of the path `base` against the discovered
/// files.
pub fn find_candidate(base: &Vec<char>, files: &Vec<Vec<char>>) -> (r: Option<Vec<char>>)
    ensures
        option_text(r) == candidate(base@, rows(files@)),
{
    let suffix = chars_of(".py");
    let module_file = glue(base, &suffix);
    if holds(files, &module_file) {
        let segments = split_text(base, Cut::At('/'));
        let name = glue(&segments[segments.len() - 1], &suffix);
        assert(rows(segments@).last() == segments@[segments.len() - 1]@);
        return Some(name);
    }
    let marker = glue(base, &chars_of("/__init__.py"));
    if holds(files, &marker) {
        let sep: Vec<char> = vec!['/'];
        assert(sep@ =~= slash());
        return Some(glue(base, &sep));
    }
    None
}

/// The segments of `file_path` without its last `up` segments.
pub fn climb(file_path: &Vec<char>, up: usize) -> (kept: Vec<Vec<char>>)
    ensures
        rows(kept@) == climbed(file_path@, up as nat),
{
    let mut kept = split_text(file_path, Cut::At('/'));
    let ghost all = kept@;
    let keep: usize = if kept.len() > up {
        kept.len() - up
    } else {
        0
    };
    kept.truncate(keep);
    assert(rows(kept@) =~= rows(all).take(keep as int));
    kept
}

/// Resolves a `from` statement.
pub fn find_from(
    directory: &Vec<char>,
    import: &Vec<Vec<char>>,
    file_path: &Vec<char>,
    files: &Vec<Vec<char>>,
) -> (r: Option<Vec<char>>)
    ensures
        option_text(r) == resolve_from(directory@, rows(import@), file_path@, rows(files@)),
{
    if import.len() < 2 {
        return None;
    }
    let sep: Vec<char> = vec!['/'];
    assert(sep@ =~= slash());
    let target = &import[1];
    assert(rows(import@)[1] == target@);
    if target.len() > 0 && target[0] == '.' {
        let up = count_leading_dots(target);
        let mut down = drop_empty(&split_text(target, Cut::At('.')));
        if import.len() >= 4 && down.len() == 0 && same(&import[2], &chars_of("import")) {
            assert(rows(import@)[2] == import@[2]@);
            assert(rows(import@)[3] == import@[3]@);
            let mut beside = climb(file_path, up);
            let ghost kept = rows(beside@);
            beside.push(copy_text(&import[3]));
            assert(rows(beside@) =~= kept.push(import@[3]@));
            let hit = find_candidate(&join_text(&beside, &sep), files);
            if hit.is_some() {
                return hit;
            }
        }
        let mut segments = climb(file_path, up);
        let ghost kept = rows(segments@);
        let ghost below = rows(down@);
        segments.append(&mut down);
        assert(rows(segments@) =~= kept + below);
        find_candidate(&join_text(&segments, &sep), files)
    } else {
        let mut base = glue(directory, &sep);
        append(&mut base, &path_of_dotted(target));
        find_candidate(&base, files)
    }
}

/// Resolves an `import` statement.
pub fn find_import(directory: &Vec<char>, import: &Vec<Vec<char>>, files: &Vec<Vec<char>>) -> (r:
    Option<Vec<char>>)
    ensures
        option_text(r) == resolve_import(directory@, rows(import@), rows(files@)),
{
    if import.len() < 2 {
        return None;
    }
    assert(rows(import@)[1] == import@[1]@);
    if import.len() == 2 {
        return Some(copy_text(&import[1]));
    }
    assert(rows(import@)[2] == import@[2]@);
    if same(&import[2], &chars_of("as")) {
        return Some(copy_text(&import[1]));
    }
    let pieces = split_text(&import[1], Cut::At('.'));
    assert(rows(pieces@)[0] == pieces@[0]@);
    let sep: Vec<char> = vec!['/'];
    assert(sep@ =~= slash());
    let mut marker = glue(directory, &sep);
    append(&mut marker, &pieces[0]);
    append(&mut marker, &chars_of("/__init__.py"));
    if holds(files, &marker) {
        Some(copy_text(&pieces[0]))
    } else {
        None
    }
}

/// Resolves one tokenised import statement, given as character vectors.
pub fn resolve_target(
    directory: &Vec<char>,
    import: &Vec<Vec<char>>,
    file_path: &Vec<char>,
    files: &Vec<Vec<char>>,
) -> (name: Vec<char>)
    ensures
        name@ == resolve(directory@, rows(import@), file_path@, rows(files@)),
{
    let mut found: Option<Vec<char>> = None;
    if import.len() >= 2 {
        assert(rows(import@)[0] == import@[0]@);
        if same(&import[0], &chars_of("import")) {
            found = find_import(directory, import, files);
        } else if same(&import[0], &chars_of("from")) {
            found = find_from(directory, import, file_path, files);
        }
    }
    match found {
        Some(t) => t,
        None => chars_of("UNKNOWN"),
    }
}

/// Resolves one tokenised import statement of the file `file_path` against
/// the discovered files `file_paths`, below the scan root `directory`.
///
/// `import X` and `import X as Y` give `X` without looking at the files. A
/// longer `import` statement gives the top-level package of its module if that
/// package's marker file was discovered below the root. A `from` statement
/// gives the module file or package directory that its module part leads to,
/// from the root or, with leading dots, from the importing file; where the
/// module part holds dots only, the first imported name is tried as a module
/// of that directory before the directory itself. Everything else gives
/// `"UNKNOWN"`. Only the set of discovered paths counts, not their order.
pub fn get_file_or_module_name_from_import(
    directory: &str,
    import: Vec<String>,
    file_path: &str,
    file_paths: Vec<String>,
) -> (name: String)
    ensures
        name@ == resolve(directory@, texts(import@), file_path@, texts(file_paths@)),
{
    let name = resolve_target(
        &chars_of(directory),
        &rows_of(&import),
        &chars_of(file_path),
        &rows_of(&file_paths),
    );
    string_of(&name)
}

} // verus!
