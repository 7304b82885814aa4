//! Laws of import resolution.

use vstd::prelude::*;
use crate::resolver::{
    candidate, climbed, leading_dots, marker_suffix, module_suffix, names_sibling,
    relative_base, resolve, resolve_from, sibling_base, slash,
};
use crate::text::{join, lemma_split_some, non_empty, split, Cut};

verus! {

/// Whether the character `c` does not occur in `s`.
pub open spec fn free_of(s: Seq<char>, c: char) -> bool {
    forall|i: int| 0 <= i < s.len() ==> s[i] != c
}

/// A piece without cut points that follows a cut point is the last piece of
/// the split text, after the pieces of what stands before the cut point.
pub proof fn lemma_split_append(a: Seq<char>, y: Seq<char>, c: char)
    requires
        free_of(y, c),
    ensures
        split(a + seq![c] + y, Cut::At(c)) == split(a, Cut::At(c)).push(y),
    decreases y.len(),
{
    let s = a + seq![c] + y;
    if y.len() == 0 {
        assert(s.drop_last() =~= a);
        assert(s.last() == c);
        assert(y =~= Seq::<char>::empty());
    } else {
        lemma_split_append(a, y.drop_last(), c);
        assert(s.drop_last() =~= a + seq![c] + y.drop_last());
        assert(s.last() == y.last());
        let before = split(a, Cut::At(c)).push(y.drop_last());
        assert(before.drop_last() =~= split(a, Cut::At(c)));
        assert(before.last().push(y.last()) =~= y);
    }
}

/// Joining the segments of a path with slashes gives the path back.
pub proof fn lemma_join_split(s: Seq<char>)
    ensures
        join(split(s, Cut::At('/')), slash()) == s,
    decreases s.len(),
{
    let parts = split(s, Cut::At('/'));
    if s.len() == 0 {
        assert(parts[0] =~= s);
    } else {
        let before = split(s.drop_last(), Cut::At('/'));
        lemma_split_some(s.drop_last(), Cut::At('/'));
        lemma_join_split(s.drop_last());
        if s.last() == '/' {
            assert(parts.drop_last() =~= before);
            assert(s.drop_last() + slash() + Seq::<char>::empty() =~= s);
        } else if before.len() == 1 {
            assert(parts[0] =~= s);
        } else {
            assert(parts.drop_last() =~= before.drop_last());
            assert(join(before.drop_last(), slash()) + slash() + before.last().push(s.last())
                =~= (join(before.drop_last(), slash()) + slash() + before.last()).push(s.last()));
            assert(s.drop_last().push(s.last()) =~= s);
        }
    }
}

/// A piece joined to at least one piece stands after a separator.
pub proof fn lemma_join_push(parts: Seq<Seq<char>>, y: Seq<char>, sep: Seq<char>)
    requires
        parts.len() >= 1,
    ensures
        join(parts.push(y), sep) == join(parts, sep) + sep + y,
{
    assert(parts.push(y).drop_last() =~= parts);
}

/// `import X` resolves to `X`, whatever files were discovered.
pub proof fn lemma_plain_import(
    directory: Seq<char>,
    name: Seq<char>,
    file_path: Seq<char>,
    files: Seq<Seq<char>>,
)
    ensures
        resolve(directory, seq!["import"@, name], file_path, files) == name,
{
}

/// `import X as Y` resolves to `X`, whatever the alias and whatever files were
/// discovered.
pub proof fn lemma_aliased_import(
    directory: Seq<char>,
    import: Seq<Seq<char>>,
    file_path: Seq<char>,
    files: Seq<Seq<char>>,
)
    requires
        import.len() >= 3,
        import[0] == "import"@,
        import[2] == "as"@,
    ensures
        resolve(directory, import, file_path, files) == import[1],
{
}

/// `from . import Y` in the file `folder/file` resolves to `Y.py` if the file
/// `folder/Y.py` was discovered, whatever follows `Y` in the statement.
pub proof fn lemma_sibling_module(
    directory: Seq<char>,
    folder: Seq<char>,
    file: Seq<char>,
    import: Seq<Seq<char>>,
    files: Seq<Seq<char>>,
)
    requires
        free_of(file, '/'),
        import.len() >= 4,
        import[0] == "from"@,
        import[1] == seq!['.'],
        import[2] == "import"@,
        free_of(import[3], '/'),
        files.contains(folder + slash() + import[3] + module_suffix()),
    ensures
        resolve(directory, import, folder + slash() + file, files) == import[3]
            + module_suffix(),
{
    let name = import[3];
    let path = folder + slash() + file;
    let target = import[1];
    reveal_strlit("from");
    reveal_strlit("import");
    assert("from"@.len() != "import"@.len());
    assert(leading_dots(target) == 1) by {
        reveal_with_fuel(leading_dots, 3);
    }
    assert(non_empty(split(target, Cut::At('.'))).len() == 0) by {
        reveal_with_fuel(split, 3);
        reveal_with_fuel(non_empty, 4);
        assert(target.drop_last() =~= Seq::<char>::empty());
        let pieces = split(target, Cut::At('.'));
        assert(pieces =~= seq![Seq::<char>::empty(), Seq::<char>::empty()]);
        assert(pieces.drop_last() =~= seq![Seq::<char>::empty()]);
        assert(pieces.drop_last().drop_last() =~= Seq::<Seq<char>>::empty());
    }
    assert(names_sibling(import));
    let above = split(folder, Cut::At('/'));
    lemma_split_some(folder, Cut::At('/'));
    lemma_split_append(folder, file, '/');
    assert(climbed(path, 1) =~= above);
    lemma_join_push(above, name, slash());
    lemma_join_split(folder);
    let base = sibling_base(path, target, name);
    assert(base == folder + slash() + name);
    lemma_split_append(folder, name, '/');
    assert(split(base, Cut::At('/')).last() == name);
    assert(candidate(base, files) == Some(name + module_suffix()));
}

/// Resolution looks only at which files were discovered, not at their order
/// or number of occurrences.
pub proof fn lemma_file_order_irrelevant(
    directory: Seq<char>,
    import: Seq<Seq<char>>,
    file_path: Seq<char>,
    first: Seq<Seq<char>>,
    second: Seq<Seq<char>>,
)
    requires
        forall|f: Seq<char>| first.contains(f) == second.contains(f),
    ensures
        resolve(directory, import, file_path, first) == resolve(
            directory,
            import,
            file_path,
            second,
        ),
{
}

/// `from ..other import Y` in the file `folder/sub/file` resolves to the
/// directory `folder/other/` if the package marker of that directory was
/// discovered and the module file `folder/other.py` was not.
pub proof fn lemma_parent_package(
    directory: Seq<char>,
    folder: Seq<char>,
    sub: Seq<char>,
    file: Seq<char>,
    other: Seq<char>,
    import: Seq<Seq<char>>,
    files: Seq<Seq<char>>,
)
    requires
        free_of(sub, '/'),
        free_of(file, '/'),
        free_of(other, '.'),
        other.len() > 0,
        import.len() >= 2,
        import[0] == "from"@,
        import[1] == seq!['.', '.'] + other,
        files.contains(folder + slash() + other + marker_suffix()),
        !files.contains(folder + slash() + other + module_suffix()),
    ensures
        resolve(directory, import, folder + slash() + sub + slash() + file, files) == folder
            + slash() + other + slash(),
{
    let path = folder + slash() + sub + slash() + file;
    let target = import[1];
    reveal_strlit("from");
    reveal_strlit("import");
    assert("from"@.len() != "import"@.len());
    assert(leading_dots(target) == 2) by {
        reveal_with_fuel(leading_dots, 3);
        assert(target.skip(1) =~= seq!['.'] + other);
        assert(target.skip(1).skip(1) =~= other);
        assert(other[0] != '.');
    }
    let empty = Seq::<char>::empty();
    assert(non_empty(split(target, Cut::At('.'))) == seq![other]) by {
        let dot = seq!['.'];
        assert(target =~= dot + seq!['.'] + other);
        lemma_split_append(dot, other, '.');
        assert(split(dot, Cut::At('.')) =~= seq![empty, empty]) by {
            reveal_with_fuel(split, 3);
            assert(dot.drop_last() =~= empty);
        }
        let pieces = seq![empty, empty].push(other);
        assert(pieces.drop_last() =~= seq![empty, empty]);
        assert(seq![empty, empty].drop_last() =~= seq![empty]);
        assert(seq![empty].drop_last() =~= Seq::<Seq<char>>::empty());
        reveal_with_fuel(non_empty, 5);
        assert(non_empty(pieces) =~= seq![other]);
    }
    assert(!names_sibling(import));
    let above = split(folder, Cut::At('/'));
    lemma_split_some(folder, Cut::At('/'));
    lemma_split_append(folder + slash() + sub, file, '/');
    lemma_split_append(folder, sub, '/');
    assert(climbed(path, 2) =~= above);
    assert(above + seq![other] =~= above.push(other));
    lemma_join_push(above, other, slash());
    lemma_join_split(folder);
    let base = relative_base(path, target);
    assert(base == folder + slash() + other);
    assert(candidate(base, files) == Some(base + slash()));
    assert(resolve_from(directory, import, path, files) == Some(base + slash()));
}

} // verus!
