//! The scan: from the discovered files and their contents to the graph and
//! the report of unresolved imports.

use vstd::prelude::*;
use crate::graph::{Graph, GraphModel};
use crate::graph_laws::lemma_scan_closed;
use crate::imports::{classify, classify_lines, extract, extract_lines, tables};
use crate::resolver::{resolve, resolve_target, slash, unknown};
use crate::text::{
    chars_of, copy_text, join, join_text, rows, same, slice_text, split, split_text, string_of,
    Cut,
};

verus! {

/// The arguments of a scan.
#[derive(Debug)]
pub struct Args {
    /// The root directory of the scan.
    pub directory: String,
}

/// A discovered file: its path as it was discovered, and its content.
#[derive(Debug)]
pub struct SourceFile {
    pub path: String,
    pub content: String,
}

impl View for SourceFile {
    type V = (Seq<char>, Seq<char>);

    open spec fn view(&self) -> (Seq<char>, Seq<char>) {
        (self.path@, self.content@)
    }
}

/// The contents of a sequence of discovered files.
pub open spec fn sources(v: Seq<SourceFile>) -> Seq<(Seq<char>, Seq<char>)> {
    v.map_values(|f: SourceFile| f@)
}

/// The paths of the discovered files.
pub open spec fn paths(files: Seq<(Seq<char>, Seq<char>)>) -> Seq<Seq<char>> {
    files.map_values(|f: (Seq<char>, Seq<char>)| f.0)
}

/// Whether the file is a package marker, which is no node of its own.
pub open spec fn is_ignored(path: Seq<char>) -> bool {
    split(path, Cut::At('/')).last() == "__init__.py"@
}

/// The path of a file relative to the scan root: without the root and the
/// slash after it where the path begins with them, else as it is.
pub open spec fn relative_path(directory: Seq<char>, path: Seq<char>) -> Seq<char> {
    let prefix = directory + slash();
    if prefix.is_prefix_of(path) {
        path.skip(prefix.len() as int)
    } else {
        path
    }
}

/// The statement as one text: its tokens with one space between them.
pub open spec fn statement_text(import: Seq<Seq<char>>) -> Seq<char> {
    join(import, seq![' '])
}

/// The graph after one import of the file `path`, whose relative path is
/// `rel`, was resolved to `target`: an edge, or one more unresolved import.
pub open spec fn record(
    g: GraphModel,
    rel: Seq<char>,
    path: Seq<char>,
    import: Seq<Seq<char>>,
    target: Seq<char>,
) -> GraphModel {
    if target == unknown() {
        g.with_unresolved(path, statement_text(import))
    } else {
        g.with_edge(rel, target)
    }
}

/// The graph after the classified imports of one file were resolved and
/// recorded, in order.
pub open spec fn scan_imports(
    g: GraphModel,
    directory: Seq<char>,
    path: Seq<char>,
    imports: Seq<Seq<Seq<char>>>,
    files: Seq<Seq<char>>,
) -> GraphModel
    decreases imports.len(),
{
    if imports.len() == 0 {
        g
    } else {
        record(
            scan_imports(g, directory, path, imports.drop_last(), files),
            relative_path(directory, path),
            path,
            imports.last(),
            resolve(directory, imports.last(), path, files),
        )
    }
}

/// The graph after one discovered file: unchanged for a package marker, else
/// with the file as a node and its imports recorded.
pub open spec fn scan_file(
    g: GraphModel,
    directory: Seq<char>,
    file: (Seq<char>, Seq<char>),
    files: Seq<Seq<char>>,
) -> GraphModel {
    if is_ignored(file.0) {
        g
    } else {
        scan_imports(
            g.with_node(relative_path(directory, file.0)),
            directory,
            file.0,
            classify(extract(file.1)),
            files,
        )
    }
}

/// The graph after the files `some` were scanned in order, resolved against
/// the paths `files`.
pub open spec fn scan_all(
    directory: Seq<char>,
    some: Seq<(Seq<char>, Seq<char>)>,
    files: Seq<Seq<char>>,
) -> GraphModel
    decreases some.len(),
{
    if some.len() == 0 {
        GraphModel::empty()
    } else {
        scan_file(scan_all(directory, some.drop_last(), files), directory, some.last(), files)
    }
}

/// The graph of a scan of `files` below the root `directory`.
pub open spec fn scan_model(directory: Seq<char>, files: Seq<(Seq<char>, Seq<char>)>) -> GraphModel {
    scan_all(directory, files, paths(files))
}

/// Decides whether the file is a package marker.
pub fn is_ignored_path(path: &Vec<char>) -> (ignored: bool)
    ensures
        ignored == is_ignored(path@),
{
    let segments = split_text(path, Cut::At('/'));
    assert(rows(segments@).last() == segments@[segments.len() - 1]@);
    same(&segments[segments.len() - 1], &chars_of("__init__.py"))
}

/// Decides whether the discovered file `path` is a package marker: such a
/// file is no node, and its content is never looked at.
pub fn is_package_marker(path: &str) -> (ignored: bool)
    ensures
        ignored == is_ignored(path@),
{
    is_ignored_path(&chars_of(path))
}

/// The path of a file relative to the scan root.
pub fn relative_to(directory: &Vec<char>, path: &Vec<char>) -> (rel: Vec<char>)
    ensures
        rel@ == relative_path(directory@, path@),
{
    let mut prefix = copy_text(directory);
    prefix.push('/');
    assert(prefix@ =~= directory@ + slash());
    if prefix.len() > path.len() {
        return copy_text(path);
    }
    let mut i: usize = 0;
    while i < prefix.len()
        invariant
            i <= prefix.len() <= path.len(),
            prefix@ == directory@ + slash(),
            forall|j: int| 0 <= j < i ==> prefix@[j] == path@[j],
        decreases prefix.len() - i,
    {
        if prefix[i] != path[i] {
            assert(path@.subrange(0, prefix@.len() as int)[i as int] != prefix@[i as int]);
            return copy_text(path);
        }
        i += 1;
    }
    assert(prefix@.is_prefix_of(path@)) by {
        assert(prefix@ =~= path@.subrange(0, prefix@.len() as int));
    }
    let rel = slice_text(path, prefix.len(), path.len());
    assert(rel@ =~= path@.skip(prefix.len() as int));
    rel
}

/// Records the imports of one discovered file in the graph.
pub fn scan_source(
    g: &mut Graph,
    directory: &Vec<char>,
    path: &Vec<char>,
    content: &Vec<char>,
    files: &Vec<Vec<char>>,
)
    ensures
        final(g)@ == scan_file(old(g)@, directory@, (path@, content@), rows(files@)),
{
    if is_ignored_path(path) {
        return ;
    }
    let rel = relative_to(directory, path);
    g.add_node(string_of(&rel));
    let ghost start = g@;
    let imports = classify_lines(&extract_lines(content));
    let unknown_name = chars_of("UNKNOWN");
    let space: Vec<char> = vec![' '];
    assert(space@ =~= seq![' ']);
    let mut k: usize = 0;
    while k < imports.len()
        invariant
            k <= imports.len(),
            unknown_name@ == unknown(),
            space@ == seq![' '],
            rel@ == relative_path(directory@, path@),
            g@ == scan_imports(
                start,
                directory@,
                path@,
                tables(imports@).take(k as int),
                rows(files@),
            ),
        decreases imports.len() - k,
    {
        assert(tables(imports@).take(k + 1).drop_last() =~= tables(imports@).take(k as int));
        assert(tables(imports@).take(k + 1).last() == rows(imports@[k as int]@));
        let target = resolve_target(directory, &imports[k], path, files);
        if same(&target, &unknown_name) {
            g.add_unresolved(string_of(path), string_of(&join_text(&imports[k], &space)));
        } else {
            g.add_edge(string_of(&rel), string_of(&target));
        }
        k += 1;
    }
    assert(tables(imports@).take(imports.len() as int) =~= tables(imports@));
}

/// Scans the discovered files in order. Each file that is no package marker
/// becomes a node under its path relative to the root; each of its import
/// lines that names no standard-library module is resolved against the paths
/// of all discovered files and gives an edge to its target, or an unresolved
/// import of the file.
pub fn scan(args: &Args, files: &Vec<SourceFile>) -> (g: Graph)
    ensures
        g@ == scan_model(args.directory@, sources(files@)),
        g@.wf(),
{
    proof {
        lemma_scan_closed(args.directory@, sources(files@));
    }
    let directory = chars_of(args.directory.as_str());
    let mut all: Vec<Vec<char>> = Vec::new();
    let mut i: usize = 0;
    while i < files.len()
        invariant
            i <= files.len(),
            all.len() == i,
            rows(all@) == paths(sources(files@)).take(i as int),
        decreases files.len() - i,
    {
        let ghost done = rows(all@);
        all.push(chars_of(files[i].path.as_str()));
        assert(rows(all@) =~= done.push(files@[i as int].path@));
        assert(paths(sources(files@)).take(i + 1) =~= paths(sources(files@)).take(i as int).push(
            files@[i as int].path@,
        ));
        i += 1;
    }
    assert(paths(sources(files@)).take(files.len() as int) =~= paths(sources(files@)));
    let mut g = Graph::new();
    let mut n: usize = 0;
    while n < files.len()
        invariant
            n <= files.len(),
            directory@ == args.directory@,
            all.len() == files.len(),
            rows(all@) == paths(sources(files@)),
            g@ == scan_all(directory@, sources(files@).take(n as int), rows(all@)),
        decreases files.len() - n,
    {
        assert(sources(files@).take(n + 1).drop_last() =~= sources(files@).take(n as int));
        assert(sources(files@).take(n + 1).last() == files@[n as int]@);
        let content = chars_of(files[n].content.as_str());
        scan_source(&mut g, &directory, &all[n], &content, &all);
        assert(rows(all@)[n as int] == files@[n as int].path@);
        n += 1;
    }
    assert(sources(files@).take(files.len() as int) =~= sources(files@));
    g
}

} // verus!
