//! Laws of the graph that a scan builds.

use vstd::prelude::*;
use crate::graph::{elements_of, entry_index, GraphModel};
use crate::imports::{classify, extract, lemma_classified_not_std};
use crate::py_std_libs::is_std_module;
use crate::resolver::{resolve, unknown};
use crate::scan::{
    is_ignored, paths, record, relative_path, scan_all, scan_file, scan_imports,
    scan_model, statement_text,
};

verus! {

/// Whether `h` has every node of `g`, and the edges of `g` followed by edges
/// that all start at `source`.
pub open spec fn extends(g: GraphModel, h: GraphModel, source: Seq<char>) -> bool {
    &&& forall|m: Seq<char>| #[trigger] g.nodes.contains(m) ==> h.nodes.contains(m)
    &&& g.edges.len() <= h.edges.len()
    &&& forall|k: int| 0 <= k < g.edges.len() ==> #[trigger] h.edges[k] == g.edges[k]
    &&& forall|k: int| g.edges.len() <= k < h.edges.len() ==> (#[trigger] h.edges[k]).0 == source
}

/// Whether `m` is the target of an edge of `g`.
pub open spec fn is_target(g: GraphModel, m: Seq<char>) -> bool {
    exists|k: int| 0 <= k < g.edges.len() && (#[trigger] g.edges[k]).1 == m
}

/// Whether `m` is the relative path of one of `files` that is no package
/// marker.
pub open spec fn is_file_node(
    directory: Seq<char>,
    files: Seq<(Seq<char>, Seq<char>)>,
    m: Seq<char>,
) -> bool {
    exists|j: int|
        0 <= j < files.len() && !is_ignored((#[trigger] files[j]).0) && relative_path(
            directory,
            files[j].0,
        ) == m
}

/// Whether `edge` is what the statement `import` of the file `path` gives: it
/// leads from the file to what the statement resolves to, which is known.
pub open spec fn edge_of_statement(
    directory: Seq<char>,
    path: Seq<char>,
    import: Seq<Seq<char>>,
    files: Seq<Seq<char>>,
    edge: (Seq<char>, Seq<char>),
) -> bool {
    &&& edge.0 == relative_path(directory, path)
    &&& edge.1 == resolve(directory, import, path, files)
    &&& edge.1 != unknown()
}

/// Whether `edge` is what one of the statements `imports` of the file `path`
/// gives.
pub open spec fn arises(
    directory: Seq<char>,
    path: Seq<char>,
    imports: Seq<Seq<Seq<char>>>,
    files: Seq<Seq<char>>,
    edge: (Seq<char>, Seq<char>),
) -> bool {
    exists|s: int|
        0 <= s < imports.len() && edge_of_statement(
            directory,
            path,
            #[trigger] imports[s],
            files,
            edge,
        )
}

/// Whether `edge` is what one of the classified import lines of `file` gives,
/// and `file` is no package marker.
pub open spec fn edge_of_file(
    directory: Seq<char>,
    file: (Seq<char>, Seq<char>),
    files: Seq<Seq<char>>,
    edge: (Seq<char>, Seq<char>),
) -> bool {
    !is_ignored(file.0) && arises(directory, file.0, classify(extract(file.1)), files, edge)
}

/// Whether `edge` is what a classified import line of one of `some` gives.
pub open spec fn edge_of_some(
    directory: Seq<char>,
    some: Seq<(Seq<char>, Seq<char>)>,
    files: Seq<Seq<char>>,
    edge: (Seq<char>, Seq<char>),
) -> bool {
    exists|j: int|
        0 <= j < some.len() && edge_of_file(directory, #[trigger] some[j], files, edge)
}

/// The classified import line `s` of the file `j`.
pub open spec fn statement_at(files: Seq<(Seq<char>, Seq<char>)>, j: int, s: int) -> Seq<
    Seq<char>,
> {
    classify(extract(files[j].1))[s]
}

/// Whether `file` is a scanned file with the relative path `source` and at
/// least one classified import.
pub open spec fn sends(directory: Seq<char>, file: (Seq<char>, Seq<char>), source: Seq<char>) -> bool {
    &&& !is_ignored(file.0)
    &&& relative_path(directory, file.0) == source
    &&& classify(extract(file.1)).len() > 0
}

/// The index that `entry_index` gives is that of an entry of the file, and
/// where it gives none, the file has no entry.
pub proof fn lemma_entry_index(entries: Seq<(Seq<char>, Seq<Seq<char>>)>, file: Seq<char>)
    ensures
        -1 <= entry_index(entries, file) < entries.len(),
        entry_index(entries, file) >= 0 ==> entries[entry_index(entries, file)].0 == file,
        entry_index(entries, file) == -1 ==> forall|j: int|
            0 <= j < entries.len() ==> (#[trigger] entries[j]).0 != file,
    decreases entries.len(),
{
    if entries.len() > 0 {
        lemma_entry_index(entries.drop_last(), file);
        if entry_index(entries, file) == -1 {
            assert forall|j: int| 0 <= j < entries.len() implies (#[trigger] entries[j]).0
                != file by {
                if j < entries.len() - 1 {
                    assert(entries.drop_last()[j] == entries[j]);
                }
            }
        }
    }
}

/// Adding a node keeps the graph well formed, keeps what it had and adds
/// nothing else.
pub proof fn lemma_with_node(g: GraphModel, n: Seq<char>)
    requires
        g.wf(),
    ensures
        g.with_node(n).wf(),
        g.with_node(n).nodes.contains(n),
        g.with_node(n).edges == g.edges,
        g.with_node(n).unresolved == g.unresolved,
        forall|m: Seq<char>| #[trigger] g.nodes.contains(m) ==> g.with_node(n).nodes.contains(m),
        forall|m: Seq<char>| #[trigger]
            g.with_node(n).nodes.contains(m) ==> g.nodes.contains(m) || m == n,
{
    let h = g.with_node(n);
    if !g.nodes.contains(n) {
        assert(h.nodes[g.nodes.len() as int] == n);
        assert forall|m: Seq<char>| #[trigger] g.nodes.contains(m) implies h.nodes.contains(
            m,
        ) by {
            let i = choose|i: int| 0 <= i < g.nodes.len() && g.nodes[i] == m;
            assert(h.nodes[i] == m);
        }
        assert forall|m: Seq<char>| #[trigger] h.nodes.contains(m) implies g.nodes.contains(m)
            || m == n by {
            let i = choose|i: int| 0 <= i < h.nodes.len() && h.nodes[i] == m;
            if i < g.nodes.len() {
                assert(g.nodes[i] == m);
            }
        }
        assert forall|i: int, j: int| 0 <= i < j < h.nodes.len() implies h.nodes[i]
            != h.nodes[j] by {
            if j == g.nodes.len() {
                assert(g.nodes[i] == h.nodes[i]);
            }
        }
    }
}

/// Adding an edge keeps the graph well formed, keeps its nodes, adds at most
/// the two endpoints as nodes and puts the edge after those it had.
pub proof fn lemma_with_edge(g: GraphModel, source: Seq<char>, target: Seq<char>)
    requires
        g.wf(),
    ensures
        g.with_edge(source, target).wf(),
        extends(g, g.with_edge(source, target), source),
        g.with_edge(source, target).edges == g.edges.push((source, target)),
        g.with_edge(source, target).unresolved == g.unresolved,
        forall|m: Seq<char>| #[trigger]
            g.with_edge(source, target).nodes.contains(m) ==> g.nodes.contains(m) || m == source
                || m == target,
{
    lemma_with_node(g, source);
    lemma_with_node(g.with_node(source), target);
    let mid = g.with_node(source).with_node(target);
    let h = g.with_edge(source, target);
    assert forall|m: Seq<char>| #[trigger] g.nodes.contains(m) implies h.nodes.contains(m) by {
        assert(g.with_node(source).nodes.contains(m));
    }
    assert forall|m: Seq<char>| #[trigger] h.nodes.contains(m) implies g.nodes.contains(m) || m
        == source || m == target by {
        assert(mid.nodes.contains(m));
        if m != target {
            assert(g.with_node(source).nodes.contains(m));
        }
    }
    assert(mid.nodes.contains(source));
    assert forall|i: int| 0 <= i < h.edges.len() implies h.nodes.contains(
        (#[trigger] h.edges[i]).0,
    ) && h.nodes.contains(h.edges[i].1) by {
        if i < g.edges.len() {
            assert(h.edges[i] == mid.edges[i]);
        }
    }
}

/// Recording an unresolved import keeps the graph well formed and leaves
/// nodes and edges as they were.
pub proof fn lemma_with_unresolved(g: GraphModel, file: Seq<char>, import: Seq<char>)
    requires
        g.wf(),
    ensures
        g.with_unresolved(file, import).wf(),
        g.with_unresolved(file, import).nodes == g.nodes,
        g.with_unresolved(file, import).edges == g.edges,
{
    lemma_entry_index(g.unresolved, file);
}

/// Recording the imports of one file keeps the graph well formed and keeps
/// its nodes and edges. Each new edge is what one of the imports gives, and
/// each new node is the file or the target of an edge.
pub proof fn lemma_scan_imports(
    g: GraphModel,
    directory: Seq<char>,
    path: Seq<char>,
    imports: Seq<Seq<Seq<char>>>,
    files: Seq<Seq<char>>,
)
    requires
        g.wf(),
    ensures
        scan_imports(g, directory, path, imports, files).wf(),
        extends(
            g,
            scan_imports(g, directory, path, imports, files),
            relative_path(directory, path),
        ),
        imports.len() == 0 ==> scan_imports(g, directory, path, imports, files) == g,
        forall|k: int|
            g.edges.len() <= k < scan_imports(g, directory, path, imports, files).edges.len()
                ==> arises(
                directory,
                path,
                imports,
                files,
                #[trigger] scan_imports(g, directory, path, imports, files).edges[k],
            ),
        forall|m: Seq<char>| #[trigger]
            scan_imports(g, directory, path, imports, files).nodes.contains(m)
                ==> g.nodes.contains(m) || m == relative_path(directory, path) || is_target(
                scan_imports(g, directory, path, imports, files),
                m,
            ),
    decreases imports.len(),
{
    if imports.len() > 0 {
        let rel = relative_path(directory, path);
        let before = scan_imports(g, directory, path, imports.drop_last(), files);
        lemma_scan_imports(g, directory, path, imports.drop_last(), files);
        let target = resolve(directory, imports.last(), path, files);
        let after = record(before, rel, path, imports.last(), target);
        lemma_with_edge(before, rel, target);
        lemma_with_unresolved(before, path, statement_text(imports.last()));
        assert(extends(before, after, rel));
        assert forall|m: Seq<char>| #[trigger] g.nodes.contains(m) implies after.nodes.contains(
            m,
        ) by {
            assert(before.nodes.contains(m));
        }
        assert forall|k: int| 0 <= k < g.edges.len() implies #[trigger] after.edges[k]
            == g.edges[k] by {
            assert(after.edges[k] == before.edges[k]);
        }
        assert forall|k: int| g.edges.len() <= k < after.edges.len() implies (
        #[trigger] after.edges[k]).0 == rel by {
            if k < before.edges.len() {
                assert(after.edges[k] == before.edges[k]);
            }
        }
        assert forall|k: int| g.edges.len() <= k < after.edges.len() implies arises(
            directory,
            path,
            imports,
            files,
            #[trigger] after.edges[k],
        ) by {
            if k < before.edges.len() {
                assert(after.edges[k] == before.edges[k]);
                let s = choose|s: int|
                    0 <= s < imports.drop_last().len() && edge_of_statement(
                        directory,
                        path,
                        #[trigger] imports.drop_last()[s],
                        files,
                        before.edges[k],
                    );
                assert(imports[s] == imports.drop_last()[s]);
            } else {
                assert(edge_of_statement(
                    directory,
                    path,
                    imports[imports.len() - 1],
                    files,
                    after.edges[k],
                ));
            }
        }
        assert forall|m: Seq<char>| #[trigger] after.nodes.contains(m) implies g.nodes.contains(
            m,
        ) || m == rel || is_target(after, m) by {
            if before.nodes.contains(m) {
                if !g.nodes.contains(m) && m != rel {
                    let k = choose|k: int|
                        0 <= k < before.edges.len() && (#[trigger] before.edges[k]).1 == m;
                    assert(after.edges[k] == before.edges[k]);
                }
            } else if m != rel {
                assert(after.edges[before.edges.len() as int].1 == m);
            }
        }
    }
}

/// Scanning one file keeps the graph well formed and keeps its nodes and
/// edges. A file that is no package marker becomes a node. Each new edge is
/// what one of the file's classified import lines gives, and each new node is
/// the file or the target of an edge.
pub proof fn lemma_scan_file(
    g: GraphModel,
    directory: Seq<char>,
    file: (Seq<char>, Seq<char>),
    files: Seq<Seq<char>>,
)
    requires
        g.wf(),
    ensures
        scan_file(g, directory, file, files).wf(),
        forall|m: Seq<char>| #[trigger]
            g.nodes.contains(m) ==> scan_file(g, directory, file, files).nodes.contains(m),
        !is_ignored(file.0) ==> scan_file(g, directory, file, files).nodes.contains(
            relative_path(directory, file.0),
        ),
        g.edges.len() <= scan_file(g, directory, file, files).edges.len(),
        forall|k: int|
            0 <= k < g.edges.len() ==> #[trigger] scan_file(g, directory, file, files).edges[k]
                == g.edges[k],
        forall|k: int|
            g.edges.len() <= k < scan_file(g, directory, file, files).edges.len()
                ==> edge_of_file(
                directory,
                file,
                files,
                #[trigger] scan_file(g, directory, file, files).edges[k],
            ),
        forall|m: Seq<char>| #[trigger]
            scan_file(g, directory, file, files).nodes.contains(m) ==> g.nodes.contains(m) || (
            !is_ignored(file.0) && m == relative_path(directory, file.0)) || is_target(
                scan_file(g, directory, file, files),
                m,
            ),
{
    if !is_ignored(file.0) {
        let rel = relative_path(directory, file.0);
        let start = g.with_node(rel);
        lemma_with_node(g, rel);
        lemma_scan_imports(start, directory, file.0, classify(extract(file.1)), files);
        let after = scan_file(g, directory, file, files);
        assert(start.nodes.contains(rel));
        assert forall|m: Seq<char>| #[trigger] g.nodes.contains(m) implies after.nodes.contains(
            m,
        ) by {
            assert(start.nodes.contains(m));
        }
        assert forall|m: Seq<char>| #[trigger] after.nodes.contains(m) implies g.nodes.contains(
            m,
        ) || m == rel || is_target(after, m) by {
            if start.nodes.contains(m) {
            }
        }
    }
}

/// Scanning files in order gives a well-formed graph in which every file
/// that is no package marker is a node, every edge is what a classified
/// import line of a scanned file gives, and every node is a scanned file or
/// the target of an edge.
pub proof fn lemma_scan_all(
    directory: Seq<char>,
    some: Seq<(Seq<char>, Seq<char>)>,
    files: Seq<Seq<char>>,
)
    ensures
        scan_all(directory, some, files).wf(),
        forall|i: int|
            0 <= i < some.len() && !is_ignored((#[trigger] some[i]).0) ==> scan_all(
                directory,
                some,
                files,
            ).nodes.contains(relative_path(directory, some[i].0)),
        forall|k: int|
            0 <= k < scan_all(directory, some, files).edges.len() ==> edge_of_some(
                directory,
                some,
                files,
                #[trigger] scan_all(directory, some, files).edges[k],
            ),
        forall|m: Seq<char>| #[trigger]
            scan_all(directory, some, files).nodes.contains(m) ==> is_file_node(
                directory,
                some,
                m,
            ) || is_target(scan_all(directory, some, files), m),
    decreases some.len(),
{
    if some.len() > 0 {
        let before = scan_all(directory, some.drop_last(), files);
        let after = scan_all(directory, some, files);
        lemma_scan_all(directory, some.drop_last(), files);
        lemma_scan_file(before, directory, some.last(), files);
        assert forall|i: int| 0 <= i < some.len() && !is_ignored(
            (#[trigger] some[i]).0,
        ) implies after.nodes.contains(relative_path(directory, some[i].0)) by {
            if i < some.len() - 1 {
                assert(some.drop_last()[i] == some[i]);
                assert(before.nodes.contains(relative_path(directory, some[i].0)));
            }
        }
        assert forall|k: int| 0 <= k < after.edges.len() implies edge_of_some(
            directory,
            some,
            files,
            #[trigger] after.edges[k],
        ) by {
            if k < before.edges.len() {
                assert(after.edges[k] == before.edges[k]);
                assert(edge_of_some(directory, some.drop_last(), files, before.edges[k]));
                let j = choose|j: int|
                    0 <= j < some.drop_last().len() && edge_of_file(
                        directory,
                        #[trigger] some.drop_last()[j],
                        files,
                        before.edges[k],
                    );
                assert(some[j] == some.drop_last()[j]);
            } else {
                assert(edge_of_file(directory, some[some.len() - 1], files, after.edges[k]));
            }
        }
        assert forall|m: Seq<char>| #[trigger] after.nodes.contains(m) implies is_file_node(
            directory,
            some,
            m,
        ) || is_target(after, m) by {
            if is_target(after, m) {
            } else if before.nodes.contains(m) {
                if is_target(before, m) {
                    let k = choose|k: int|
                        0 <= k < before.edges.len() && (#[trigger] before.edges[k]).1 == m;
                    assert(after.edges[k] == before.edges[k]);
                } else {
                    let j = choose|j: int|
                        0 <= j < some.drop_last().len() && !is_ignored(
                            (#[trigger] some.drop_last()[j]).0,
                        ) && relative_path(directory, some.drop_last()[j].0) == m;
                    assert(some[j] == some.drop_last()[j]);
                }
            } else {
                assert(!is_ignored(some[some.len() - 1].0));
            }
        }
    }
}

/// Every endpoint of an edge of a scan is one of its nodes, no node occurs
/// twice, and no file has two entries of unresolved imports.
pub proof fn lemma_scan_closed(directory: Seq<char>, files: Seq<(Seq<char>, Seq<char>)>)
    ensures
        scan_model(directory, files).wf(),
{
    lemma_scan_all(directory, files, paths(files));
}

/// Every discovered file that is no package marker is a node of the scan,
/// under its relative path.
pub proof fn lemma_every_file_is_node(
    directory: Seq<char>,
    files: Seq<(Seq<char>, Seq<char>)>,
    i: int,
)
    requires
        0 <= i < files.len(),
        !is_ignored(files[i].0),
    ensures
        scan_model(directory, files).nodes.contains(relative_path(directory, files[i].0)),
{
    lemma_scan_all(directory, files, paths(files));
}

/// Every node of a scan is the relative path of a discovered file that is no
/// package marker, or the target of an edge.
pub proof fn lemma_node_origin(
    directory: Seq<char>,
    files: Seq<(Seq<char>, Seq<char>)>,
    m: Seq<char>,
)
    requires
        scan_model(directory, files).nodes.contains(m),
    ensures
        is_file_node(directory, files, m) || is_target(scan_model(directory, files), m),
{
    lemma_scan_all(directory, files, paths(files));
}

/// Every edge of a scan leads from a discovered file that is no package
/// marker to what one of its import lines resolves to. That line has at
/// least two tokens, its second token is no standard-library module, and its
/// target is known: a standard-library import gives no edge.
pub proof fn lemma_edge_origin(directory: Seq<char>, files: Seq<(Seq<char>, Seq<char>)>, k: int)
    requires
        0 <= k < scan_model(directory, files).edges.len(),
    ensures
        exists|j: int, s: int|
            {
                &&& 0 <= j < files.len()
                &&& !is_ignored(files[j].0)
                &&& 0 <= s < classify(extract(files[j].1)).len()
                &&& (#[trigger] statement_at(files, j, s)).len() >= 2
                &&& !is_std_module(statement_at(files, j, s)[1])
                &&& edge_of_statement(
                    directory,
                    files[j].0,
                    statement_at(files, j, s),
                    paths(files),
                    scan_model(directory, files).edges[k],
                )
            },
{
    lemma_scan_all(directory, files, paths(files));
    let edge = scan_model(directory, files).edges[k];
    assert(edge_of_some(directory, files, paths(files), edge));
    let j = choose|j: int|
        0 <= j < files.len() && edge_of_file(directory, #[trigger] files[j], paths(files), edge);
    let imports = classify(extract(files[j].1));
    let s = choose|s: int|
        0 <= s < imports.len() && edge_of_statement(
            directory,
            files[j].0,
            #[trigger] imports[s],
            paths(files),
            edge,
        );
    lemma_classified_not_std(extract(files[j].1), s);
    assert(statement_at(files, j, s) == imports[s]);
}

/// A discovered file without classified imports is a node of the scan and the
/// source of no edge, provided that no scanned file with the same relative
/// path has a classified import.
pub proof fn lemma_file_without_imports(
    directory: Seq<char>,
    files: Seq<(Seq<char>, Seq<char>)>,
    i: int,
)
    requires
        0 <= i < files.len(),
        !is_ignored(files[i].0),
        forall|j: int|
            0 <= j < files.len() ==> !sends(
                directory,
                #[trigger] files[j],
                relative_path(directory, files[i].0),
            ),
    ensures
        scan_model(directory, files).nodes.contains(relative_path(directory, files[i].0)),
        forall|k: int|
            0 <= k < scan_model(directory, files).edges.len() ==> (#[trigger] scan_model(
                directory,
                files,
            ).edges[k]).0 != relative_path(directory, files[i].0),
{
    lemma_scan_all(directory, files, paths(files));
    let g = scan_model(directory, files);
    assert forall|k: int| 0 <= k < g.edges.len() implies (#[trigger] g.edges[k]).0
        != relative_path(directory, files[i].0) by {
        assert(edge_of_some(directory, files, paths(files), g.edges[k]));
        let j = choose|j: int|
            0 <= j < files.len() && edge_of_file(
                directory,
                #[trigger] files[j],
                paths(files),
                g.edges[k],
            );
        assert(sends(directory, files[j], g.edges[k].0));
    }
}

/// Two scans of the same files give the same graph and the same records.
pub proof fn lemma_scan_repeatable(
    directory: Seq<char>,
    files: Seq<(Seq<char>, Seq<char>)>,
    first: GraphModel,
    second: GraphModel,
)
    requires
        first == scan_model(directory, files),
        second == scan_model(directory, files),
    ensures
        first == second,
        elements_of(first) == elements_of(second),
{
}

} // verus!
