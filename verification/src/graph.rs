//! The dependency graph and the report of unresolved imports, as they are
//! accumulated during a scan.

use vstd::prelude::*;
use crate::graph_laws::{lemma_with_edge, lemma_with_node, lemma_with_unresolved};
use crate::text::texts;

verus! {

/// The imports of one file that resolved to nothing.
#[derive(Debug)]
pub struct UnknownImport {
    pub file_path: String,
    pub imports: Vec<String>,
}

/// One record of the graph data: an edge or a node.
#[derive(Debug)]
pub enum Element {
    Edge { source: String, target: String },
    Node { id: String, label: String },
}

/// The graph as it is accumulated: its distinct nodes in the order in which
/// they first appeared, one edge per resolved import, and the unresolved
/// imports grouped by file.
#[derive(Debug)]
pub struct Graph {
    pub nodes: Vec<String>,
    pub edges: Vec<(String, String)>,
    pub unknown_imports: Vec<UnknownImport>,
}

/// The mathematical content of a `Graph`.
pub struct GraphModel {
    pub nodes: Seq<Seq<char>>,
    pub edges: Seq<(Seq<char>, Seq<char>)>,
    pub unresolved: Seq<(Seq<char>, Seq<Seq<char>>)>,
}

/// The index of the first entry for `file`, or -1 if there is none.
pub open spec fn entry_index(entries: Seq<(Seq<char>, Seq<Seq<char>>)>, file: Seq<char>) -> int
    decreases entries.len(),
{
    if entries.len() == 0 {
        -1
    } else {
        let before = entry_index(entries.drop_last(), file);
        if before >= 0 {
            before
        } else if entries.last().0 == file {
            entries.len() - 1
        } else {
            -1
        }
    }
}

impl GraphModel {
    /// The graph without nodes, edges and unresolved imports.
    pub open spec fn empty() -> GraphModel {
        GraphModel { nodes: Seq::empty(), edges: Seq::empty(), unresolved: Seq::empty() }
    }

    /// The graph with node `n`: added at the end unless it is there already.
    pub open spec fn with_node(self, n: Seq<char>) -> GraphModel {
        if self.nodes.contains(n) {
            self
        } else {
            GraphModel { nodes: self.nodes.push(n), ..self }
        }
    }

    /// The graph with one more edge from `source` to `target`, and with both
    /// as nodes.
    pub open spec fn with_edge(self, source: Seq<char>, target: Seq<char>) -> GraphModel {
        let g = self.with_node(source).with_node(target);
        GraphModel { edges: g.edges.push((source, target)), ..g }
    }

    /// The graph with one more unresolved import of `file`: appended to the
    /// entry of `file` if there is one, else in a new entry at the end.
    pub open spec fn with_unresolved(self, file: Seq<char>, import: Seq<char>) -> GraphModel {
        let i = entry_index(self.unresolved, file);
        if 0 <= i < self.unresolved.len() {
            GraphModel {
                unresolved: self.unresolved.update(
                    i,
                    (file, self.unresolved[i].1.push(import)),
                ),
                ..self
            }
        } else {
            GraphModel { unresolved: self.unresolved.push((file, seq![import])), ..self }
        }
    }

    /// Every endpoint of an edge is a node, no node occurs twice, and no file
    /// has two entries of unresolved imports.
    pub open spec fn wf(self) -> bool {
        &&& forall|i: int|
            0 <= i < self.edges.len() ==> self.nodes.contains((#[trigger] self.edges[i]).0)
                && self.nodes.contains(self.edges[i].1)
        &&& forall|i: int, j: int|
            0 <= i < j < self.nodes.len() ==> self.nodes[i] != self.nodes[j]
        &&& forall|i: int, j: int|
            0 <= i < j < self.unresolved.len() ==> self.unresolved[i].0 != self.unresolved[j].0
    }
}

/// The records of a graph: its edges in order, then its nodes in order.
pub open spec fn elements_of(g: GraphModel) -> Seq<ElementModel> {
    g.edges.map_values(|e: (Seq<char>, Seq<char>)| ElementModel::Edge { source: e.0, target: e.1 })
        + g.nodes.map_values(|n: Seq<char>| ElementModel::Node { id: n, label: n })
}

/// The mathematical content of an `Element`.
pub enum ElementModel {
    Edge { source: Seq<char>, target: Seq<char> },
    Node { id: Seq<char>, label: Seq<char> },
}

impl View for Element {
    type V = ElementModel;

    open spec fn view(&self) -> ElementModel {
        match self {
            Element::Edge { source, target } => ElementModel::Edge {
                source: source@,
                target: target@,
            },
            Element::Node { id, label } => ElementModel::Node { id: id@, label: label@ },
        }
    }
}

/// The contents of a sequence of records.
pub open spec fn records(v: Seq<Element>) -> Seq<ElementModel> {
    v.map_values(|e: Element| e@)
}

impl View for UnknownImport {
    type V = (Seq<char>, Seq<Seq<char>>);

    open spec fn view(&self) -> (Seq<char>, Seq<Seq<char>>) {
        (self.file_path@, texts(self.imports@))
    }
}

impl View for Graph {
    type V = GraphModel;

    open spec fn view(&self) -> GraphModel {
        GraphModel {
            nodes: texts(self.nodes@),
            edges: self.edges@.map_values(|e: (String, String)| (e.0@, e.1@)),
            unresolved: self.unknown_imports@.map_values(|u: UnknownImport| u@),
        }
    }
}

impl Graph {
    /// A graph without nodes, edges and unresolved imports.
    pub fn new() -> (g: Graph)
        ensures
            g@ == GraphModel::empty(),
            g@.wf(),
    {
        let g = Graph { nodes: Vec::new(), edges: Vec::new(), unknown_imports: Vec::new() };
        assert(g@.nodes =~= Seq::empty());
        assert(g@.edges =~= Seq::empty());
        assert(g@.unresolved =~= Seq::empty());
        g
    }

    /// Whether `n` is a node of the graph.
    pub fn has_node(&self, n: &String) -> (found: bool)
        ensures
            found == self@.nodes.contains(n@),
    {
        let mut i: usize = 0;
        while i < self.nodes.len()
            invariant
                i <= self.nodes.len(),
                forall|j: int| 0 <= j < i ==> self@.nodes[j] != n@,
            decreases self.nodes.len() - i,
        {
            if self.nodes[i] == *n {
                assert(self@.nodes[i as int] == n@);
                return true;
            }
            i += 1;
        }
        false
    }

    /// Adds the node `n` unless the graph has it already.
    pub fn add_node(&mut self, n: String)
        ensures
            final(self)@ == old(self)@.with_node(n@),
            old(self)@.wf() ==> final(self)@.wf(),
    {
        proof {
            if old(self)@.wf() {
                lemma_with_node(old(self)@, n@);
            }
        }
        if !self.has_node(&n) {
            self.nodes.push(n);
            assert(self@.nodes =~= old(self)@.nodes.push(n@));
        }
    }

    /// Adds an edge from `source` to `target`, and both as nodes.
    pub fn add_edge(&mut self, source: String, target: String)
        ensures
            final(self)@ == old(self)@.with_edge(source@, target@),
            old(self)@.wf() ==> final(self)@.wf(),
    {
        proof {
            if old(self)@.wf() {
                lemma_with_edge(old(self)@, source@, target@);
            }
        }
        self.add_node(source.clone());
        self.add_node(target.clone());
        let ghost before = self@;
        self.edges.push((source, target));
        assert(self@.edges =~= before.edges.push((source@, target@)));
    }

    /// Records that `import` of `file` resolved to nothing.
    pub fn add_unresolved(&mut self, file: String, import: String)
        ensures
            final(self)@ == old(self)@.with_unresolved(file@, import@),
            old(self)@.wf() ==> final(self)@.wf(),
    {
        proof {
            if old(self)@.wf() {
                lemma_with_unresolved(old(self)@, file@, import@);
            }
        }
        let mut found: Option<usize> = None;
        let mut i: usize = 0;
        while i < self.unknown_imports.len()
            invariant
                i <= self.unknown_imports.len(),
                match found {
                    Some(j) => j < i && entry_index(self@.unresolved.take(i as int), file@) == j,
                    None => entry_index(self@.unresolved.take(i as int), file@) == -1,
                },
            decreases self.unknown_imports.len() - i,
        {
            assert(self@.unresolved.take(i + 1).drop_last() =~= self@.unresolved.take(i as int));
            if found.is_none() && self.unknown_imports[i].file_path == file {
                found = Some(i);
            }
            i += 1;
        }
        assert(self@.unresolved.take(self.unknown_imports.len() as int) =~= self@.unresolved);
        match found {
            Some(j) => {
                let mut entry = self.unknown_imports.remove(j);
                let ghost imports = texts(entry.imports@);
                entry.imports.push(import);
                assert(texts(entry.imports@) =~= imports.push(import@));
                entry.file_path = file;
                self.unknown_imports.insert(j, entry);
                assert(self@.unresolved =~= old(self)@.unresolved.update(
                    j as int,
                    (file@, old(self)@.unresolved[j as int].1.push(import@)),
                ));
            },
            None => {
                let mut imports: Vec<String> = Vec::new();
                imports.push(import);
                assert(texts(imports@) =~= seq![import@]);
                self.unknown_imports.push(UnknownImport { file_path: file, imports });
                assert(self@.unresolved =~= old(self)@.unresolved.push((file@, seq![import@])));
            },
        }
    }

    /// The records of the graph: one per edge, in the order of the imports,
    /// then one per node, in the order of first appearance.
    pub fn elements(&self) -> (out: Vec<Element>)
        ensures
            records(out@) == elements_of(self@),
    {
        let mut out: Vec<Element> = Vec::new();
        let mut i: usize = 0;
        while i < self.edges.len()
            invariant
                i <= self.edges.len(),
                records(out@) == elements_of(self@).take(i as int),
            decreases self.edges.len() - i,
        {
            let ghost done = records(out@);
            let e = Element::Edge {
                source: self.edges[i].0.clone(),
                target: self.edges[i].1.clone(),
            };
            out.push(e);
            assert(records(out@) =~= done.push(e@));
            assert(elements_of(self@).take(i + 1) =~= elements_of(self@).take(i as int).push(e@));
            i += 1;
        }
        let mut k: usize = 0;
        while k < self.nodes.len()
            invariant
                k <= self.nodes.len(),
                records(out@) == elements_of(self@).take(self.edges.len() + k),
            decreases self.nodes.len() - k,
        {
            let ghost done = records(out@);
            let e = Element::Node { id: self.nodes[k].clone(), label: self.nodes[k].clone() };
            out.push(e);
            assert(records(out@) =~= done.push(e@));
            assert(elements_of(self@).take(self.edges.len() + k + 1) =~= elements_of(self@).take(
                self.edges.len() + k,
            ).push(e@));
            k += 1;
        }
        assert(elements_of(self@).take(self.edges.len() + self.nodes.len()) =~= elements_of(
            self@,
        ));
        out
    }
}

} // verus!
