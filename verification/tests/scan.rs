use import_graph::graph::{Element, Graph};
use import_graph::scan::{is_package_marker, scan, Args, SourceFile};

fn file(path: &str, content: &str) -> SourceFile {
    SourceFile { path: path.to_string(), content: content.to_string() }
}

fn run(directory: &str, files: Vec<SourceFile>) -> Graph {
    scan(&Args { directory: directory.to_string() }, &files)
}

fn pair(a: &str, b: &str) -> (String, String) {
    (a.to_string(), b.to_string())
}

#[test]
fn sibling_import_gives_two_nodes_and_one_edge() {
    let g = run("proj", vec![file("proj/a.py", "from . import b\n"), file("proj/b.py", "")]);
    assert_eq!(g.nodes, vec!["a.py".to_string(), "b.py".to_string()]);
    assert_eq!(g.edges, vec![pair("a.py", "b.py")]);
    assert!(g.unknown_imports.is_empty());
}

#[test]
fn unresolved_import_is_reported_and_gives_no_edge() {
    let g = run("proj", vec![file("proj/a.py", "from nonexistent_pkg import x\n")]);
    assert!(g.edges.is_empty());
    assert_eq!(g.nodes, vec!["a.py".to_string()]);
    assert_eq!(g.unknown_imports.len(), 1);
    assert_eq!(g.unknown_imports[0].file_path, "proj/a.py");
    assert_eq!(g.unknown_imports[0].imports, vec!["from nonexistent_pkg import x".to_string()]);
}

#[test]
fn file_without_imports_is_an_isolated_node() {
    let g = run(
        "proj",
        vec![file("proj/a.py", "import numpy\n"), file("proj/lonely.py", "x = 1\n")],
    );
    assert!(g.nodes.contains(&"lonely.py".to_string()));
    assert!(g.edges.iter().all(|e| e.0 != "lonely.py"));
    assert_eq!(g.edges, vec![pair("a.py", "numpy")]);
}

#[test]
fn standard_library_imports_leave_no_trace() {
    let g = run("proj", vec![file("proj/a.py", "import os\nfrom sys import argv\nimport re\n")]);
    assert_eq!(g.nodes, vec!["a.py".to_string()]);
    assert!(g.edges.is_empty());
    assert!(g.unknown_imports.is_empty());
}

#[test]
fn every_edge_endpoint_is_a_node() {
    let g = run(
        "proj",
        vec![
            file("proj/a.py", "import numpy as np\nfrom pkg import thing\nfrom . import b\n"),
            file("proj/b.py", "from pkg.mod import f\nfrom missing import g\n"),
            file("proj/pkg/__init__.py", "from . import mod\n"),
            file("proj/pkg/mod.py", "import numpy\n"),
        ],
    );
    for (source, target) in g.edges.iter() {
        assert!(g.nodes.contains(source));
        assert!(g.nodes.contains(target));
    }
    assert_eq!(
        g.edges,
        vec![
            pair("a.py", "numpy"),
            pair("a.py", "proj/pkg/"),
            pair("a.py", "b.py"),
            pair("b.py", "mod.py"),
            pair("pkg/mod.py", "numpy"),
        ]
    );
    assert_eq!(
        g.nodes,
        vec![
            "a.py".to_string(),
            "numpy".to_string(),
            "proj/pkg/".to_string(),
            "b.py".to_string(),
            "mod.py".to_string(),
            "pkg/mod.py".to_string(),
        ]
    );
    assert_eq!(g.unknown_imports.len(), 1);
    assert_eq!(g.unknown_imports[0].file_path, "proj/b.py");
}

#[test]
fn package_markers_are_no_nodes_of_their_own() {
    let g = run("proj", vec![file("proj/pkg/__init__.py", "import numpy\n")]);
    assert!(g.nodes.is_empty());
    assert!(g.edges.is_empty());
}

#[test]
fn duplicate_imports_give_duplicate_edges() {
    let g = run("proj", vec![file("proj/a.py", "import numpy\nimport numpy\n")]);
    assert_eq!(g.edges, vec![pair("a.py", "numpy"), pair("a.py", "numpy")]);
    assert_eq!(g.nodes, vec!["a.py".to_string(), "numpy".to_string()]);
}

#[test]
fn unresolved_imports_are_grouped_by_file_in_order() {
    let g = run(
        "proj",
        vec![
            file("proj/a.py", "from x import a\nimport numpy\nfrom  y   import b\n"),
            file("proj/b.py", "from z import c\n"),
        ],
    );
    assert_eq!(g.unknown_imports.len(), 2);
    assert_eq!(g.unknown_imports[0].file_path, "proj/a.py");
    assert_eq!(
        g.unknown_imports[0].imports,
        vec!["from x import a".to_string(), "from y import b".to_string()]
    );
    assert_eq!(g.unknown_imports[1].file_path, "proj/b.py");
    assert_eq!(g.unknown_imports[1].imports, vec!["from z import c".to_string()]);
}

#[test]
fn scanning_twice_gives_the_same_graph() {
    let make = || {
        vec![
            file("proj/a.py", "from . import b\nfrom q import r\n"),
            file("proj/b.py", "import numpy\n"),
        ]
    };
    let first = run("proj", make());
    let second = run("proj", make());
    assert_eq!(first.nodes, second.nodes);
    assert_eq!(first.edges, second.edges);
    assert_eq!(first.unknown_imports.len(), second.unknown_imports.len());
    assert_eq!(first.unknown_imports[0].imports, second.unknown_imports[0].imports);
}

#[test]
fn path_outside_the_root_keeps_its_full_path() {
    let g = run("proj", vec![file("other/a.py", ""), file("proj", ""), file("proj/", "")]);
    assert_eq!(g.nodes, vec!["other/a.py".to_string(), "proj".to_string(), "".to_string()]);
}

#[test]
fn elements_list_edges_then_nodes() {
    let g = run("proj", vec![file("proj/a.py", "from . import b\n"), file("proj/b.py", "")]);
    let elements = g.elements();
    assert_eq!(elements.len(), 3);
    match &elements[0] {
        Element::Edge { source, target } => {
            assert_eq!(source, "a.py");
            assert_eq!(target, "b.py");
        }
        Element::Node { .. } => panic!("an edge comes first"),
    }
    match &elements[1] {
        Element::Node { id, label } => {
            assert_eq!(id, "a.py");
            assert_eq!(label, "a.py");
        }
        Element::Edge { .. } => panic!("nodes follow the edges"),
    }
    match &elements[2] {
        Element::Node { id, label } => {
            assert_eq!(id, "b.py");
            assert_eq!(label, "b.py");
        }
        Element::Edge { .. } => panic!("nodes follow the edges"),
    }
}

#[test]
fn builder_keeps_nodes_distinct_and_edges_all() {
    let mut g = Graph::new();
    g.add_node("a".to_string());
    g.add_node("a".to_string());
    g.add_edge("a".to_string(), "b".to_string());
    g.add_edge("a".to_string(), "b".to_string());
    g.add_unresolved("f".to_string(), "import x y".to_string());
    g.add_unresolved("g".to_string(), "import z w".to_string());
    g.add_unresolved("f".to_string(), "from q import r".to_string());
    assert_eq!(g.nodes, vec!["a".to_string(), "b".to_string()]);
    assert_eq!(g.edges.len(), 2);
    assert!(g.has_node(&"b".to_string()));
    assert!(!g.has_node(&"c".to_string()));
    assert_eq!(g.unknown_imports.len(), 2);
    assert_eq!(g.unknown_imports[0].file_path, "f");
    assert_eq!(
        g.unknown_imports[0].imports,
        vec!["import x y".to_string(), "from q import r".to_string()]
    );
    assert_eq!(g.unknown_imports[1].imports, vec!["import z w".to_string()]);
}

#[test]
fn package_marker_is_told_by_its_file_name() {
    assert!(is_package_marker("proj/pkg/__init__.py"));
    assert!(is_package_marker("__init__.py"));
    assert!(!is_package_marker("proj/__init__.py/a.py"));
    assert!(!is_package_marker("proj/my__init__.py"));
    assert!(!is_package_marker("proj/__init__.pyc"));
}

#[test]
fn content_of_a_package_marker_is_not_looked_at() {
    let with = run(
        "proj",
        vec![file("proj/pkg/__init__.py", "import numpy\n"), file("proj/a.py", "from pkg import x")],
    );
    let without = run(
        "proj",
        vec![file("proj/pkg/__init__.py", ""), file("proj/a.py", "from pkg import x")],
    );
    assert_eq!(with.nodes, without.nodes);
    assert_eq!(with.edges, without.edges);
    assert_eq!(with.edges, vec![pair("a.py", "proj/pkg/")]);
}

#[test]
fn scan_splits_statements_on_non_ascii_whitespace() {
    let g = run("proj", vec![file("proj/a.py", "import\u{a0}numpy\nimport\u{a0}os\n")]);
    assert_eq!(g.edges, vec![pair("a.py", "numpy")]);
    assert_eq!(g.nodes, vec!["a.py".to_string(), "numpy".to_string()]);
}
