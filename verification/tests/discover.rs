use import_graph::discover::{is_python_file, list_python_files};

#[test]
fn python_files_end_in_the_suffix() {
    assert!(is_python_file("proj/a.py"));
    assert!(is_python_file("a.py"));
    assert!(is_python_file("proj/pkg/__init__.py"));
    assert!(is_python_file("proj/archive.tar.py"));
    assert!(!is_python_file("proj/a.pyc"));
    assert!(!is_python_file("proj/a.txt"));
    assert!(!is_python_file("proj/py"));
    assert!(!is_python_file("proj/.py"));
    assert!(!is_python_file("proj.py/readme"));
    assert!(!is_python_file(""));
}

#[test]
fn listing_keeps_python_files_in_order() {
    let entries: Vec<String> = ["proj", "proj/b.py", "proj/notes.md", "proj/pkg", "proj/pkg/a.py"]
        .iter()
        .map(|s| s.to_string())
        .collect();
    assert_eq!(
        list_python_files(&entries),
        vec!["proj/b.py".to_string(), "proj/pkg/a.py".to_string()]
    );
    assert_eq!(list_python_files(&Vec::new()), Vec::<String>::new());
}
