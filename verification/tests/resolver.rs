use import_graph::resolver::get_file_or_module_name_from_import;
use import_graph::text::{chars_of, string_of};

fn words(items: &[&str]) -> Vec<String> {
    items.iter().map(|s| s.to_string()).collect()
}

fn resolve(directory: &str, import: &[&str], file_path: &str, files: &[&str]) -> String {
    get_file_or_module_name_from_import(directory, words(import), file_path, words(files))
}

#[test]
fn plain_import_is_its_own_target() {
    assert_eq!(resolve("proj", &["import", "numpy"], "proj/a.py", &[]), "numpy");
    assert_eq!(
        resolve("proj", &["import", "numpy"], "proj/a.py", &["proj/numpy.py", "proj/a.py"]),
        "numpy"
    );
}

#[test]
fn aliased_import_gives_the_imported_name() {
    assert_eq!(resolve("proj", &["import", "numpy", "as", "np"], "proj/a.py", &[]), "numpy");
    assert_ne!(resolve("proj", &["import", "numpy", "as", "np"], "proj/a.py", &[]), "np");
}

#[test]
fn longer_import_gives_top_level_package_if_marker_exists() {
    let files = ["proj/pkg/__init__.py", "proj/a.py"];
    assert_eq!(resolve("proj", &["import", "pkg.sub.mod", ",", "x"], "proj/a.py", &files), "pkg");
    assert_eq!(resolve("proj", &["import", "pkg", ",", "x"], "proj/a.py", &files), "pkg");
    assert_eq!(
        resolve("proj", &["import", "other.sub", ",", "x"], "proj/a.py", &files),
        "UNKNOWN"
    );
}

#[test]
fn absolute_from_gives_module_file_name() {
    let files = ["proj/a.py", "proj/pkg/mod.py"];
    assert_eq!(
        resolve("proj", &["from", "pkg.mod", "import", "x"], "proj/a.py", &files),
        "mod.py"
    );
}

#[test]
fn absolute_from_gives_package_directory() {
    let files = ["proj/a.py", "proj/pkg/__init__.py"];
    assert_eq!(resolve("proj", &["from", "pkg", "import", "x"], "proj/a.py", &files), "proj/pkg/");
}

#[test]
fn absolute_from_without_file_is_unknown() {
    let files = ["proj/a.py"];
    assert_eq!(
        resolve("proj", &["from", "nonexistent_pkg", "import", "x"], "proj/a.py", &files),
        "UNKNOWN"
    );
}

#[test]
fn module_file_is_preferred_to_package() {
    let first = ["proj/pkg.py", "proj/pkg/__init__.py"];
    let second = ["proj/pkg/__init__.py", "proj/pkg.py"];
    assert_eq!(resolve("proj", &["from", "pkg", "import", "x"], "proj/a.py", &first), "pkg.py");
    assert_eq!(resolve("proj", &["from", "pkg", "import", "x"], "proj/a.py", &second), "pkg.py");
}

#[test]
fn relative_import_of_sibling_module() {
    let files = ["pkg/sub/mod.py", "pkg/sub/y.py"];
    assert_eq!(resolve("pkg", &["from", ".", "import", "y"], "pkg/sub/mod.py", &files), "y.py");
}

#[test]
fn relative_import_of_parent_package() {
    let files = ["pkg/sub/mod.py", "pkg/other/__init__.py"];
    assert_eq!(
        resolve("pkg", &["from", "..other", "import", "Y"], "pkg/sub/mod.py", &files),
        "pkg/other/"
    );
}

#[test]
fn relative_import_descends_into_segments() {
    let files = ["pkg/sub/mod.py", "pkg/sub/util/helpers.py"];
    assert_eq!(
        resolve("pkg", &["from", ".util.helpers", "import", "f"], "pkg/sub/mod.py", &files),
        "helpers.py"
    );
    assert_eq!(
        resolve("pkg", &["from", "..util.helpers", "import", "f"], "pkg/sub/mod.py", &files),
        "UNKNOWN"
    );
}

#[test]
fn relative_import_is_taken_from_the_file_not_the_root() {
    let files = ["root/deep/down/mod.py", "root/deep/down/y.py", "root/y.py"];
    assert_eq!(
        resolve("elsewhere", &["from", ".", "import", "y"], "root/deep/down/mod.py", &files),
        "y.py"
    );
    assert_eq!(
        resolve("root", &["from", ".", "import", "z"], "root/deep/down/mod.py", &files),
        "UNKNOWN"
    );
}

#[test]
fn dots_only_import_falls_back_to_the_package_itself() {
    let files = ["pkg/sub/mod.py", "pkg/sub/__init__.py"];
    assert_eq!(
        resolve("pkg", &["from", ".", "import", "name"], "pkg/sub/mod.py", &files),
        "pkg/sub/"
    );
}

#[test]
fn more_dots_than_segments_climb_to_nothing() {
    let files = ["x.py", "a.py"];
    assert_eq!(resolve("", &["from", "...", "import", "x"], "a.py", &files), "x.py");
}

#[test]
fn short_or_foreign_statements_are_unknown() {
    assert_eq!(resolve("proj", &[], "proj/a.py", &["proj/a.py"]), "UNKNOWN");
    assert_eq!(resolve("proj", &["import"], "proj/a.py", &["proj/a.py"]), "UNKNOWN");
    assert_eq!(resolve("proj", &["from"], "proj/a.py", &["proj/a.py"]), "UNKNOWN");
    assert_eq!(resolve("proj", &["export", "a"], "proj/a.py", &["proj/a.py"]), "UNKNOWN");
}

#[test]
fn text_round_trip_keeps_characters() {
    assert_eq!(string_of(&vec!['a', '/', 'é', '.']), "a/é.");
    assert_eq!(chars_of("pkg/ü.py"), vec!['p', 'k', 'g', '/', 'ü', '.', 'p', 'y']);
    assert_eq!(string_of(&chars_of("")), "");
}
