use import_graph::imports::{extract_imports, filter_imports, text_lines};
use import_graph::text::{chars_of, is_whitespace, join_text, split_text, string_of, Cut};

fn lines(items: &[&str]) -> Vec<String> {
    items.iter().map(|s| s.to_string()).collect()
}

#[test]
fn extracts_lines_that_begin_with_a_keyword() {
    let content = "import os\nx = 1\nfrom . import b\n# import nothing\nprint('import')\n";
    assert_eq!(extract_imports(content), lines(&["import os", "from . import b"]));
}

#[test]
fn extracts_indented_lines_verbatim() {
    let content = "if x:\n    import a\n\tfrom b import c";
    assert_eq!(extract_imports(content), lines(&["    import a", "\tfrom b import c"]));
}

#[test]
fn keyword_must_be_a_whole_token() {
    let content = "importlib.reload(x)\nfromage = 1\nimport\nfrom";
    assert_eq!(extract_imports(content), lines(&["import", "from"]));
}

#[test]
fn carriage_returns_are_no_part_of_a_line() {
    assert_eq!(extract_imports("import a\r\nimport b\r\n"), lines(&["import a", "import b"]));
}

#[test]
fn empty_content_has_no_imports() {
    assert_eq!(extract_imports(""), Vec::<String>::new());
    assert_eq!(extract_imports("\n\n"), Vec::<String>::new());
}

#[test]
fn filter_splits_on_whitespace() {
    let got = filter_imports(lines(&["from  pkg.mod \t import   x", "import numpy as np"]));
    assert_eq!(
        got,
        vec![lines(&["from", "pkg.mod", "import", "x"]), lines(&["import", "numpy", "as", "np"])]
    );
}

#[test]
fn filter_drops_standard_library_modules() {
    let got = filter_imports(lines(&[
        "import os",
        "import mymod",
        "from sys import argv",
        "from json import loads",
        "import osx",
    ]));
    assert_eq!(got, vec![lines(&["import", "mymod"]), lines(&["import", "osx"])]);
}

#[test]
fn filter_skips_lines_with_fewer_than_two_tokens() {
    let got = filter_imports(lines(&["import", "", "   ", "from", "import a"]));
    assert_eq!(got, vec![lines(&["import", "a"])]);
}

#[test]
fn split_keeps_empty_pieces() {
    let pieces = split_text(&chars_of("/a//b/"), Cut::At('/'));
    assert_eq!(
        pieces,
        vec![chars_of(""), chars_of("a"), chars_of(""), chars_of("b"), chars_of("")]
    );
    assert_eq!(split_text(&chars_of(""), Cut::At('/')), vec![chars_of("")]);
}

#[test]
fn join_undoes_split() {
    let text = chars_of("/root/pkg//mod.py");
    let pieces = split_text(&text, Cut::At('/'));
    assert_eq!(join_text(&pieces, &vec!['/']), text);
    assert_eq!(join_text(&Vec::new(), &vec!['/']), Vec::<char>::new());
}

#[test]
fn whitespace_is_the_unicode_property() {
    for code in 0u32..=0x10FFFF {
        if let Some(c) = char::from_u32(code) {
            assert_eq!(is_whitespace(c), c.is_whitespace(), "U+{:04X}", code);
            assert_eq!(Cut::Blank.hits(c), c.is_whitespace(), "U+{:04X}", code);
        }
    }
}

#[test]
fn filter_splits_on_non_ascii_whitespace() {
    let got = filter_imports(lines(&["import\u{a0}zz_local"]));
    assert_eq!(got, vec![lines(&["import", "zz_local"])]);
    let got = filter_imports(lines(&["import zz_local #\u{a0}x"]));
    assert_eq!(got, vec![lines(&["import", "zz_local", "#", "x"])]);
    let got = filter_imports(lines(&["from\u{3000}pkg\u{2003}import\u{85}x"]));
    assert_eq!(got, vec![lines(&["from", "pkg", "import", "x"])]);
}

#[test]
fn filter_tokens_hold_no_whitespace() {
    let line = "import\u{2028}a\u{1680}\u{202f}b\u{205f}c\u{2000}\u{200a}d";
    let got = filter_imports(lines(&[line]));
    let expected: Vec<String> = line.split_whitespace().map(|s| s.to_string()).collect();
    assert_eq!(got, vec![expected]);
    for token in got[0].iter() {
        assert!(!token.is_empty());
        assert!(token.chars().all(|c| !c.is_whitespace()));
    }
}

#[test]
fn extract_sees_keyword_before_non_ascii_whitespace() {
    assert_eq!(extract_imports("import\u{a0}zz_local"), lines(&["import\u{a0}zz_local"]));
    assert_eq!(
        extract_imports("\u{2003}from\u{a0}a import b\nx\u{a0}import"),
        lines(&["\u{2003}from\u{a0}a import b"])
    );
}

#[test]
fn lone_carriage_return_at_the_end_stays() {
    assert_eq!(extract_imports("import x\r"), lines(&["import x\r"]));
    assert_eq!(extract_imports("import a\r\nimport b\r"), lines(&["import a", "import b\r"]));
    assert_eq!(extract_imports("import a\r\r\n"), lines(&["import a\r"]));
    assert_eq!(extract_imports("import a\rimport b\n"), lines(&["import a\rimport b"]));
}

#[test]
fn lines_are_those_of_the_text() {
    let samples = [
        "",
        "\n",
        "\r",
        "\r\n",
        "a",
        "a\n",
        "a\r",
        "a\r\n",
        "a\n\r",
        "a\n\nb",
        "a\r\r\nb\r",
        "import x\r\nfrom y import z\n\n",
        "\n\n\r\n",
    ];
    for text in samples.iter() {
        let got: Vec<String> = text_lines(&chars_of(text)).iter().map(string_of).collect();
        let expected: Vec<String> = text.lines().map(|l| l.to_string()).collect();
        assert_eq!(got, expected, "{:?}", text);
    }
}

#[test]
fn every_extracted_line_is_a_line_of_the_text() {
    let text = "import a\r\n  from b import c\nx = 1\nimport a\r\nimport d\r";
    let all: Vec<&str> = text.lines().collect();
    let got = extract_imports(text);
    assert_eq!(got, lines(&["import a", "  from b import c", "import a", "import d\r"]));
    for line in got.iter() {
        assert!(all.contains(&line.as_str()));
    }
}
