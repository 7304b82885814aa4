//! Extraction of the import lines of a file and their classification.

use vstd::prelude::*;
use crate::py_std_libs::{is_std, is_std_module};
use crate::text::{
    chars_of, copy_text, drop_empty, non_empty, rows, rows_of, same, split, split_text,
    strings_of, texts, Cut,
};

verus! {

/// The line without one carriage return at its end.
pub open spec fn strip_cr(line: Seq<char>) -> Seq<char> {
    if line.len() > 0 && line.last() == '\r' {
        line.drop_last()
    } else {
        line
    }
}

/// The whitespace-separated tokens of a line.
pub open spec fn tokens(line: Seq<char>) -> Seq<Seq<char>> {
    non_empty(split(line, Cut::Blank))
}

/// Whether the first token of the line is the keyword `import` or `from`.
pub open spec fn is_import_line(line: Seq<char>) -> bool {
    let t = tokens(line);
    t.len() > 0 && (t[0] == "import"@ || t[0] == "from"@)
}

/// The lines of a text. A line ends at a line feed, which is no part of it,
/// nor is a carriage return that stands directly before that line feed. What
/// follows the last line feed is a line too unless it is empty; a carriage
/// return at its end stays.
pub open spec fn lines_of(content: Seq<char>) -> Seq<Seq<char>> {
    let pieces = split(content, Cut::At('\n'));
    let ended = pieces.drop_last().map_values(|p: Seq<char>| strip_cr(p));
    if pieces.last().len() == 0 {
        ended
    } else {
        ended.push(pieces.last())
    }
}

/// The import lines among `lines`, in order and unchanged.
pub open spec fn import_lines(lines: Seq<Seq<char>>) -> Seq<Seq<char>>
    decreases lines.len(),
{
    if lines.len() == 0 {
        Seq::<Seq<char>>::empty()
    } else if is_import_line(lines.last()) {
        import_lines(lines.drop_last()).push(lines.last())
    } else {
        import_lines(lines.drop_last())
    }
}

/// The import lines of a file's content, in order.
pub open spec fn extract(content: Seq<char>) -> Seq<Seq<char>> {
    import_lines(lines_of(content))
}

/// Whether an import line is kept: it has at least two tokens and its second
/// token is no standard-library module.
pub open spec fn keeps(line: Seq<char>) -> bool {
    let t = tokens(line);
    t.len() >= 2 && !is_std_module(t[1])
}

/// The tokens of each kept line of `lines`, in order.
pub open spec fn classify(lines: Seq<Seq<char>>) -> Seq<Seq<Seq<char>>>
    decreases lines.len(),
{
    if lines.len() == 0 {
        Seq::<Seq<Seq<char>>>::empty()
    } else if keeps(lines.last()) {
        classify(lines.drop_last()).push(tokens(lines.last()))
    } else {
        classify(lines.drop_last())
    }
}

/// The contents of a sequence of tokenised statements.
pub open spec fn tables(v: Seq<Vec<Vec<char>>>) -> Seq<Seq<Seq<char>>> {
    v.map_values(|r: Vec<Vec<char>>| rows(r@))
}

/// The contents of a sequence of tokenised statements held as strings.
pub open spec fn statements(v: Seq<Vec<String>>) -> Seq<Seq<Seq<char>>> {
    v.map_values(|r: Vec<String>| texts(r@))
}

/// Every classified statement has at least two tokens, and its second token
/// is no standard-library module: a standard-library import never reaches
/// resolution.
pub proof fn lemma_classified_not_std(lines: Seq<Seq<char>>, i: int)
    requires
        0 <= i < classify(lines).len(),
    ensures
        classify(lines)[i].len() >= 2,
        !is_std_module(classify(lines)[i][1]),
    decreases lines.len(),
{
    if lines.len() > 0 {
        let before = classify(lines.drop_last());
        if i < before.len() {
            lemma_classified_not_std(lines.drop_last(), i);
        }
    }
}

/// Splits a line into its whitespace-separated tokens.
pub fn tokens_of(line: &Vec<char>) -> (t: Vec<Vec<char>>)
    ensures
        rows(t@) == tokens(line@),
{
    drop_empty(&split_text(line, Cut::Blank))
}

/// Cuts a text into its lines.
pub fn text_lines(content: &Vec<char>) -> (lines: Vec<Vec<char>>)
    ensures
        rows(lines@) == lines_of(content@),
{
    let pieces = split_text(content, Cut::At('\n'));
    let ghost ended = rows(pieces@).drop_last().map_values(|p: Seq<char>| strip_cr(p));
    let last: usize = pieces.len() - 1;
    let mut lines: Vec<Vec<char>> = Vec::new();
    let mut i: usize = 0;
    while i < last
        invariant
            i <= last,
            last == pieces.len() - 1,
            ended == rows(pieces@).drop_last().map_values(|p: Seq<char>| strip_cr(p)),
            rows(lines@) == ended.take(i as int),
        decreases last - i,
    {
        let ghost done = rows(lines@);
        let mut line = copy_text(&pieces[i]);
        if line.len() > 0 && line[line.len() - 1] == '\r' {
            line.pop();
        }
        assert(line@ =~= strip_cr(pieces@[i as int]@));
        lines.push(line);
        assert(rows(lines@) =~= done.push(strip_cr(pieces@[i as int]@)));
        assert(ended.take(i + 1) =~= ended.take(i as int).push(strip_cr(pieces@[i as int]@)));
        i += 1;
    }
    assert(ended.take(last as int) =~= ended);
    assert(rows(pieces@).last() == pieces@[last as int]@);
    if pieces[last].len() > 0 {
        lines.push(copy_text(&pieces[last]));
        assert(rows(lines@) =~= ended.push(pieces@[last as int]@));
    }
    lines
}

/// The import lines among `lines`, in order and unchanged.
pub fn keep_import_lines(lines: &Vec<Vec<char>>) -> (out: Vec<Vec<char>>)
    ensures
        rows(out@) == import_lines(rows(lines@)),
{
    let keyword_import = chars_of("import");
    let keyword_from = chars_of("from");
    let mut out: Vec<Vec<char>> = Vec::new();
    let mut i: usize = 0;
    while i < lines.len()
        invariant
            i <= lines.len(),
            keyword_import@ == "import"@,
            keyword_from@ == "from"@,
            rows(out@) == import_lines(rows(lines@).take(i as int)),
        decreases lines.len() - i,
    {
        let ghost done = rows(out@);
        assert(rows(lines@).take(i + 1).drop_last() =~= rows(lines@).take(i as int));
        assert(rows(lines@).take(i + 1).last() == lines@[i as int]@);
        let t = tokens_of(&lines[i]);
        if t.len() > 0 {
            assert(rows(t@)[0] == t@[0]@);
            if same(&t[0], &keyword_import) || same(&t[0], &keyword_from) {
                out.push(copy_text(&lines[i]));
                assert(rows(out@) =~= done.push(lines@[i as int]@));
            }
        }
        i += 1;
    }
    assert(rows(lines@).take(lines.len() as int) =~= rows(lines@));
    out
}

/// The import lines of `content`, given as character vectors.
pub fn extract_lines(content: &Vec<char>) -> (out: Vec<Vec<char>>)
    ensures
        rows(out@) == extract(content@),
{
    keep_import_lines(&text_lines(content))
}

/// The tokens of each kept line, given as character vectors.
pub fn classify_lines(lines: &Vec<Vec<char>>) -> (out: Vec<Vec<Vec<char>>>)
    ensures
        tables(out@) == classify(rows(lines@)),
{
    let mut out: Vec<Vec<Vec<char>>> = Vec::new();
    let mut i: usize = 0;
    while i < lines.len()
        invariant
            i <= lines.len(),
            tables(out@) == classify(rows(lines@).take(i as int)),
        decreases lines.len() - i,
    {
        let ghost done = tables(out@);
        assert(rows(lines@).take(i + 1).drop_last() =~= rows(lines@).take(i as int));
        let t = tokens_of(&lines[i]);
        if t.len() >= 2 {
            assert(rows(t@)[1] == t@[1]@);
            if !is_std(&t[1]) {
                out.push(t);
                assert(tables(out@) =~= done.push(tokens(lines@[i as int]@)));
            }
        }
        i += 1;
    }
    assert(rows(lines@).take(lines.len() as int) =~= rows(lines@));
    out
}

/// The lines of `content` whose first whitespace-separated token is `import`
/// or `from`, in order and as they stand in the text, without the line
/// ending.
pub fn extract_imports(content: &str) -> (imports: Vec<String>)
    ensures
        texts(imports@) == extract(content@),
{
    strings_of(&extract_lines(&chars_of(content)))
}

/// Splits each import line into its tokens and drops the lines that name a
/// standard-library module as their second token, as well as those with
/// fewer than two tokens.
pub fn filter_imports(imports_list: Vec<String>) -> (filtered: Vec<Vec<String>>)
    ensures
        statements(filtered@) == classify(texts(imports_list@)),
        forall|i: int|
            0 <= i < filtered.len() ==> (#[trigger] statements(filtered@)[i]).len() >= 2
                && !is_std_module(statements(filtered@)[i][1]),
{
    let kept = classify_lines(&rows_of(&imports_list));
    let mut filtered: Vec<Vec<String>> = Vec::new();
    let mut i: usize = 0;
    while i < kept.len()
        invariant
            i <= kept.len(),
            statements(filtered@) == tables(kept@).take(i as int),
        decreases kept.len() - i,
    {
        let ghost done = statements(filtered@);
        let row = strings_of(&kept[i]);
        filtered.push(row);
        assert(statements(filtered@) =~= done.push(rows(kept@[i as int]@)));
        assert(tables(kept@).take(i + 1) =~= tables(kept@).take(i as int).push(
            rows(kept@[i as int]@),
        ));
        i += 1;
    }
    assert(tables(kept@).take(kept.len() as int) =~= tables(kept@));
    assert forall|i: int| 0 <= i < filtered.len() implies (#[trigger] statements(
        filtered@,
    )[i]).len() >= 2 && !is_std_module(statements(filtered@)[i][1]) by {
        lemma_classified_not_std(texts(imports_list@), i);
    }
    filtered
}

} // verus!
