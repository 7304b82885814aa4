use import_graph::text::chars_of;
use import_graph::viewer::{contains_text, server_started};

#[test]
fn start_line_is_recognised_anywhere_in_the_line() {
    assert!(server_started("Dash is running on http://127.0.0.1:8050/ Running on port"));
    assert!(server_started(" * Running on http://127.0.0.1:8050"));
    assert!(server_started("Running on"));
    assert!(!server_started("running on http://127.0.0.1:8050"));
    assert!(!server_started("Running o"));
    assert!(!server_started(""));
}

#[test]
fn contains_text_finds_a_piece_at_every_position() {
    let s = chars_of("abcab");
    assert!(contains_text(&s, &chars_of("")));
    assert!(contains_text(&s, &chars_of("abc")));
    assert!(contains_text(&s, &chars_of("cab")));
    assert!(contains_text(&s, &chars_of("abcab")));
    assert!(!contains_text(&s, &chars_of("abcabc")));
    assert!(!contains_text(&s, &chars_of("ba")));
    assert!(contains_text(&chars_of(""), &chars_of("")));
}
