use xkcdfs::layout::{break_text, wrap_lines, Line};

fn width(text: &str) -> impl Fn(usize, usize) -> u64 + '_ {
    move |s: usize, e: usize| text[s..e].chars().count() as u64
}

fn pieces<'a>(text: &'a str, lines: &[Line]) -> Vec<&'a str> {
    lines.iter().map(|l| &text[l.start..l.end]).collect()
}

#[test]
fn lines_fit_the_target_and_rebuild_the_text() {
    let text = "the quick brown fox jumps over the lazy dog";
    let lines = break_text(text, 10, width(text));
    let parts = pieces(text, &lines);
    assert_eq!(parts, vec!["the quick ", "brown fox ", "jumps ", "over the ", "lazy dog"]);
    assert_eq!(parts.concat(), text);
    for l in lines.iter() {
        assert!(l.width <= 10);
        assert_eq!(l.width, (l.end - l.start) as u64);
    }
}

#[test]
fn a_word_wider_than_the_target_stands_alone() {
    let text = "a incomprehensibilities b";
    let lines = break_text(text, 5, width(text));
    let parts = pieces(text, &lines);
    assert_eq!(parts, vec!["a ", "incomprehensibilities ", "b"]);
    assert_eq!(lines[1].width, 22);
}

#[test]
fn mandatory_breaks_end_lines() {
    let text = "a b\nc";
    let lines = break_text(text, 100, width(text));
    assert_eq!(pieces(text, &lines), vec!["a b\n", "c"]);
}

#[test]
fn empty_text_has_no_line() {
    let lines = break_text("", 10, width(""));
    assert!(lines.is_empty());
}

#[test]
fn no_line_is_empty_and_lines_cut_at_char_boundaries() {
    let text = "\u{e9}t\u{e9} \u{fc}ber \u{1f600} na\u{ef}ve caf\u{e9}s";
    let lines = break_text(text, 6, width(text));
    assert_eq!(pieces(text, &lines).concat(), text);
    for l in lines.iter() {
        assert!(l.start < l.end);
        assert!(text.is_char_boundary(l.start) && text.is_char_boundary(l.end));
    }
}

#[test]
fn an_opportunity_at_the_start_gives_no_line() {
    let text = "ab cd";
    let lines = wrap_lines(&vec![(0, true), (3, false), (5, true)], 5, 100, width(text));
    assert_eq!(pieces(text, &lines), vec!["ab cd"]);
}

#[test]
fn wrapping_given_opportunities() {
    let text = "aaaa bbbb cccc";
    let breaks = vec![(5, false), (10, false), (14, true)];
    let lines = wrap_lines(&breaks, 14, 9, width(text));
    assert_eq!(pieces(text, &lines), vec!["aaaa ", "bbbb cccc"]);
    let lines = wrap_lines(&breaks, 14, 8, width(text));
    assert_eq!(pieces(text, &lines), vec!["aaaa ", "bbbb cccc"]);
    assert_eq!(lines[1].width, 9);
    let lines = wrap_lines(&vec![(5, false), (10, false), (14, false)], 14, 8, width(text));
    assert_eq!(pieces(text, &lines), vec!["aaaa ", "bbbb ", "cccc"]);
    // A mandatory opportunity takes the candidate as it is, however wide.
    let lines = wrap_lines(&breaks, 14, 10, width(text));
    assert_eq!(pieces(text, &lines), vec!["aaaa bbbb cccc"]);
    // Text after the last opportunity still forms a line.
    let lines = wrap_lines(&vec![(5, false)], 14, 100, width(text));
    assert_eq!(pieces(text, &lines), vec![text]);
}
