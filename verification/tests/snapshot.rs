use herdr_comments::format::FormatError;
use herdr_comments::snapshot::{assemble, rows, ScrollState};

#[test]
fn recent_history_opens_at_the_source_viewport() {
    let snapshot = assemble(
        "one\ntwo\nthree\nfour\nfive",
        "one\ntwo\nthree\nfour\nfive",
        "two\nthree",
        "two\nthree",
        ScrollState {
            offset_from_bottom: 2,
            max_offset_from_bottom: 3,
            viewport_rows: 2,
        },
    )
    .unwrap();

    assert_eq!(snapshot.initial_top, 1);
    assert!(!snapshot.history_limited);
    assert_eq!(rows(&snapshot.text)[snapshot.initial_top], "two");
}

#[test]
fn visible_view_is_kept_when_recent_history_cannot_reach_it() {
    let snapshot = assemble(
        "new one\nnew two",
        "new one\nnew two",
        "old one\nold two",
        "\u{1b}[31mold one\u{1b}[0m\nold two",
        ScrollState {
            offset_from_bottom: 50,
            max_offset_from_bottom: 80,
            viewport_rows: 2,
        },
    )
    .unwrap();

    assert_eq!(snapshot.text, "old one\nold two");
    assert_eq!(snapshot.initial_top, 0);
    assert!(snapshot.history_limited);
}

#[test]
fn visible_content_is_used_when_recent_output_is_empty() {
    let snapshot = assemble(
        "",
        "",
        "current screen",
        "\u{1b}[32mcurrent screen\u{1b}[0m",
        ScrollState {
            offset_from_bottom: 0,
            max_offset_from_bottom: 0,
            viewport_rows: 1,
        },
    )
    .unwrap();

    assert_eq!(snapshot.text, "current screen");
    assert!(snapshot.ansi.contains("\u{1b}[32m"));
}

#[test]
fn recent_history_remains_available_when_the_current_screen_is_blank() {
    let snapshot = assemble(
        "earlier output",
        "\u{1b}[32mearlier output\u{1b}[0m",
        "",
        "",
        ScrollState {
            offset_from_bottom: 0,
            max_offset_from_bottom: 0,
            viewport_rows: 10,
        },
    )
    .unwrap();

    assert_eq!(snapshot.text, "earlier output");
    assert!(!snapshot.history_limited);
}

#[test]
fn a_partially_filled_unscrolled_screen_is_not_history_limited() {
    let snapshot = assemble(
        "prompt\noutput\nprompt",
        "prompt\noutput\nprompt",
        "prompt\noutput\nprompt",
        "prompt\noutput\nprompt",
        ScrollState {
            offset_from_bottom: 0,
            max_offset_from_bottom: 0,
            viewport_rows: 70,
        },
    )
    .unwrap();

    assert_eq!(snapshot.initial_top, 0);
    assert!(!snapshot.history_limited);
}

#[test]
fn styled_text_with_other_rows_falls_back_to_plain_text() {
    let snapshot = assemble(
        "one\ntwo",
        "one",
        "",
        "",
        ScrollState {
            offset_from_bottom: 0,
            max_offset_from_bottom: 0,
            viewport_rows: 2,
        },
    )
    .unwrap();

    assert_eq!(snapshot.ansi, "one\ntwo");
    assert_eq!(rows(&snapshot.ansi).len(), rows(&snapshot.text).len());
}

#[test]
fn scrolled_history_that_reaches_past_recent_rows_is_limited() {
    let snapshot = assemble(
        "a\nb\nc\nd",
        "a\nb\nc\nd",
        "c\nd",
        "c\nd",
        ScrollState {
            offset_from_bottom: 1,
            max_offset_from_bottom: 9,
            viewport_rows: 2,
        },
    )
    .unwrap();

    assert_eq!(snapshot.initial_top, 1);
    assert!(snapshot.history_limited);
    assert_eq!(snapshot.viewport_rows, 2);
}

#[test]
fn a_blank_pane_cannot_be_annotated() {
    let result = assemble(
        " \n ",
        "",
        "\n",
        "",
        ScrollState {
            offset_from_bottom: 0,
            max_offset_from_bottom: 0,
            viewport_rows: 0,
        },
    );
    assert_eq!(result, Err(FormatError::EmptySnapshot));
}

#[test]
fn carriage_returns_become_newlines_in_snapshots() {
    let snapshot = assemble(
        "one\r\ntwo\rthree",
        "one\r\ntwo\rthree",
        "",
        "",
        ScrollState {
            offset_from_bottom: 0,
            max_offset_from_bottom: 0,
            viewport_rows: 0,
        },
    )
    .unwrap();

    assert_eq!(snapshot.text, "one\ntwo\nthree");
    assert_eq!(snapshot.viewport_rows, 1);
    assert_eq!(snapshot.initial_top, 2);
}

#[test]
fn rows_drop_only_a_final_newline() {
    assert_eq!(rows("a\nb\n"), vec!["a".to_string(), "b".to_string()]);
    assert_eq!(rows("a\n\n"), vec!["a".to_string(), "".to_string()]);
    assert_eq!(rows(""), vec!["".to_string()]);
}
