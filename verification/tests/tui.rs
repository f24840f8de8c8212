use herdr_comments::keys::{KeyCode, KeyEvent, KeyModifiers};
use herdr_comments::layout::{
    comment_help, comment_layout, comment_status, place, selection_highlights, selection_quote,
    source_cursor, source_help, source_status, span_slices, visible_rows, PASTE_HINT, REVIEW_HINT,
};
use herdr_comments::model::PaneSnapshot;
use herdr_comments::text::string_of;
use herdr_comments::tui::{AnnotationState, InputOutcome, SaveReply, EMPTY_SELECTION_ERROR};
use herdr_comments::wrap::{char_slice, wrapped_rows};

fn key(code: KeyCode, modifiers: KeyModifiers) -> KeyEvent {
    KeyEvent::press(code, modifiers)
}

fn snapshot() -> PaneSnapshot {
    PaneSnapshot {
        text: "alpha\nbeta value\ngamma".into(),
        ansi: "\u{1b}[31malpha\u{1b}[0m\nbeta value\ngamma".into(),
        initial_top: 0,
        viewport_rows: 3,
        history_limited: false,
    }
}

#[test]
fn visual_selection_opens_a_multiline_comment_editor() {
    let mut state = AnnotationState::new(snapshot(), 0);
    state.set_viewport(3, 40);
    state.handle_key(key(KeyCode::Char('k'), KeyModifiers::none()));
    state.handle_key(key(KeyCode::Char('V'), KeyModifiers::shift()));
    state.handle_key(key(KeyCode::Char('k'), KeyModifiers::none()));
    state.handle_key(key(KeyCode::Char('c'), KeyModifiers::none()));

    assert!(state.is_commenting());
    state.handle_paste("first line");
    state.handle_key(key(KeyCode::Enter, KeyModifiers::alt()));
    state.handle_paste("second line");
    assert_eq!(
        state.handle_key(key(KeyCode::Enter, KeyModifiers::none())),
        InputOutcome::SaveComment {
            source: "alpha\nbeta value".into(),
            note: "first line\nsecond line".into(),
        }
    );
}

#[test]
fn inline_comment_starts_in_the_editor_and_closes_after_save_or_cancel() {
    let mut saved = AnnotationState::new_inline(snapshot(), 2);

    assert!(saved.is_commenting());
    saved.handle_paste("direct note");
    assert_eq!(
        saved.handle_key(key(KeyCode::Enter, KeyModifiers::none())),
        InputOutcome::SaveComment {
            source: "alpha\nbeta value\ngamma".into(),
            note: "direct note".into(),
        }
    );
    assert!(saved.exits_after_save());

    let mut cancelled = AnnotationState::new_inline(snapshot(), 2);
    assert_eq!(
        cancelled.handle_key(key(KeyCode::Esc, KeyModifiers::none())),
        InputOutcome::Exit
    );
}

#[test]
fn comment_editor_wraps_typed_text_and_keeps_cursor_visible() {
    let mut state = AnnotationState::new_inline(snapshot(), 0);
    state.handle_paste("abcdefghij");
    // A 10-column popup leaves an 8-column note editor inside its border.
    let (_, editor) = state.comment().unwrap();
    let layout = comment_layout(editor, 8, 3);

    assert_eq!(layout.lines[0], "abcdefgh");
    assert_eq!(format!("{:<8}", layout.lines[1]), "ij      ");
    assert_eq!(layout.lines.len(), 2);
    assert_eq!((layout.cursor_column, layout.cursor_row), (2, 1));
}

#[test]
fn snapshot_comment_escape_returns_to_the_snapshot() {
    let mut state = AnnotationState::new(snapshot(), 0);
    state.handle_key(key(KeyCode::Char('V'), KeyModifiers::shift()));
    state.handle_key(key(KeyCode::Char('c'), KeyModifiers::none()));

    assert_eq!(
        state.handle_key(key(KeyCode::Esc, KeyModifiers::none())),
        InputOutcome::Continue
    );
    assert!(!state.is_commenting());
}

#[test]
fn comment_help_matches_inline_and_snapshot_exit_behavior() {
    let inline = AnnotationState::new_inline(snapshot(), 0);
    let inline_help = comment_help(inline.exits_after_save());
    assert!(inline_help.contains("type comment"));
    assert!(inline_help.contains("enter collect & close"));
    assert!(inline_help.contains("esc cancel & close"));

    let mut snapshot = AnnotationState::new(snapshot(), 0);
    snapshot.handle_key(key(KeyCode::Char('V'), KeyModifiers::shift()));
    snapshot.handle_key(key(KeyCode::Char('c'), KeyModifiers::none()));
    let snapshot_help = comment_help(snapshot.exits_after_save());
    assert!(snapshot_help.contains("enter collect"));
    assert!(snapshot_help.contains("esc back to NORMAL"));
}

#[test]
fn scrolling_is_clamped_and_keeps_the_cursor_visible() {
    let mut snapshot = snapshot();
    snapshot.text = (0..30)
        .map(|line| format!("line {line}"))
        .collect::<Vec<_>>()
        .join("\n");
    snapshot.ansi = snapshot.text.clone();
    snapshot.viewport_rows = 5;
    let mut state = AnnotationState::new(snapshot, 0);
    state.set_viewport(5, 20);

    state.handle_key(key(KeyCode::Char('g'), KeyModifiers::none()));
    assert_eq!(state.cursor().row, 0);
    assert_eq!(state.top(), 0);
    state.handle_key(key(KeyCode::Char('d'), KeyModifiers::control()));
    assert_eq!(state.cursor().row, 2);
    state.handle_key(key(KeyCode::Char('G'), KeyModifiers::shift()));
    assert_eq!(state.cursor().row, 29);
    assert_eq!(state.top(), 25);
}

#[test]
fn normal_mode_exit_closes_the_popup() {
    let mut state = AnnotationState::new(snapshot(), 2);
    assert_eq!(
        state.handle_key(key(KeyCode::Char('q'), KeyModifiers::none())),
        InputOutcome::Exit
    );
}

#[test]
fn ansi_source_and_status_render_together() {
    let state = AnnotationState::new(snapshot(), 2);
    let status = source_status(
        state.is_selecting(),
        state.comment_count(),
        state.snapshot().history_limited,
    );
    assert!(status.contains("NORMAL · 2 comments"));
    assert!(source_help(state.is_selecting()).contains("v/V select"));
    assert!(REVIEW_HINT.contains("alt-shift-c final edit"));
    assert!(PASTE_HINT.contains("alt-shift-p paste"));
}

#[test]
fn wrapped_source_keeps_cursor_and_visual_selection_aligned() {
    let snapshot = PaneSnapshot {
        text: "abcdefghij".into(),
        ansi: "\u{1b}[31mabcdefghij\u{1b}[0m".into(),
        initial_top: 0,
        viewport_rows: 1,
        history_limited: false,
    };
    let mut state = AnnotationState::new(snapshot, 0);
    state.handle_key(key(KeyCode::Char('$'), KeyModifiers::none()));
    state.handle_key(key(KeyCode::Char('v'), KeyModifiers::none()));
    state.handle_key(key(KeyCode::Char('h'), KeyModifiers::none()));
    state.handle_key(key(KeyCode::Char('h'), KeyModifiers::none()));
    // A 5 by 7 popup: three source rows above the four footer rows.
    state.set_viewport(3, 5);

    let rows = wrapped_rows(state.lines(), state.viewport_width());
    let shown = visible_rows(&rows, state.top(), 3);
    let text = |i: usize| {
        let row = shown[i];
        string_of(&char_slice(&state.lines()[row.source_row], row.start_column, row.end_column))
    };
    assert_eq!(text(0), "abcde");
    assert_eq!(text(1), "fghij");
    assert_eq!(source_cursor(&state, &rows), Some((2, 1)));
    let highlights = selection_highlights(&state, &shown);
    assert_eq!(highlights, vec![None, Some((2, 5))]);
}

#[test]
fn release_events_change_nothing() {
    let mut state = AnnotationState::new(snapshot(), 0);
    let before = state.clone();
    let release = KeyEvent {
        code: KeyCode::Char('q'),
        modifiers: KeyModifiers::none(),
        is_press: false,
    };
    assert_eq!(state.handle_key(release), InputOutcome::Continue);
    assert_eq!(state, before);
}

#[test]
fn commenting_on_a_blank_selection_reports_an_error() {
    let mut state = AnnotationState::new(
        PaneSnapshot {
            text: "   \ntext".into(),
            ansi: "   \ntext".into(),
            initial_top: 0,
            viewport_rows: 2,
            history_limited: false,
        },
        0,
    );
    state.handle_key(key(KeyCode::Char('g'), KeyModifiers::none()));
    state.handle_key(key(KeyCode::Char('V'), KeyModifiers::shift()));
    state.handle_key(key(KeyCode::Char('c'), KeyModifiers::none()));
    assert!(!state.is_commenting());
    assert_eq!(state.error(), Some(EMPTY_SELECTION_ERROR));
}

#[test]
fn status_lines_count_comments() {
    assert_eq!(source_status(false, 1, false), " NORMAL · 1 comment ");
    assert_eq!(source_status(true, 3, true), " VISUAL · 3 comments · history limited ");
    assert_eq!(comment_status(4), " COMMENT · 4 collected ");
    assert_eq!(source_help(true), " v/V select · c comment · esc cancel ");
}

#[test]
fn the_selection_is_quoted_line_by_line() {
    assert_eq!(selection_quote("one\n\ntwo"), "> one\n>\n> two");
}

#[test]
fn cells_outside_the_area_are_not_placed() {
    assert_eq!(place(2, 3, 10, 4, 1, 1), Some((3, 4)));
    assert_eq!(place(2, 3, 10, 4, 10, 0), None);
    assert_eq!(place(2, 3, 10, 4, 0, 4), None);
    assert_eq!(place(65530, 0, 10, 1, 100_000, 0), None);
}

#[test]
fn styled_spans_are_cut_to_the_row() {
    assert_eq!(span_slices(&[3, 4, 2], 2, 6), vec![(0, 2, 3), (1, 0, 3)]);
    assert_eq!(span_slices(&[5], 5, 10), Vec::<(usize, usize, usize)>::new());
}

#[test]
fn a_stored_inline_note_closes_and_a_refused_one_stays_open() {
    let mut inline = AnnotationState::new_inline(snapshot(), 0);
    assert!(inline.after_save(SaveReply::Stored));

    let mut browsing = AnnotationState::new(snapshot(), 0);
    browsing.handle_key(key(KeyCode::Char('V'), KeyModifiers::shift()));
    browsing.handle_key(key(KeyCode::Char('c'), KeyModifiers::none()));
    assert!(!browsing.after_save(SaveReply::Stored));
    browsing.comment_saved(1);
    assert!(!browsing.is_commenting());
    assert_eq!(browsing.comment_count(), 1);

    let mut refused = AnnotationState::new_inline(snapshot(), 0);
    assert!(!refused.after_save(SaveReply::Refused {
        message: "disk full".into()
    }));
    assert_eq!(refused.error(), Some("disk full"));
    assert!(refused.is_commenting());
}

#[test]
fn pasted_text_becomes_the_note_with_uniform_line_endings() {
    let mut state = AnnotationState::new_inline(snapshot(), 0);
    state.handle_paste("a\r\nb\u{1b}c\rd\te");
    assert_eq!(state.error(), None);
    assert_eq!(
        state.handle_key(key(KeyCode::Enter, KeyModifiers::none())),
        InputOutcome::SaveComment {
            source: "alpha\nbeta value\ngamma".into(),
            note: "a\nbc\nd\te".into(),
        }
    );
}

#[test]
fn setting_the_same_viewport_twice_changes_nothing() {
    let mut state = AnnotationState::new(snapshot(), 0);
    state.handle_key(key(KeyCode::Char('G'), KeyModifiers::shift()));
    state.set_viewport(2, 4);
    let once = state.clone();
    state.set_viewport(2, 4);
    assert_eq!(state, once);
    let rows = wrapped_rows(state.lines(), state.viewport_width());
    let (_, screen_row) = source_cursor(&state, &rows).unwrap();
    assert!(screen_row < 2);
}
