use herdr_comments::decimal::u128_to_decimal;
use herdr_comments::editor::NoteEditor;
use herdr_comments::format::{
    format_collection, format_comment, normalize_note, normalize_snapshot, normalize_source,
    validate_review, FormatError,
};
use herdr_comments::keys::{
    classify_comment_key, classify_source_key, CommentAction, KeyCode, KeyEvent, KeyModifiers,
    SourceAction,
};
use herdr_comments::model::{Comment, ReviewSession, SCHEMA_VERSION};
use herdr_comments::records::{capture_order, new_comment, new_draft, new_review, promote, RecordError};
use herdr_comments::store::{
    clamp_millis, is_expired, json_id, scope_id, valid_id, valid_scope, validate_id,
    validate_model, StoreError, TRANSIENT_TTL_MS,
};
use herdr_comments::wrap::{exec_width_of, display_column, wrapped_editor_rows, wrapped_row_index, wrapped_rows, WrappedRow};

#[test]
fn comments_format_as_quote_then_note_in_capture_order() {
    let first = format_comment("first\r\nsecond", "because one").unwrap();
    let second = format_comment("third", "because two").unwrap();

    assert_eq!(first, "> first\n> second\n\nbecause one\n");
    assert_eq!(
        format_collection(&[first, second]),
        "> first\n> second\n\nbecause one\n\n> third\n\nbecause two\n"
    );
}

#[test]
fn a_collection_of_one_comment_is_that_comment() {
    let only = format_comment("a\n\nb", "  note  \r\n").unwrap();
    assert_eq!(only, "> a\n>\n> b\n\nnote\n");
    assert_eq!(format_collection(&[only.clone()]), only);
    assert_eq!(format_collection(&[]), "\n");
}

#[test]
fn normalized_text_is_normalized_again_unchanged() {
    let source = normalize_source("x\r\ny\rz").unwrap();
    assert_eq!(source, "x\ny\nz");
    assert_eq!(normalize_source(&source).unwrap(), source);
    let note = normalize_note("\t note\r\n").unwrap();
    assert_eq!(note, "note");
    assert_eq!(normalize_note(&note).unwrap(), note);
}

#[test]
fn each_text_error_has_an_input() {
    assert_eq!(normalize_source(" \r\n "), Err(FormatError::EmptySelection));
    assert_eq!(
        normalize_source(&"é".repeat(102_401)),
        Err(FormatError::SelectionTooLarge { bytes: 204_802 })
    );
    assert_eq!(normalize_source("a\u{7f}"), Err(FormatError::UnsupportedControl));
    assert_eq!(normalize_note("  "), Err(FormatError::EmptyNote));
    assert_eq!(normalize_note(&"n".repeat(204_801)), Err(FormatError::NoteTooLarge));
    assert_eq!(normalize_note("a\u{0}b"), Err(FormatError::UnsupportedControl));
    assert_eq!(normalize_snapshot("\n\t"), Err(FormatError::EmptySnapshot));
    assert_eq!(
        normalize_snapshot(&"s".repeat(2 * 1024 * 1024 + 1)),
        Err(FormatError::SnapshotTooLarge)
    );
    assert_eq!(validate_review(&"r".repeat(1024 * 1024 + 1)), Err(FormatError::ReviewTooLarge));
    assert_eq!(validate_review("tab\tand\nnewline"), Ok(()));
    assert_eq!(
        FormatError::SelectionTooLarge { bytes: 300_000 }.message(),
        "the selected text is 300000 bytes; select 204800 bytes or fewer"
    );
}

#[test]
fn decimal_rendering() {
    assert_eq!(u128_to_decimal(0), "0");
    assert_eq!(u128_to_decimal(1_000), "1000");
    assert_eq!(u128_to_decimal(u128::MAX), u128::MAX.to_string());
}

#[test]
fn typing_then_backspace_restores_the_note() {
    let mut editor = NoteEditor::new();
    editor.insert_text("ab\ncd");
    editor.move_left();
    let before = editor.clone();
    editor.insert_char('x');
    assert_eq!(editor.text(), "ab\ncxd");
    editor.backspace();
    assert_eq!(editor, before);

    editor.insert_newline();
    assert_eq!(editor.text(), "ab\nc\nd");
    editor.backspace();
    assert_eq!(editor, before);
}

#[test]
fn moving_left_then_right_returns() {
    let mut editor = NoteEditor::new();
    editor.insert_text("ab\ncd");
    editor.move_vertical(-1);
    editor.move_home();
    let start_of_first = editor.clone();
    editor.move_left();
    assert_eq!(editor, start_of_first);
    editor.move_end();
    let end_of_first = editor.clone();
    editor.move_right();
    assert_eq!((editor.row(), editor.column()), (1, 0));
    editor.move_left();
    assert_eq!(editor, end_of_first);
}

#[test]
fn deleting_joins_lines_and_pasting_drops_controls() {
    let mut editor = NoteEditor::new();
    editor.insert_text("a\u{1b}b\r\nc\td");
    assert_eq!(editor.text(), "ab\nc\td");
    editor.move_vertical(-1);
    editor.move_end();
    editor.delete();
    assert_eq!(editor.text(), "abc\td");
    assert_eq!(editor.line_len(), 5);
}

#[test]
fn key_maps() {
    let none = KeyModifiers::none();
    let press = |c| KeyEvent::press(KeyCode::Char(c), none);
    assert_eq!(classify_source_key(press('q'), false), SourceAction::Exit);
    assert_eq!(classify_source_key(press('c'), false), SourceAction::Ignore);
    assert_eq!(classify_source_key(press('c'), true), SourceAction::Comment);
    assert_eq!(
        classify_source_key(KeyEvent::press(KeyCode::Char('V'), KeyModifiers::shift()), false),
        SourceAction::LineVisual
    );
    assert_eq!(
        classify_source_key(KeyEvent::press(KeyCode::Char('u'), KeyModifiers::control()), false),
        SourceAction::HalfPage(-1)
    );
    assert_eq!(classify_source_key(KeyEvent::press(KeyCode::PageDown, none), false), SourceAction::Page(1));
    assert_eq!(
        classify_comment_key(KeyEvent::press(KeyCode::Enter, KeyModifiers::alt())),
        CommentAction::Newline
    );
    assert_eq!(classify_comment_key(KeyEvent::press(KeyCode::Enter, none)), CommentAction::Save);
    assert_eq!(
        classify_comment_key(KeyEvent::press(KeyCode::Char('x'), KeyModifiers::control())),
        CommentAction::Ignore
    );
    assert_eq!(classify_comment_key(press('x')), CommentAction::Insert('x'));
}

#[test]
fn rows_wrap_at_the_width_and_cover_every_line() {
    let lines = vec!["abcdefghij".chars().collect::<Vec<_>>(), Vec::new(), "xy".chars().collect()];
    let rows = wrapped_rows(&lines, 4);
    let row = |source_row, start_column, end_column| WrappedRow {
        source_row,
        start_column,
        end_column,
    };
    assert_eq!(
        rows,
        vec![row(0, 0, 4), row(0, 4, 8), row(0, 8, 10), row(1, 0, 0), row(2, 0, 2)]
    );
    assert_eq!(wrapped_row_index(&rows, 0, 9), Some(2));
    assert_eq!(wrapped_row_index(&rows, 1, 0), Some(3));
    assert_eq!(wrapped_row_index(&rows, 2, 2), None);
    assert_eq!(wrapped_rows(&lines, 0).len(), 13);
}

#[test]
fn wide_characters_take_two_columns() {
    let line: Vec<char> = "a界b".chars().collect();
    assert_eq!(display_column(&line, 2), 3);
    let rows = wrapped_rows(&[line.clone()], 2);
    assert_eq!(rows.len(), 3);
    let editor_rows = wrapped_editor_rows(&[line], 4);
    assert_eq!(
        editor_rows,
        vec![
            WrappedRow { source_row: 0, start_column: 0, end_column: 3 },
            WrappedRow { source_row: 0, start_column: 3, end_column: 3 }
        ]
    );
}

#[test]
fn state_is_isolated_by_session_and_pane() {
    let pane_a = scope_id("/tmp/session-a.sock", "w1:p1");
    let pane_b = scope_id("/tmp/session-a.sock", "w1:p2");
    let other_session = scope_id("/tmp/session-b.sock", "w1:p1");

    assert_ne!(pane_a, pane_b);
    assert_ne!(pane_a, other_session);
    assert!(!pane_a.contains("session-a") && !pane_a.contains("w1:p1"));
    assert_eq!(pane_a.len(), 64);
    assert!(valid_scope(&pane_a));
    // The session identity and the pane are kept apart by a zero byte.
    assert_ne!(scope_id("ab", "c"), scope_id("a", "bc"));
}

#[test]
fn scope_is_the_sha256_of_session_zero_pane() {
    assert_eq!(
        scope_id("", ""),
        "6e340b9cffb37a989ca544e6bb780a2c78901d3fb33738768511a30617afa01d"
    );
}

#[test]
fn drafts_keep_originating_context_and_use_opaque_ids() {
    let scope = scope_id("socket", "w4:p7");
    let draft = new_draft("copied text", "w4:p7", &scope, 5).unwrap();

    assert_eq!(draft.source_text, "copied text");
    assert_eq!(draft.pane_id, "w4:p7");
    assert_eq!(draft.scope, scope);
    assert_eq!(draft.id.len(), 32);
    assert!(draft.id.chars().all(|ch| ch.is_ascii_hexdigit()));
    assert_eq!(draft.created_at_ms, 5);
    assert_eq!(draft.schema_version, SCHEMA_VERSION);
    assert!(valid_id(&draft.id));
}

#[test]
fn records_refuse_bad_context() {
    let scope = scope_id("socket", "w1:p1");
    assert_eq!(
        new_draft(" ", "w1:p1", &scope, 0),
        Err(RecordError::Format(FormatError::EmptySelection))
    );
    assert_eq!(
        new_draft("text", " ", &scope, 0),
        Err(RecordError::Store(StoreError::InvalidDraftContext))
    );
    assert_eq!(
        new_comment("../outside", "text", "note", 0),
        Err(RecordError::Store(StoreError::InvalidScope))
    );
    assert_eq!(
        new_comment(&scope, "text", " ", 0),
        Err(RecordError::Format(FormatError::EmptyNote))
    );
    let comment = new_comment(&scope, "a\r\nb", " why ", 7).unwrap();
    assert_eq!((comment.source_text.as_str(), comment.note.as_str()), ("a\nb", "why"));
    assert_eq!(new_review("w1:p1", &scope, Vec::new(), 0), Err(StoreError::InvalidReviewContext));
    assert_eq!(
        new_review("w1:p1", &scope, vec!["../x".to_string()], 0),
        Err(StoreError::InvalidId)
    );
}

#[test]
fn a_promoted_review_keeps_its_comments() {
    let scope = scope_id("socket", "w1:p1");
    let ids = vec![
        "0123456789abcdef0123456789abcdef".to_string(),
        "fedcba9876543210fedcba9876543210".to_string(),
    ];
    let review: ReviewSession = new_review("w1:p1", &scope, ids.clone(), 9).unwrap();
    let ready = promote(review, "edited\n".to_string());
    assert_eq!(ready.comment_ids, ids);
    assert_eq!(ready.markdown, "edited\n");
    assert_eq!(ready.pane_id, "w1:p1");
    assert_eq!(ready.scope, scope);
}

#[test]
fn comments_are_read_back_in_capture_order() {
    let comment = |id: &str, at: u128| Comment {
        schema_version: SCHEMA_VERSION,
        id: id.into(),
        source_text: "s".into(),
        note: "n".into(),
        created_at_ns: at,
    };
    let sorted = capture_order(vec![comment("b", 2), comment("c", 1), comment("a", 2), comment("ab", 2)]);
    let order: Vec<&str> = sorted.iter().map(|c| c.id.as_str()).collect();
    assert_eq!(order, ["c", "a", "ab", "b"]);
}

#[test]
fn identifiers_and_expiry() {
    assert!(valid_id("0123456789abcdef0123456789ABCDEF"));
    assert!(!valid_id("../outside"));
    assert_eq!(validate_id("nothex"), Err(StoreError::InvalidId));
    assert_eq!(json_id("0123456789abcdef0123456789abcdef.json"), Some("0123456789abcdef0123456789abcdef".to_string()));
    assert_eq!(json_id("notes.txt"), None);
    assert_eq!(validate_model("abc", "abd", SCHEMA_VERSION), Err(StoreError::UnsupportedRecord));
    assert!(!is_expired(TRANSIENT_TTL_MS, 0));
    assert!(is_expired(TRANSIENT_TTL_MS + 1, 0));
    assert!(!is_expired(0, 5));
    assert_eq!(clamp_millis(u128::MAX), u64::MAX);
    assert_eq!(StoreError::InvalidId.message(), "state identifier is invalid");
}

#[test]
fn printable_ascii_is_one_column_and_controls_none() {
    assert_eq!(exec_width_of('a'), 1);
    assert_eq!(exec_width_of('~'), 1);
    assert_eq!(exec_width_of('\u{1b}'), 0);
    assert_eq!(exec_width_of('\u{85}'), 0);
    assert_eq!(exec_width_of('界'), 2);
}

#[test]
fn rows_rejoin_to_the_text_without_its_final_newline() {
    for text in ["", "a", "a\nb\n", "a\n\nb", "\n"] {
        let rows = herdr_comments::snapshot::rows(text);
        assert!(!rows.is_empty());
        assert!(rows.iter().all(|row| !row.contains('\n')));
        assert_eq!(rows.join("\n"), text.strip_suffix('\n').unwrap_or(text));
    }
}
