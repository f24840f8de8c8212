use herdr_comments::annotation::{inline_snapshot, review_target, ReviewTarget};
use herdr_comments::capture::{
    collected_message, completion_result, inserted_message, plan_completion, plural, Completion,
    CompletionResult, CompletionStep,
};
use herdr_comments::clipboard::{acquire_with, ClipboardError};
use herdr_comments::context::{ActionContext, PluginContext};
use herdr_comments::format::FormatError;
use herdr_comments::model::{Comment, Draft, ReadyReview, SCHEMA_VERSION};
use herdr_comments::review::{
    finish_effects, paste_effects, Effect, BLANK_REVIEW_NOTICE, NOTHING_TO_PASTE_NOTICE,
    check_ready, comment_ids, finish_result, finish_step, paste_result, pasted_message,
    plan_paste, plan_review, review_markdown, saved_message, FinishStep, PasteError, PastePlan,
    PasteResult, ReviewPlan, ReviewResult,
};
use herdr_comments::store::scope_id;

fn comment(id: &str, source: &str, note: &str) -> Comment {
    Comment {
        schema_version: SCHEMA_VERSION,
        id: id.into(),
        source_text: source.into(),
        note: note.into(),
        created_at_ns: 0,
    }
}

fn target(scope: &str) -> ReviewTarget {
    ReviewTarget {
        pane_id: "w1:p1".into(),
        scope: scope.into(),
    }
}

fn ready(pane_id: &str, markdown: &str, ids: &[&str]) -> ReadyReview {
    ReadyReview {
        schema_version: SCHEMA_VERSION,
        pane_id: pane_id.into(),
        scope: "scope".into(),
        comment_ids: ids.iter().map(|id| id.to_string()).collect(),
        markdown: markdown.into(),
    }
}

fn draft(source: &str) -> Draft {
    Draft {
        schema_version: SCHEMA_VERSION,
        id: "0123456789abcdef0123456789abcdef".into(),
        source_text: source.into(),
        pane_id: "w1:p1".into(),
        scope: "scope".into(),
        created_at_ms: 0,
    }
}

#[test]
fn review_target_uses_the_focused_source_pane() {
    let context = ActionContext::from_values(
        PluginContext {
            focused_pane_id: Some("w1:p1".into()),
            focused_pane_cwd: None,
            selected_text: None,
        },
        "/tmp/comments-state",
        "/opt/bin/herdr",
        "socket",
    )
    .unwrap();

    let target = review_target(&context);

    assert_eq!(target.pane_id, "w1:p1");
    assert_eq!(target.scope, scope_id("socket", "w1:p1"));
}

#[test]
fn clipboard_validation_happens_before_draft_creation() {
    assert_eq!(acquire_with(b"one\r\ntwo".to_vec()).unwrap(), "one\ntwo");
    assert!(acquire_with(Vec::new()).is_err());
    assert!(acquire_with(b"unsafe\x1b[31m".to_vec()).is_err());
    assert!(acquire_with(vec![b'x'; 200 * 1024 + 1]).is_err());
    assert!(acquire_with(vec![0xff]).is_err());
}

#[test]
fn clipboard_errors_say_why() {
    assert_eq!(acquire_with(vec![0xff]), Err(ClipboardError::NotUtf8));
    assert_eq!(
        acquire_with(b" \n".to_vec()),
        Err(ClipboardError::Format(FormatError::EmptySelection))
    );
    assert_eq!(
        acquire_with(vec![b'x'; 200 * 1024 + 1]),
        Err(ClipboardError::Format(FormatError::SelectionTooLarge { bytes: 200 * 1024 + 1 }))
    );
    assert_eq!(
        acquire_with(b"a\x1bb".to_vec()),
        Err(ClipboardError::Format(FormatError::UnsupportedControl))
    );
}

#[test]
fn inline_launch_rejects_an_empty_native_selection() {
    let error = inline_snapshot(" \r\n ").unwrap_err();
    assert_eq!(error, FormatError::EmptySelection);
    assert!(error.message().contains("selected text is empty"));
}

#[test]
fn inline_launch_persists_the_native_selection_without_capturing_the_pane() {
    let snapshot = inline_snapshot("first\r\nsecond").unwrap();
    assert_eq!(snapshot.text, "first\nsecond");
    assert_eq!(snapshot.ansi, "first\nsecond");
    assert_eq!(snapshot.initial_top, 0);
    assert_eq!(snapshot.viewport_rows, 2);
    assert!(!snapshot.history_limited);
}

#[test]
fn empty_collection_notifies_without_opening() {
    assert_eq!(plan_review(&[]), Ok(ReviewPlan::Empty));
}

#[test]
fn review_opens_an_exact_markdown_snapshot_with_an_opaque_id() {
    let comments = [comment("a1", "first", "note one"), comment("b2", "second", "note two")];
    assert_eq!(
        plan_review(&comments),
        Ok(ReviewPlan::Open {
            comment_ids: vec!["a1".to_string(), "b2".to_string()],
            markdown: "> first\n\nnote one\n\n> second\n\nnote two\n".into(),
        })
    );
}

#[test]
fn a_comment_that_cannot_be_formatted_stops_the_review() {
    let comments = [comment("a1", "first", "  "), comment("b2", " ", "note")];
    assert_eq!(plan_review(&comments), Err(FormatError::EmptyNote));
    assert_eq!(review_markdown(&comments[1..]), Err(FormatError::EmptySelection));
}

#[test]
fn saving_creates_a_ready_draft_without_pasting_or_clearing_comments() {
    let edited = "> second\n\nrevised\n\n> first\n\nnote one\n";
    assert_eq!(finish_step(true, edited, 2), Ok(FinishStep::Promote { count: 2 }));
    assert_eq!(finish_result(FinishStep::Promote { count: 2 }), ReviewResult::Saved { count: 2 });
    assert_eq!(saved_message(2), "Saved 2 comment(s). Press Alt-Shift-p to paste.");
}

#[test]
fn cancelling_review_preserves_comments_and_the_previous_ready_draft() {
    assert_eq!(finish_step(false, "anything\n", 1), Ok(FinishStep::Discard));
    assert_eq!(finish_result(FinishStep::Discard), ReviewResult::Cancelled);
}

#[test]
fn saving_a_blank_review_preserves_the_previous_ready_draft() {
    assert_eq!(finish_step(true, "\n", 1), Ok(FinishStep::DiscardBlank));
    assert_eq!(finish_result(FinishStep::DiscardBlank), ReviewResult::Cancelled);
}

#[test]
fn an_unsafe_saved_review_is_refused() {
    assert_eq!(finish_step(true, "bell\u{7}\n", 1), Err(FormatError::UnsupportedControl));
    let huge = "a".repeat(1024 * 1024 + 1);
    assert_eq!(finish_step(true, &huge, 1), Err(FormatError::ReviewTooLarge));
}

#[test]
fn paste_without_comments_or_a_ready_draft_notifies_and_does_nothing() {
    let plan = plan_paste(None, &target("scope"), &[]).unwrap();
    assert_eq!(plan, PastePlan::Nothing);
    assert_eq!(paste_result(&plan), PasteResult::Empty);
}

#[test]
fn paste_without_a_ready_draft_assembles_and_sends_collected_comments() {
    let comments = [comment("a1", "first", "note one"), comment("b2", "second", "note two")];
    let plan = plan_paste(None, &target("scope"), &comments).unwrap();
    assert_eq!(
        plan,
        PastePlan::Send {
            ready: ReadyReview {
                schema_version: SCHEMA_VERSION,
                pane_id: "w1:p1".into(),
                scope: "scope".into(),
                comment_ids: vec!["a1".to_string(), "b2".to_string()],
                markdown: "> first\n\nnote one\n\n> second\n\nnote two\n".into(),
            },
            created: true,
        }
    );
    assert_eq!(paste_result(&plan), PasteResult::Pasted { count: 2 });
    assert_eq!(pasted_message(2), "Pasted 2 comment(s) without submitting.");
}

#[test]
fn paste_sends_the_ready_draft_and_clears_only_its_comments() {
    let saved = ready("w1:p1", "edited draft\n", &["a1"]);
    let later = [comment("a1", "first", "note"), comment("z9", "later", "keep me")];
    let plan = plan_paste(Some(saved.clone()), &target("scope"), &later).unwrap();
    assert_eq!(plan, PastePlan::Send { ready: saved, created: false });
    assert_eq!(paste_result(&plan), PasteResult::Pasted { count: 1 });
}

#[test]
fn a_ready_draft_for_another_pane_or_blank_is_refused() {
    let other = ready("w9:p9", "draft\n", &["a1"]);
    assert_eq!(plan_paste(Some(other), &target("scope"), &[]), Err(PasteError::WrongPane));
    let blank = ready("w1:p1", " \n\t", &["a1"]);
    assert_eq!(check_ready(&blank, &target("scope")), Err(PasteError::Blank));
    assert_eq!(PasteError::Blank.message(), "the saved review is blank");
    assert_eq!(
        PasteError::WrongPane.message(),
        "the saved review belongs to a different pane"
    );
    let unsafe_text = ready("w1:p1", "\u{1b}[2J", &["a1"]);
    assert_eq!(
        check_ready(&unsafe_text, &target("scope")),
        Err(PasteError::Format(FormatError::UnsupportedControl))
    );
}

#[test]
fn comment_ids_keep_capture_order() {
    let comments = [comment("c", "x", "y"), comment("a", "x", "y"), comment("b", "x", "y")];
    assert_eq!(comment_ids(&comments), vec!["c".to_string(), "a".to_string(), "b".to_string()]);
}

#[test]
fn enter_inserts_one_comment_without_submitting() {
    let step = plan_completion(Completion::Insert, &draft("selected"), "explain this", &[]).unwrap();
    assert_eq!(
        step,
        CompletionStep::Insert {
            markdown: "> selected\n\nexplain this\n".into()
        }
    );
    assert_eq!(completion_result(&step, 0), CompletionResult::Inserted { count: 1 });
}

#[test]
fn option_enter_collects_and_ctrl_p_pastes_collection_plus_current() {
    let collect = plan_completion(Completion::Collect, &draft("first"), "first note", &[]).unwrap();
    assert_eq!(collect, CompletionStep::Collect);
    assert_eq!(completion_result(&collect, 1), CompletionResult::Collected { count: 1 });
    assert_eq!(collected_message(1), "1 comment collected for this pane.");

    let collected = [comment("a1", "first", "first note")];
    let paste = plan_completion(Completion::PasteAll, &draft("second"), "second note", &collected).unwrap();
    assert_eq!(
        paste,
        CompletionStep::PasteAll {
            markdown: "> first\n\nfirst note\n\n> second\n\nsecond note\n".into(),
            comment_ids: vec!["a1".to_string()],
            count: 2,
        }
    );
    assert_eq!(completion_result(&paste, 0), CompletionResult::Inserted { count: 2 });
    assert_eq!(inserted_message(2), "Inserted 2 comments without submitting.");
}

#[test]
fn escape_discards_only_the_transient_draft() {
    let step = plan_completion(Completion::Cancel, &draft("discarded"), "", &[]).unwrap();
    assert_eq!(step, CompletionStep::Discard);
    assert_eq!(completion_result(&step, 3), CompletionResult::Cancelled);
}

#[test]
fn an_empty_note_is_not_inserted() {
    assert_eq!(
        plan_completion(Completion::Insert, &draft("selected"), " \n ", &[]),
        Err(FormatError::EmptyNote)
    );
}

#[test]
fn plural_endings_follow_the_count() {
    assert_eq!(plural(1), "");
    assert_eq!(plural(0), "s");
    assert_eq!(collected_message(3), "3 comments collected for this pane.");
    assert_eq!(inserted_message(1), "Inserted 1 comment without submitting.");
}

#[test]
fn a_failed_paste_has_removed_nothing_yet() {
    let comments = [comment("a1", "first", "note one")];
    let plan = plan_paste(None, &target("scope"), &comments).unwrap();
    let effects = paste_effects(plan);
    let ready = ReadyReview {
        schema_version: SCHEMA_VERSION,
        pane_id: "w1:p1".into(),
        scope: "scope".into(),
        comment_ids: vec!["a1".to_string()],
        markdown: "> first\n\nnote one\n".into(),
    };
    assert_eq!(
        effects,
        vec![
            Effect::SaveReady(ready),
            Effect::Send {
                pane_id: "w1:p1".into(),
                markdown: "> first\n\nnote one\n".into()
            },
            Effect::DeleteReady {
                scope: "scope".into()
            },
            Effect::DeleteComments {
                scope: "scope".into(),
                ids: vec!["a1".to_string()]
            },
            Effect::Notify {
                body: "Pasted 1 comment(s) without submitting.".into()
            },
        ]
    );
    assert_eq!(
        paste_effects(PastePlan::Nothing),
        vec![Effect::Notify {
            body: NOTHING_TO_PASTE_NOTICE.into()
        }]
    );
    assert!(NOTHING_TO_PASTE_NOTICE.contains("No collected comments"));
}

#[test]
fn cancelling_or_a_blank_review_only_removes_the_review() {
    assert_eq!(finish_effects(FinishStep::Discard), vec![Effect::DeleteReview]);
    assert_eq!(
        finish_effects(FinishStep::DiscardBlank),
        vec![
            Effect::DeleteReview,
            Effect::Notify {
                body: BLANK_REVIEW_NOTICE.into()
            }
        ]
    );
    assert_eq!(
        finish_effects(FinishStep::Promote { count: 2 }),
        vec![
            Effect::PromoteReview,
            Effect::Notify {
                body: "Saved 2 comment(s). Press Alt-Shift-p to paste.".into()
            }
        ]
    );
}
