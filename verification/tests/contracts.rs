use herdr_comments::config::PopupSize;
use herdr_comments::context::{ActionContext, ContextError, ContextField, PluginContext};
use herdr_comments::herdr::{
    annotation_popup_args, classify_failure, inline_annotation_popup_args, layout_right_edge,
    pane_layout_args, pane_read_args, pane_send_input_request, review_popup_args, FailureKind,
    HerdrError,
};
use serde_json::Value;

fn plugin_context(raw: &str) -> PluginContext {
    let value: Value = serde_json::from_str(raw).unwrap();
    let field = |name: &str| value.get(name).and_then(Value::as_str).map(str::to_owned);
    PluginContext {
        focused_pane_id: field("focused_pane_id"),
        focused_pane_cwd: field("focused_pane_cwd"),
        selected_text: field("selected_text"),
    }
}

#[test]
fn action_context_reads_the_originating_pane_and_runtime_paths() {
    let context = ActionContext::from_values(
        plugin_context(r#"{"focused_pane_id":"w2:p3","focused_pane_cwd":"/tmp/project"}"#),
        "/tmp/comments-state",
        "/opt/bin/herdr",
        "/tmp/herdr.sock",
    )
    .unwrap();

    assert_eq!(context.pane_id, "w2:p3");
    assert_eq!(context.pane_cwd, Some("/tmp/project".to_string()));
    assert_eq!(context.state_dir, "/tmp/comments-state");
    assert_eq!(context.herdr_bin, "/opt/bin/herdr");
    assert_eq!(context.session_identity, "/tmp/herdr.sock");
}

#[test]
fn action_context_rejects_missing_required_values() {
    assert!(ActionContext::from_values(plugin_context("{}"), "/tmp/state", "herdr", "/tmp/socket").is_err());
    assert!(ActionContext::from_values(
        plugin_context(r#"{"focused_pane_id":"w1:p1"}"#),
        "",
        "herdr",
        "/tmp/socket",
    )
    .is_err());
}

#[test]
fn each_missing_context_value_is_named() {
    assert_eq!(
        ActionContext::from_values(plugin_context("{}"), "/tmp/state", "herdr", "/tmp/socket"),
        Err(ContextError::Missing { field: ContextField::FocusedPane })
    );
    let pane = || plugin_context(r#"{"focused_pane_id":" w1:p1 "}"#);
    assert_eq!(
        ActionContext::from_values(pane(), "  ", "herdr", "/tmp/socket"),
        Err(ContextError::Missing { field: ContextField::StateDirectory })
    );
    assert_eq!(
        ActionContext::from_values(pane(), "/tmp/state", "", "/tmp/socket"),
        Err(ContextError::Missing { field: ContextField::HerdrBinary })
    );
    assert_eq!(
        ActionContext::from_values(pane(), "/tmp/state", "herdr", "\n"),
        Err(ContextError::Missing { field: ContextField::SessionIdentity })
    );
    let context = ActionContext::from_values(pane(), "/tmp/state", "herdr", "/tmp/socket").unwrap();
    assert_eq!(context.pane_id, "w1:p1");
    assert_eq!(context.pane_cwd, None);
    assert_eq!(
        ContextError::Missing { field: ContextField::FocusedPane }.message(),
        "Herdr did not provide a focused pane"
    );
}

#[test]
fn a_blank_working_directory_is_dropped() {
    let context = ActionContext::from_values(
        plugin_context(r#"{"focused_pane_id":"w1:p1","focused_pane_cwd":"  ","selected_text":"x"}"#),
        "/tmp/state",
        "herdr",
        "/tmp/socket",
    )
    .unwrap();
    assert_eq!(context.pane_cwd, None);
    assert_eq!(context.selected_text, Some("x".to_string()));
}

#[test]
fn plugin_panes_expose_only_opaque_state_ids() {
    let capture = annotation_popup_args(
        "abc123",
        &PopupSize {
            width: "70%".into(),
            height: "90%".into(),
        },
    );
    let review = review_popup_args(
        "def456",
        &PopupSize {
            width: "70%".into(),
            height: "85%".into(),
        },
    );

    assert_eq!(capture[0..3], ["plugin", "pane", "open"]);
    assert!(capture
        .windows(2)
        .any(|pair| pair == ["--placement", "popup"]));
    assert!(capture.windows(2).any(|pair| pair == ["--width", "70%"]));
    assert!(capture.windows(2).any(|pair| pair == ["--height", "90%"]));
    assert!(capture
        .iter()
        .any(|arg| arg == "HERDR_COMMENTS_RUN_ID=abc123"));
    assert!(review.windows(2).any(|pair| pair == ["--width", "70%"]));
    assert!(review.windows(2).any(|pair| pair == ["--height", "85%"]));
    assert!(review
        .iter()
        .any(|arg| arg == "HERDR_COMMENTS_REVIEW_ID=def456"));
}

#[test]
fn inline_popups_are_marked_for_the_popup_process() {
    let popup = PopupSize {
        width: "50%".into(),
        height: "70%".into(),
    };
    let inline = inline_annotation_popup_args("abc123", &popup);
    let plain = annotation_popup_args("abc123", &popup);
    assert!(inline.iter().any(|arg| arg == "HERDR_COMMENTS_INLINE=1"));
    assert!(!plain.iter().any(|arg| arg == "HERDR_COMMENTS_INLINE=1"));
}

#[test]
fn client_width_uses_the_full_layout_for_the_focused_pane() {
    assert_eq!(
        pane_layout_args("w1:p2"),
        ["pane", "layout", "--pane", "w1:p2"]
    );
}

#[test]
fn the_client_width_is_the_layout_right_edge() {
    assert_eq!(layout_right_edge(30, 482), 512);
    assert_eq!(layout_right_edge(65_000, 1_000), u16::MAX);
}

#[test]
fn pane_capture_requests_rendered_history_without_unwrapping() {
    assert_eq!(
        pane_read_args("w1:p2", "recent", "ansi", Some(1_000)),
        ["pane", "read", "w1:p2", "--source", "recent", "--format", "ansi", "--lines", "1000"]
    );
    assert_eq!(
        pane_read_args("w1:p2", "visible", "text", None),
        ["pane", "read", "w1:p2", "--source", "visible", "--format", "text"]
    );
}

#[test]
fn pane_input_uses_the_bracketed_paste_endpoint_without_enter() {
    let request: Value =
        serde_json::from_str(&pane_send_input_request("req-1", "w1:p2", "first\nsecond").unwrap())
            .unwrap();

    assert_eq!(request["method"], "pane.send_input");
    assert_eq!(request["params"]["pane_id"], "w1:p2");
    assert_eq!(request["params"]["text"], "first\nsecond");
    assert_eq!(request["params"]["keys"], Value::Array(Vec::new()));
}

#[test]
fn pane_input_request_is_exact_json() {
    assert_eq!(
        pane_send_input_request("r\"1", "w1:p2", "tab\there\u{1}").unwrap(),
        "{\"id\":\"r\\\"1\",\"method\":\"pane.send_input\",\"params\":{\"pane_id\":\"w1:p2\",\"text\":\"tab\\there\\u0001\",\"keys\":[]}}"
    );
}

#[test]
fn pane_input_rejects_a_request_larger_than_herdr_accepts() {
    let text = "a".repeat(1024 * 1024);

    assert!(pane_send_input_request("req-1", "w1:p2", &text).is_err());
    assert_eq!(
        pane_send_input_request("req-1", "w1:p2", &text),
        Err(HerdrError::RequestTooLarge)
    );
}

#[test]
fn herdr_failures_are_actionable() {
    assert_eq!(classify_failure("error: ui_busy"), FailureKind::UiBusy);
    assert_eq!(classify_failure("pane_not_found"), FailureKind::PaneMissing);
    assert_eq!(classify_failure("connection refused"), FailureKind::Command);
}
