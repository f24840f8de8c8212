//! The records the plugin keeps between its actions.
use vstd::prelude::*;

verus! {

pub const SCHEMA_VERSION: u32 = 1;

/// A frozen copy of a pane: plain text for selection, styled text for display.
#[derive(Debug, Clone, PartialEq, Eq)]
pub struct PaneSnapshot {
    pub text: String,
    pub ansi: String,
    pub initial_top: usize,
    pub viewport_rows: usize,
    pub history_limited: bool,
}

/// The contents of a `PaneSnapshot`, with text as character sequences.
pub struct SnapshotView {
    pub text: Seq<char>,
    pub ansi: Seq<char>,
    pub initial_top: usize,
    pub viewport_rows: usize,
    pub history_limited: bool,
}

impl View for PaneSnapshot {
    type V = SnapshotView;

    open spec fn view(&self) -> SnapshotView {
        SnapshotView {
            text: self.text@,
            ansi: self.ansi@,
            initial_top: self.initial_top,
            viewport_rows: self.viewport_rows,
            history_limited: self.history_limited,
        }
    }
}

/// A copied passage waiting for its note.
#[derive(Debug, Clone, PartialEq, Eq)]
pub struct Draft {
    pub schema_version: u32,
    pub id: String,
    pub source_text: String,
    pub pane_id: String,
    pub scope: String,
    pub created_at_ms: u64,
}

/// An annotation popup's frozen pane and where it came from.
#[derive(Debug, Clone, PartialEq, Eq)]
pub struct AnnotationRun {
    pub schema_version: u32,
    pub id: String,
    pub pane_id: String,
    pub scope: String,
    pub session_key: String,
    pub snapshot: PaneSnapshot,
    pub overlay_pane_id: Option<String>,
    pub created_at_ms: u64,
}

/// The annotation popup currently open for a session.
#[derive(Debug, Clone, PartialEq, Eq)]
pub struct ActiveAnnotation {
    pub schema_version: u32,
    pub run_id: String,
    pub overlay_pane_id: String,
}

/// One collected comment: the quoted passage and the note on it.
#[derive(Debug, Clone, PartialEq, Eq)]
pub struct Comment {
    pub schema_version: u32,
    pub id: String,
    pub source_text: String,
    pub note: String,
    pub created_at_ns: u128,
}

/// A review opened in the editor: which comments its Markdown was built from.
#[derive(Debug, Clone, PartialEq, Eq)]
pub struct ReviewSession {
    pub schema_version: u32,
    pub id: String,
    pub pane_id: String,
    pub scope: String,
    pub comment_ids: Vec<String>,
    pub annotation_run_id: Option<String>,
    pub overlay_pane_id: Option<String>,
    pub created_at_ms: u64,
}

/// A saved review waiting to be pasted into its pane.
#[derive(Debug, Clone, PartialEq, Eq)]
pub struct ReadyReview {
    pub schema_version: u32,
    pub pane_id: String,
    pub scope: String,
    pub comment_ids: Vec<String>,
    pub markdown: String,
}

} // verus!
