//! Where an annotation or review applies.
use vstd::prelude::*;

use crate::context::ActionContext;
use crate::format::{normalize_source, source_outcome, FormatError};
use crate::model::{AnnotationRun, PaneSnapshot, SnapshotView};
use crate::snapshot::{row_count, rows_of};
use crate::store::{hex_lower, scope_id, scope_input, sha256_digest};

verus! {

/// What starting an annotation did.
#[derive(Debug, Clone, PartialEq, Eq)]
pub enum AnnotationStart {
    Opened(Box<AnnotationRun>),
    Closed,
}

/// The pane a review or paste acts on, and its comment scope.
#[derive(Debug, Clone, PartialEq, Eq)]
pub struct ReviewTarget {
    pub pane_id: String,
    pub scope: String,
}

/// The target of a review started from the focused pane: that pane, scoped
/// by the Herdr session.
pub fn review_target(context: &ActionContext) -> (t: ReviewTarget)
    ensures
        t.pane_id@ == context.pane_id@,
        t.scope@ == hex_lower(sha256_digest(scope_input(context.session_identity@, context.pane_id@))),
{
    ReviewTarget {
        pane_id: context.pane_id.clone(),
        scope: scope_id(context.session_identity.as_str(), context.pane_id.as_str()),
    }
}

/// What `inline_snapshot` gives: Herdr's selection as both plain and styled
/// text, shown whole from its first row.
pub open spec fn inline_snapshot_outcome(selected: Seq<char>) -> Result<SnapshotView, FormatError> {
    match source_outcome(selected) {
        Err(e) => Err(e),
        Ok(text) => Ok(
            SnapshotView {
                text,
                ansi: text,
                initial_top: 0,
                viewport_rows: rows_of(text).len() as usize,
                history_limited: false,
            },
        ),
    }
}

/// The snapshot an inline comment shows: the normalized selection, without
/// capturing the pane.
pub fn inline_snapshot(selected: &str) -> (r: Result<PaneSnapshot, FormatError>)
    ensures
        match r {
            Ok(s) => inline_snapshot_outcome(selected@) == Ok::<SnapshotView, FormatError>(s@),
            Err(e) => inline_snapshot_outcome(selected@) == Err::<SnapshotView, FormatError>(e),
        },
{
    let text = normalize_source(selected)?;
    let rows = row_count(text.as_str());
    Ok(PaneSnapshot { ansi: text.clone(), text, initial_top: 0, viewport_rows: rows, history_limited: false })
}

} // verus!
