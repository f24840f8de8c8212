//! The records the state directory holds, as they are made, and the order
//! in which collected comments are read back.
use vstd::prelude::*;
use vstd::multiset::Multiset;

use crate::format::{normalize_note, normalize_source, note_outcome, source_outcome, FormatError};
use crate::model::{AnnotationRun, Comment, Draft, PaneSnapshot, ReadyReview, ReviewSession, SCHEMA_VERSION};
use crate::store::{
    is_lower_hexdigit, is_valid_id, is_valid_scope, new_id, valid_scope, validate_draft_context,
    validate_review_context, StoreError,
};
use crate::text::{is_blank, lemma_text_le_total, lemma_text_le_transitive, text_le, texts_in_order};

verus! {

/// Why a record could not be made.
#[derive(Debug, Clone, PartialEq, Eq)]
pub enum RecordError {
    Format(FormatError),
    Store(StoreError),
}

/// A fresh identifier: 32 lowercase hexadecimal digits.
pub open spec fn is_fresh_id(id: Seq<char>) -> bool {
    id.len() == 32 && forall|i: int| 0 <= i < id.len() ==> is_lower_hexdigit(#[trigger] id[i])
}

/// A draft of a copied passage for a pane: the passage normalized as a
/// selection, then the pane and scope checked.
pub fn new_draft(source_text: &str, pane_id: &str, scope: &str, created_at_ms: u64) -> (r: Result<Draft, RecordError>)
    ensures
        match source_outcome(source_text@) {
            Err(e) => r == Err::<Draft, RecordError>(RecordError::Format(e)),
            Ok(s) => if is_blank(pane_id@) || !is_valid_scope(scope@) {
                r == Err::<Draft, RecordError>(RecordError::Store(StoreError::InvalidDraftContext))
            } else {
                r matches Ok(d) && d.schema_version == SCHEMA_VERSION && is_fresh_id(d.id@)
                    && d.source_text@ == s && d.pane_id@ == pane_id@ && d.scope@ == scope@
                    && d.created_at_ms == created_at_ms
            },
        },
{
    let source_text = match normalize_source(source_text) {
        Ok(s) => s,
        Err(e) => {
            return Err(RecordError::Format(e));
        },
    };
    match validate_draft_context(pane_id, scope) {
        Ok(()) => {},
        Err(e) => {
            return Err(RecordError::Store(e));
        },
    }
    Ok(Draft {
        schema_version: SCHEMA_VERSION,
        id: new_id(),
        source_text,
        pane_id: pane_id.to_string(),
        scope: scope.to_string(),
        created_at_ms,
    })
}

/// An annotation run over a frozen snapshot of a pane, once the pane and
/// scope are checked; no popup is attached yet.
pub fn new_annotation_run(
    pane_id: &str,
    scope: &str,
    session_key: &str,
    snapshot: PaneSnapshot,
    created_at_ms: u64,
) -> (r: Result<AnnotationRun, StoreError>)
    ensures
        r is Ok <==> (!is_blank(pane_id@) && is_valid_scope(scope@)),
        r is Err ==> r == Err::<AnnotationRun, StoreError>(StoreError::InvalidDraftContext),
        r matches Ok(run) ==> run.schema_version == SCHEMA_VERSION && is_fresh_id(run.id@) && run.pane_id@
            == pane_id@ && run.scope@ == scope@ && run.session_key@ == session_key@ && run.snapshot == snapshot
            && run.overlay_pane_id is None && run.created_at_ms == created_at_ms,
{
    validate_draft_context(pane_id, scope)?;
    Ok(AnnotationRun {
        schema_version: SCHEMA_VERSION,
        id: new_id(),
        pane_id: pane_id.to_string(),
        scope: scope.to_string(),
        session_key: session_key.to_string(),
        snapshot,
        overlay_pane_id: None,
        created_at_ms,
    })
}

/// A collected comment: the scope checked, then the passage and the note
/// normalized.
pub fn new_comment(scope: &str, source_text: &str, note: &str, created_at_ns: u128) -> (r: Result<Comment, RecordError>)
    ensures
        !is_valid_scope(scope@) ==> r == Err::<Comment, RecordError>(RecordError::Store(StoreError::InvalidScope)),
        is_valid_scope(scope@) ==> match source_outcome(source_text@) {
            Err(e) => r == Err::<Comment, RecordError>(RecordError::Format(e)),
            Ok(s) => match note_outcome(note@) {
                Err(e) => r == Err::<Comment, RecordError>(RecordError::Format(e)),
                Ok(n) => r matches Ok(c) && c.schema_version == SCHEMA_VERSION && is_fresh_id(c.id@)
                    && c.source_text@ == s && c.note@ == n && c.created_at_ns == created_at_ns,
            },
        },
{
    if !valid_scope(scope) {
        return Err(RecordError::Store(StoreError::InvalidScope));
    }
    let source_text = match normalize_source(source_text) {
        Ok(s) => s,
        Err(e) => {
            return Err(RecordError::Format(e));
        },
    };
    let note = match normalize_note(note) {
        Ok(n) => n,
        Err(e) => {
            return Err(RecordError::Format(e));
        },
    };
    Ok(Comment { schema_version: SCHEMA_VERSION, id: new_id(), source_text, note, created_at_ns })
}

/// A review session over `comment_ids`, once its context is checked.
pub fn new_review(pane_id: &str, scope: &str, comment_ids: Vec<String>, created_at_ms: u64) -> (r: Result<ReviewSession, StoreError>)
    ensures
        r is Ok <==> (!is_blank(pane_id@) && is_valid_scope(scope@) && comment_ids@.len() > 0
            && forall|i: int| 0 <= i < comment_ids@.len() ==> is_valid_id(#[trigger] comment_ids@[i]@)),
        r matches Ok(v) ==> v.schema_version == SCHEMA_VERSION && is_fresh_id(v.id@) && v.pane_id@ == pane_id@
            && v.scope@ == scope@ && v.comment_ids == comment_ids && v.annotation_run_id is None
            && v.overlay_pane_id is None && v.created_at_ms == created_at_ms,
        (r is Err && (is_blank(pane_id@) || !is_valid_scope(scope@) || comment_ids@.len() == 0))
            ==> r == Err::<ReviewSession, StoreError>(StoreError::InvalidReviewContext),
        (r is Err && !is_blank(pane_id@) && is_valid_scope(scope@) && comment_ids@.len() > 0)
            ==> r == Err::<ReviewSession, StoreError>(StoreError::InvalidId),
{
    validate_review_context(pane_id, scope, comment_ids.as_slice())?;
    Ok(ReviewSession {
        schema_version: SCHEMA_VERSION,
        id: new_id(),
        pane_id: pane_id.to_string(),
        scope: scope.to_string(),
        comment_ids,
        annotation_run_id: None,
        overlay_pane_id: None,
        created_at_ms,
    })
}

/// The saved draft a confirmed review becomes: its pane, scope and comments,
/// with the Markdown as edited.
pub fn promote(review: ReviewSession, markdown: String) -> (r: ReadyReview)
    ensures
        r == (ReadyReview {
            schema_version: SCHEMA_VERSION,
            pane_id: review.pane_id,
            scope: review.scope,
            comment_ids: review.comment_ids,
            markdown,
        }),
{
    ReadyReview {
        schema_version: SCHEMA_VERSION,
        pane_id: review.pane_id,
        scope: review.scope,
        comment_ids: review.comment_ids,
        markdown,
    }
}

/// Capture order: earlier creation first, identifiers breaking ties.
pub open spec fn captured_before(a: Comment, b: Comment) -> bool {
    a.created_at_ns < b.created_at_ns || (a.created_at_ns == b.created_at_ns && text_le(a.id@, b.id@))
}

pub open spec fn in_capture_order(cs: Seq<Comment>) -> bool {
    forall|i: int, j: int| 0 <= i < j < cs.len() ==> captured_before(#[trigger] cs[i], #[trigger] cs[j])
}

proof fn lemma_captured_total(a: Comment, b: Comment)
    ensures
        captured_before(a, b) || captured_before(b, a),
{
    lemma_text_le_total(a.id@, b.id@);
}

proof fn lemma_captured_transitive(a: Comment, b: Comment, c: Comment)
    requires
        captured_before(a, b),
        captured_before(b, c),
    ensures
        captured_before(a, c),
{
    if a.created_at_ns == b.created_at_ns && b.created_at_ns == c.created_at_ns {
        lemma_text_le_transitive(a.id@, b.id@, c.id@);
    }
}

/// Whether comment `a` was captured no later than `b`.
pub fn comes_before(a: &Comment, b: &Comment) -> (r: bool)
    ensures
        r == captured_before(*a, *b),
{
    a.created_at_ns < b.created_at_ns || (a.created_at_ns == b.created_at_ns && texts_in_order(
        a.id.as_str(),
        b.id.as_str(),
    ))
}

/// The comments in capture order, the order in which they are reviewed and
/// pasted.
pub fn capture_order(comments: Vec<Comment>) -> (r: Vec<Comment>)
    ensures
        r@.to_multiset() == comments@.to_multiset(),
        in_capture_order(r@),
{
    let mut sorted: Vec<Comment> = Vec::new();
    let mut rest = comments;
    let ghost all = rest@.to_multiset();
    proof {
        broadcast use vstd::multiset::group_multiset_axioms;
        vstd::seq_lib::to_multiset_len(sorted@);
        vstd::multiset::lemma_multiset_empty_len(sorted@.to_multiset());
        assert(sorted@.to_multiset() =~= Multiset::empty());
        assert(sorted@.to_multiset().add(rest@.to_multiset()) =~= all);
    }
    while rest.len() > 0
        invariant
            sorted@.to_multiset().add(rest@.to_multiset()) == all,
            in_capture_order(sorted@),
        decreases rest@.len(),
    {
        let ghost before_rest = rest@;
        let c = rest.pop().unwrap();
        proof {
            assert(before_rest =~= rest@.push(c));
            vstd::seq_lib::to_multiset_build(rest@, c);
        }
        let mut k: usize = sorted.len();
        while k > 0 && !comes_before(&sorted[k - 1], &c)
            invariant
                k <= sorted@.len(),
                in_capture_order(sorted@),
                forall|j: int| k <= j < sorted@.len() ==> !captured_before(#[trigger] sorted@[j], c),
            decreases k,
        {
            k -= 1;
        }
        let ghost old_sorted = sorted@;
        proof {
            assert forall|j: int| k <= j < old_sorted.len() implies captured_before(c, #[trigger] old_sorted[j]) by {
                lemma_captured_total(old_sorted[j], c);
            }
            assert forall|j: int| 0 <= j < k implies captured_before(#[trigger] old_sorted[j], c) by {
                if k > 0 {
                    if j < k - 1 {
                        lemma_captured_transitive(old_sorted[j], old_sorted[k - 1], c);
                    }
                }
            }
        }
        sorted.insert(k, c);
        proof {
            let s = sorted@;
            assert(s =~= old_sorted.insert(k as int, c));
            assert forall|i: int, j: int| 0 <= i < j < s.len() implies captured_before(#[trigger] s[i], #[trigger] s[j]) by {
                if j < k {
                    assert(s[i] == old_sorted[i] && s[j] == old_sorted[j]);
                } else if j == k {
                    assert(s[i] == old_sorted[i]);
                } else if i == k {
                    assert(s[j] == old_sorted[j - 1]);
                } else if i < k {
                    assert(s[i] == old_sorted[i] && s[j] == old_sorted[j - 1]);
                } else {
                    assert(s[i] == old_sorted[i - 1] && s[j] == old_sorted[j - 1]);
                }
            }
            vstd::seq_lib::to_multiset_insert(old_sorted, k as int, c);
            assert(s.to_multiset().add(rest@.to_multiset()) =~= old_sorted.to_multiset().add(
                before_rest.to_multiset(),
            ));
        }
    }
    proof {
        broadcast use vstd::multiset::group_multiset_axioms;
        vstd::seq_lib::to_multiset_len(rest@);
        vstd::multiset::lemma_multiset_empty_len(rest@.to_multiset());
        assert(rest@.to_multiset() =~= Multiset::empty());
        assert(sorted@.to_multiset().add(Multiset::empty()) =~= sorted@.to_multiset());
    }
    sorted
}

} // verus!
