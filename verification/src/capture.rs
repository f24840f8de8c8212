//! Finishing a copied passage: insert it, collect it, paste it with the
//! collection, or drop it.
use vstd::prelude::*;

use crate::decimal::{decimal, push_decimal};
use crate::format::{collection_markdown, comment_outcome, format_collection, format_comment, FormatError};
use crate::model::{Comment, Draft};
use crate::review::{comment_ids, format_comments, formatted_comments, ids_of, string_views};
use crate::text::push_str;

verus! {

/// How the note editor was left.
#[derive(Debug, Clone, Copy, PartialEq, Eq)]
pub enum Completion {
    Insert,
    Collect,
    PasteAll,
    Cancel,
}

/// What finishing a draft did.
#[derive(Debug, Clone, PartialEq, Eq)]
pub enum CompletionResult {
    Inserted { count: usize },
    Collected { count: usize },
    Cancelled,
}

/// A draft that was saved and opened, and how many comments its pane had
/// collected before it.
#[derive(Debug, Clone, PartialEq, Eq)]
pub struct CaptureStarted {
    pub draft: Draft,
    pub collected_count: usize,
}

/// What finishing a draft asks for.
#[derive(Debug, Clone, PartialEq, Eq)]
pub enum CompletionStep {
    /// Drop the draft.
    Discard,
    /// Send `markdown`, the draft and its note, to the draft's pane.
    Insert { markdown: String },
    /// Add the draft and its note to the pane's collection.
    Collect,
    /// Send `markdown`, the collection followed by the draft and its note,
    /// then delete the comments `comment_ids`.
    PasteAll { markdown: String, comment_ids: Vec<String>, count: usize },
}

/// The collection followed by the current passage and note, as one Markdown
/// text.
pub open spec fn paste_all_outcome(cs: Seq<Comment>, source: Seq<char>, note: Seq<char>) -> Result<Seq<char>, FormatError> {
    match formatted_comments(cs) {
        Err(e) => Err(e),
        Ok(ms) => match comment_outcome(source, note) {
            Err(e) => Err(e),
            Ok(c) => Ok(collection_markdown(ms.push(c))),
        },
    }
}

/// Decides what finishing `draft` with `note` does; `collected` is the pane's
/// collection, which only `PasteAll` reads.
pub fn plan_completion(completion: Completion, draft: &Draft, note: &str, collected: &[Comment]) -> (r: Result<CompletionStep, FormatError>)
    ensures
        completion is Cancel ==> r == Ok::<CompletionStep, FormatError>(CompletionStep::Discard),
        completion is Collect ==> r == Ok::<CompletionStep, FormatError>(CompletionStep::Collect),
        completion is Insert ==> match comment_outcome(draft.source_text@, note@) {
            Ok(m) => r matches Ok(CompletionStep::Insert { markdown }) && markdown@ == m,
            Err(e) => r == Err::<CompletionStep, FormatError>(e),
        },
        completion is PasteAll ==> match paste_all_outcome(collected@, draft.source_text@, note@) {
            Ok(m) => r matches Ok(CompletionStep::PasteAll { markdown, comment_ids, count })
                && markdown@ == m && string_views(comment_ids@) == ids_of(collected@)
                && count == collected@.len() + 1,
            Err(e) => r == Err::<CompletionStep, FormatError>(e),
        },
{
    match completion {
        Completion::Cancel => Ok(CompletionStep::Discard),
        Completion::Collect => Ok(CompletionStep::Collect),
        Completion::Insert => {
            let markdown = format_comment(draft.source_text.as_str(), note)?;
            Ok(CompletionStep::Insert { markdown })
        },
        Completion::PasteAll => {
            let mut rendered = format_comments(collected)?;
            let current = format_comment(draft.source_text.as_str(), note)?;
            let ghost before = rendered@;
            rendered.push(current);
            proof {
                assert(string_views(rendered@) =~= string_views(before).push(rendered@.last()@));
                assert(rendered@.map_values(|c: String| c@) =~= string_views(rendered@));
            }
            let markdown = format_collection(rendered.as_slice());
            let count = rendered.len();
            Ok(CompletionStep::PasteAll { markdown, comment_ids: comment_ids(collected), count })
        },
    }
}

/// The plural ending for `count` comments.
pub fn plural(count: usize) -> (s: &'static str)
    ensures
        s@ == if count == 1 { ""@ } else { "s"@ },
{
    if count == 1 {
        ""
    } else {
        "s"
    }
}

/// The notice after a passage was collected, leaving `count` comments.
pub fn collected_message(count: usize) -> (m: String)
    ensures
        m@ == decimal(count as nat) + " comment"@ + (if count == 1 { ""@ } else { "s"@ })
            + " collected for this pane."@,
{
    let mut m = String::new();
    push_decimal(&mut m, count as u128);
    push_str(&mut m, " comment");
    push_str(&mut m, plural(count));
    push_str(&mut m, " collected for this pane.");
    m
}

/// The notice after `count` comments were inserted.
pub fn inserted_message(count: usize) -> (m: String)
    ensures
        m@ == "Inserted "@ + decimal(count as nat) + " comment"@ + (if count == 1 { ""@ } else { "s"@ })
            + " without submitting."@,
{
    let mut m = String::new();
    push_str(&mut m, "Inserted ");
    push_decimal(&mut m, count as u128);
    push_str(&mut m, " comment");
    push_str(&mut m, plural(count));
    push_str(&mut m, " without submitting.");
    m
}

/// What finishing a draft reports, given the step taken and, for `Collect`,
/// how many comments the pane has afterwards.
pub fn completion_result(step: &CompletionStep, collected_after: usize) -> (r: CompletionResult)
    ensures
        *step is Discard ==> r == CompletionResult::Cancelled,
        *step is Insert ==> r == (CompletionResult::Inserted { count: 1 }),
        *step is Collect ==> r == (CompletionResult::Collected { count: collected_after }),
        *step matches CompletionStep::PasteAll { count, .. } ==> r == (CompletionResult::Inserted { count }),
{
    match step {
        CompletionStep::Discard => CompletionResult::Cancelled,
        CompletionStep::Insert { .. } => CompletionResult::Inserted { count: 1 },
        CompletionStep::Collect => CompletionResult::Collected { count: collected_after },
        CompletionStep::PasteAll { count, .. } => CompletionResult::Inserted { count: *count },
    }
}

} // verus!
