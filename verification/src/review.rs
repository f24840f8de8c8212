//! Reviewing collected comments: the Markdown a review opens with, what
//! happens when the editor closes, and what a paste sends.
use vstd::prelude::*;

use crate::annotation::ReviewTarget;
use crate::decimal::{decimal, push_decimal};
use crate::format::{
    collection_markdown, comment_outcome, format_collection, format_comment, review_outcome,
    validate_review, FormatError,
};
use crate::model::{Comment, ReadyReview, ReviewSession, SCHEMA_VERSION};
use crate::text::{chars_are_blank, chars_of, is_blank, push_str};

verus! {

/// What starting a review did.
#[derive(Debug, Clone, PartialEq, Eq)]
pub enum ReviewStart {
    /// No comments were collected, so nothing was opened.
    Empty,
    Opened(ReviewSession),
}

/// How a review ended.
#[derive(Debug, Clone, PartialEq, Eq)]
pub enum ReviewResult {
    Saved { count: usize },
    Cancelled,
}

/// What a paste did.
#[derive(Debug, Clone, PartialEq, Eq)]
pub enum PasteResult {
    Empty,
    Pasted { count: usize },
}

/// Every comment formatted, in order; the first comment that cannot be
/// formatted decides the error.
pub open spec fn formatted_comments(cs: Seq<Comment>) -> Result<Seq<Seq<char>>, FormatError>
    decreases cs.len(),
{
    if cs.len() == 0 {
        Ok(Seq::empty())
    } else {
        match formatted_comments(cs.drop_last()) {
            Err(e) => Err(e),
            Ok(done) => match comment_outcome(cs.last().source_text@, cs.last().note@) {
                Err(e) => Err(e),
                Ok(m) => Ok(done.push(m)),
            },
        }
    }
}

/// The Markdown of a whole collection of comments.
pub open spec fn comments_markdown(cs: Seq<Comment>) -> Result<Seq<char>, FormatError> {
    match formatted_comments(cs) {
        Err(e) => Err(e),
        Ok(ms) => Ok(collection_markdown(ms)),
    }
}

/// The identifiers of the comments, in order.
pub open spec fn ids_of(cs: Seq<Comment>) -> Seq<Seq<char>> {
    cs.map_values(|c: Comment| c.id@)
}

pub open spec fn string_views(v: Seq<String>) -> Seq<Seq<char>> {
    v.map_values(|s: String| s@)
}

/// Formats every comment as `format_comment` does, stopping at the first error.
pub fn format_comments(comments: &[Comment]) -> (r: Result<Vec<String>, FormatError>)
    ensures
        match formatted_comments(comments@) {
            Ok(ms) => r matches Ok(v) && string_views(v@) == ms,
            Err(e) => r == Err::<Vec<String>, FormatError>(e),
        },
        r matches Ok(v) ==> v@.len() == comments@.len(),
{
    let mut out: Vec<String> = Vec::new();
    let mut i: usize = 0;
    assert(comments@.take(0) =~= Seq::<Comment>::empty());
    assert(string_views(out@) =~= Seq::<Seq<char>>::empty());
    while i < comments.len()
        invariant
            i <= comments@.len(),
            out@.len() == i,
            formatted_comments(comments@.take(i as int)) == Ok::<Seq<Seq<char>>, FormatError>(
                string_views(out@),
            ),
        decreases comments@.len() - i,
    {
        let ghost prefix = comments@.take(i + 1);
        assert(prefix.drop_last() =~= comments@.take(i as int));
        assert(prefix.last() == comments@[i as int]);
        let m = format_comment(comments[i].source_text.as_str(), comments[i].note.as_str());
        let ghost step = comment_outcome(comments@[i as int].source_text@, comments@[i as int].note@);
        assert(formatted_comments(prefix) == match step {
            Err(e) => Err(e),
            Ok(t) => Ok::<Seq<Seq<char>>, FormatError>(string_views(out@).push(t)),
        });
        match m {
            Ok(m) => {
                let ghost before = out@;
                out.push(m);
                assert(string_views(out@) =~= string_views(before).push(out@[i as int]@));
            },
            Err(e) => {
                proof {
                    lemma_formatted_error_persists(comments@, i as int + 1);
                }
                return Err(e);
            },
        }
        i += 1;
    }
    assert(comments@.take(comments@.len() as int) =~= comments@);
    Ok(out)
}

/// Once a prefix of the comments fails to format, the whole collection fails
/// with the same error.
pub proof fn lemma_formatted_error_persists(cs: Seq<Comment>, n: int)
    requires
        0 <= n <= cs.len(),
        formatted_comments(cs.take(n)) is Err,
    ensures
        formatted_comments(cs) == formatted_comments(cs.take(n)),
    decreases cs.len() - n,
{
    if n == cs.len() {
        assert(cs.take(n) =~= cs);
    } else {
        assert(cs.take(n + 1).drop_last() =~= cs.take(n));
        lemma_formatted_error_persists(cs, n + 1);
    }
}

/// The Markdown a review of `comments` opens with.
pub fn review_markdown(comments: &[Comment]) -> (r: Result<String, FormatError>)
    ensures
        crate::format::text_outcome_matches(r, comments_markdown(comments@)),
{
    let formatted = format_comments(comments)?;
    let markdown = format_collection(formatted.as_slice());
    proof {
        assert(formatted@.map_values(|c: String| c@) =~= string_views(formatted@));
    }
    Ok(markdown)
}

/// The identifiers of `comments`, in order.
pub fn comment_ids(comments: &[Comment]) -> (ids: Vec<String>)
    ensures
        string_views(ids@) == ids_of(comments@),
{
    let mut ids: Vec<String> = Vec::new();
    let mut i: usize = 0;
    while i < comments.len()
        invariant
            i <= comments@.len(),
            string_views(ids@) == ids_of(comments@.take(i as int)),
        decreases comments@.len() - i,
    {
        let ghost before = ids@;
        ids.push(comments[i].id.clone());
        assert(ids_of(comments@.take(i + 1)) =~= ids_of(comments@.take(i as int)).push(comments@[i as int].id@));
        assert(string_views(ids@) =~= string_views(before).push(ids@[i as int]@));
        i += 1;
    }
    assert(comments@.take(comments@.len() as int) =~= comments@);
    ids
}

/// What a review is opened with: the comments it covers and their Markdown.
#[derive(Debug, Clone, PartialEq, Eq)]
pub enum ReviewPlan {
    /// There is nothing to review.
    Empty,
    Open { comment_ids: Vec<String>, markdown: String },
}

/// Decides how a review of the collected `comments` starts.
pub fn plan_review(comments: &[Comment]) -> (r: Result<ReviewPlan, FormatError>)
    ensures
        comments@.len() == 0 ==> r == Ok::<ReviewPlan, FormatError>(ReviewPlan::Empty),
        comments@.len() > 0 ==> match comments_markdown(comments@) {
            Ok(m) => r matches Ok(ReviewPlan::Open { comment_ids, markdown })
                && markdown@ == m && string_views(comment_ids@) == ids_of(comments@),
            Err(e) => r == Err::<ReviewPlan, FormatError>(e),
        },
{
    if comments.len() == 0 {
        return Ok(ReviewPlan::Empty);
    }
    let markdown = review_markdown(comments)?;
    Ok(ReviewPlan::Open { comment_ids: comment_ids(comments), markdown })
}

/// What to do with a review once the editor has closed.
#[derive(Debug, Clone, Copy, PartialEq, Eq)]
pub enum FinishStep {
    /// The editor was left without confirming: drop the review.
    Discard,
    /// The confirmed Markdown was blank: drop the review and keep the previous
    /// saved draft.
    DiscardBlank,
    /// Make the review the saved draft for its pane.
    Promote { count: usize },
}

/// The step for a review of `count` comments that closed with `markdown`,
/// confirmed or not.
pub open spec fn finish_outcome(confirmed: bool, markdown: Seq<char>, count: usize) -> Result<FinishStep, FormatError> {
    if !confirmed {
        Ok(FinishStep::Discard)
    } else {
        match review_outcome(markdown) {
            Err(e) => Err(e),
            Ok(_) => if is_blank(markdown) {
                Ok(FinishStep::DiscardBlank)
            } else {
                Ok(FinishStep::Promote { count })
            },
        }
    }
}

/// Decides how a review ends. The Markdown is looked at only when the review
/// was confirmed.
pub fn finish_step(confirmed: bool, markdown: &str, count: usize) -> (r: Result<FinishStep, FormatError>)
    ensures
        r == finish_outcome(confirmed, markdown@, count),
{
    if !confirmed {
        return Ok(FinishStep::Discard);
    }
    validate_review(markdown)?;
    if chars_are_blank(chars_of(markdown).as_slice()) {
        Ok(FinishStep::DiscardBlank)
    } else {
        Ok(FinishStep::Promote { count })
    }
}

/// What the review result of a finished step is.
pub fn finish_result(step: FinishStep) -> (r: ReviewResult)
    ensures
        step matches FinishStep::Promote { count } ==> r == (ReviewResult::Saved { count }),
        !(step is Promote) ==> r == ReviewResult::Cancelled,
{
    match step {
        FinishStep::Promote { count } => ReviewResult::Saved { count },
        _ => ReviewResult::Cancelled,
    }
}

/// Why a paste was refused.
#[derive(Debug, Clone, PartialEq, Eq)]
pub enum PasteError {
    /// The saved review was made for another pane.
    WrongPane,
    /// The saved review holds no text.
    Blank,
    Format(FormatError),
}

impl PasteError {
    /// The message shown to the user.
    pub fn message(&self) -> (m: String)
        ensures
            m@ == match self {
                PasteError::WrongPane => "the saved review belongs to a different pane"@,
                PasteError::Blank => "the saved review is blank"@,
                PasteError::Format(e) => crate::format::error_text(*e),
            },
    {
        match self {
            PasteError::WrongPane => "the saved review belongs to a different pane".to_string(),
            PasteError::Blank => "the saved review is blank".to_string(),
            PasteError::Format(e) => e.message(),
        }
    }
}

/// What a paste sends.
#[derive(Debug, Clone, PartialEq, Eq)]
pub enum PastePlan {
    /// No saved review and no collected comments: nothing is sent.
    Nothing,
    /// Send `ready`; with `created`, it was assembled from the collected
    /// comments and is saved before it is sent, so a failed send can be retried.
    Send { ready: ReadyReview, created: bool },
}

/// The checks a saved review passes before it is sent to `target`.
pub open spec fn ready_outcome(ready: ReadyReview, target: ReviewTarget) -> Result<(), PasteError> {
    if ready.pane_id@ != target.pane_id@ {
        Err(PasteError::WrongPane)
    } else {
        match review_outcome(ready.markdown@) {
            Err(e) => Err(PasteError::Format(e)),
            Ok(_) => if is_blank(ready.markdown@) {
                Err(PasteError::Blank)
            } else {
                Ok(())
            },
        }
    }
}

/// Checks a saved review before it is sent to `target`.
pub fn check_ready(ready: &ReadyReview, target: &ReviewTarget) -> (r: Result<(), PasteError>)
    ensures
        r == ready_outcome(*ready, *target),
{
    if ready.pane_id != target.pane_id {
        return Err(PasteError::WrongPane);
    }
    match validate_review(ready.markdown.as_str()) {
        Err(e) => {
            return Err(PasteError::Format(e));
        },
        Ok(()) => {},
    }
    if chars_are_blank(chars_of(ready.markdown.as_str()).as_slice()) {
        return Err(PasteError::Blank);
    }
    Ok(())
}

/// The saved review assembled from the collected comments of `target`.
pub open spec fn assembled_ready(target: ReviewTarget, cs: Seq<Comment>, markdown: Seq<char>, ready: ReadyReview) -> bool {
    &&& ready.schema_version == SCHEMA_VERSION
    &&& ready.pane_id@ == target.pane_id@
    &&& ready.scope@ == target.scope@
    &&& string_views(ready.comment_ids@) == ids_of(cs)
    &&& ready.markdown@ == markdown
}

/// Decides what a paste into `target` sends: the saved review when there is
/// one, otherwise the collected `comments` assembled into one.
pub fn plan_paste(ready: Option<ReadyReview>, target: &ReviewTarget, comments: &[Comment]) -> (r: Result<PastePlan, PasteError>)
    ensures
        match ready {
            Some(saved) => match ready_outcome(saved, *target) {
                Ok(_) => r == Ok::<PastePlan, PasteError>(PastePlan::Send { ready: saved, created: false }),
                Err(e) => r == Err::<PastePlan, PasteError>(e),
            },
            None => if comments@.len() == 0 {
                r == Ok::<PastePlan, PasteError>(PastePlan::Nothing)
            } else {
                match comments_markdown(comments@) {
                    Err(e) => r == Err::<PastePlan, PasteError>(PasteError::Format(e)),
                    Ok(m) => match review_outcome(m) {
                        Err(e) => r == Err::<PastePlan, PasteError>(PasteError::Format(e)),
                        Ok(_) => r matches Ok(PastePlan::Send { ready: made, created: true })
                            && assembled_ready(*target, comments@, m, made),
                    },
                }
            },
        },
{
    match ready {
        Some(saved) => {
            check_ready(&saved, target)?;
            Ok(PastePlan::Send { ready: saved, created: false })
        },
        None => {
            if comments.len() == 0 {
                return Ok(PastePlan::Nothing);
            }
            let markdown = match review_markdown(comments) {
                Ok(m) => m,
                Err(e) => {
                    return Err(PasteError::Format(e));
                },
            };
            let made = ReadyReview {
                schema_version: SCHEMA_VERSION,
                pane_id: target.pane_id.clone(),
                scope: target.scope.clone(),
                comment_ids: comment_ids(comments),
                markdown,
            };
            proof {
                law_collection_is_never_blank(comments@);
            }
            match check_ready(&made, target) {
                Ok(()) => Ok(PastePlan::Send { ready: made, created: true }),
                Err(e) => Err(e),
            }
        },
    }
}

/// How many comments a paste of `plan` covers.
pub fn paste_result(plan: &PastePlan) -> (r: PasteResult)
    ensures
        plan matches PastePlan::Send { ready, .. } ==> r == (PasteResult::Pasted { count: ready.comment_ids@.len() as usize }),
        plan is Nothing ==> r == PasteResult::Empty,
{
    match plan {
        PastePlan::Nothing => PasteResult::Empty,
        PastePlan::Send { ready, .. } => PasteResult::Pasted { count: ready.comment_ids.len() },
    }
}

/// The notice after a review of `count` comments was saved.
pub fn saved_message(count: usize) -> (m: String)
    ensures
        m@ == saved_text(count as nat),
{
    let mut m = String::new();
    push_str(&mut m, "Saved ");
    push_decimal(&mut m, count as u128);
    push_str(&mut m, " comment(s). Press Alt-Shift-p to paste.");
    m
}

/// The notice after `count` comments were pasted.
pub fn pasted_message(count: usize) -> (m: String)
    ensures
        m@ == pasted_text(count as nat),
{
    let mut m = String::new();
    push_str(&mut m, "Pasted ");
    push_decimal(&mut m, count as u128);
    push_str(&mut m, " comment(s) without submitting.");
    m
}

/// The notice when a review finds no collected comments.
pub const NO_COMMENTS_NOTICE: &'static str = "No comments are collected for this pane.";

/// The notice when a confirmed review was blank.
pub const BLANK_REVIEW_NOTICE: &'static str = "The review was blank, so the previous saved draft was left unchanged.";

/// The notice when there is nothing to paste.
pub const NOTHING_TO_PASTE_NOTICE: &'static str = "No collected comments or saved review for this pane.";

/// One thing a review or paste asks of the state directory and Herdr. The
/// effects of a step are carried out in order, and the first that fails
/// stops the rest.
#[derive(Debug, Clone, PartialEq, Eq)]
pub enum Effect {
    /// Save this draft as its pane's ready review.
    SaveReady(ReadyReview),
    /// Paste `markdown` into the pane without pressing a key.
    Send { pane_id: String, markdown: String },
    /// Remove the scope's ready review.
    DeleteReady { scope: String },
    /// Remove these comments of the scope, and no others.
    DeleteComments { scope: String, ids: Vec<String> },
    /// Remove the review being finished.
    DeleteReview,
    /// Make the review being finished its pane's ready review, replacing the
    /// previous one, and remove the review.
    PromoteReview,
    /// Show a notice.
    Notify { body: String },
}

pub enum EffectView {
    SaveReady(ReadyReview),
    Send { pane_id: Seq<char>, markdown: Seq<char> },
    DeleteReady { scope: Seq<char> },
    DeleteComments { scope: Seq<char>, ids: Seq<Seq<char>> },
    DeleteReview,
    PromoteReview,
    Notify { body: Seq<char> },
}

impl View for Effect {
    type V = EffectView;

    open spec fn view(&self) -> EffectView {
        match self {
            Effect::SaveReady(r) => EffectView::SaveReady(*r),
            Effect::Send { pane_id, markdown } => EffectView::Send { pane_id: pane_id@, markdown: markdown@ },
            Effect::DeleteReady { scope } => EffectView::DeleteReady { scope: scope@ },
            Effect::DeleteComments { scope, ids } => EffectView::DeleteComments { scope: scope@, ids: string_views(ids@) },
            Effect::DeleteReview => EffectView::DeleteReview,
            Effect::PromoteReview => EffectView::PromoteReview,
            Effect::Notify { body } => EffectView::Notify { body: body@ },
        }
    }
}

pub open spec fn effect_views(effects: Seq<Effect>) -> Seq<EffectView> {
    effects.map_values(|e: Effect| e@)
}

pub open spec fn saved_text(count: nat) -> Seq<char> {
    "Saved "@ + decimal(count) + " comment(s). Press Alt-Shift-p to paste."@
}

pub open spec fn pasted_text(count: nat) -> Seq<char> {
    "Pasted "@ + decimal(count) + " comment(s) without submitting."@
}

/// What finishing a review does: an unconfirmed or blank review is only
/// removed (a blank one with a notice); a confirmed one becomes the ready
/// review.
pub open spec fn finish_effects_of(step: FinishStep) -> Seq<EffectView> {
    match step {
        FinishStep::Discard => seq![EffectView::DeleteReview],
        FinishStep::DiscardBlank => seq![EffectView::DeleteReview, EffectView::Notify { body: BLANK_REVIEW_NOTICE@ }],
        FinishStep::Promote { count } => seq![
            EffectView::PromoteReview,
            EffectView::Notify { body: saved_text(count as nat) },
        ],
    }
}

/// What a paste does: with nothing to paste, a notice; otherwise the ready
/// review is saved first when it was assembled here, then sent, and only
/// after the send are the ready review and exactly its comments removed.
pub open spec fn paste_effects_of(plan: PastePlan) -> Seq<EffectView> {
    match plan {
        PastePlan::Nothing => seq![EffectView::Notify { body: NOTHING_TO_PASTE_NOTICE@ }],
        PastePlan::Send { ready, created } => (if created {
            seq![EffectView::SaveReady(ready)]
        } else {
            Seq::empty()
        }) + seq![
            EffectView::Send { pane_id: ready.pane_id@, markdown: ready.markdown@ },
            EffectView::DeleteReady { scope: ready.scope@ },
            EffectView::DeleteComments { scope: ready.scope@, ids: string_views(ready.comment_ids@) },
            EffectView::Notify { body: pasted_text(ready.comment_ids@.len()) },
        ],
    }
}

/// The effects of finishing a review with `step`.
pub fn finish_effects(step: FinishStep) -> (r: Vec<Effect>)
    ensures
        effect_views(r@) == finish_effects_of(step),
{
    let mut r: Vec<Effect> = Vec::new();
    match step {
        FinishStep::Discard => {
            r.push(Effect::DeleteReview);
        },
        FinishStep::DiscardBlank => {
            r.push(Effect::DeleteReview);
            r.push(Effect::Notify { body: BLANK_REVIEW_NOTICE.to_string() });
        },
        FinishStep::Promote { count } => {
            r.push(Effect::PromoteReview);
            r.push(Effect::Notify { body: saved_message(count) });
        },
    }
    assert(effect_views(r@) =~= finish_effects_of(step));
    r
}

/// Copies of the strings, in order.
fn copy_strings(v: &Vec<String>) -> (r: Vec<String>)
    ensures
        string_views(r@) == string_views(v@),
{
    let mut r: Vec<String> = Vec::new();
    let mut i: usize = 0;
    while i < v.len()
        invariant
            i <= v@.len(),
            string_views(r@) == string_views(v@.take(i as int)),
        decreases v@.len() - i,
    {
        let ghost before = r@;
        r.push(v[i].clone());
        assert(string_views(r@) =~= string_views(before).push(v@[i as int]@));
        assert(v@.take(i + 1) =~= v@.take(i as int).push(v@[i as int]));
        i += 1;
    }
    assert(v@.take(v@.len() as int) =~= v@);
    r
}

/// The effects of carrying out a paste plan.
pub fn paste_effects(plan: PastePlan) -> (r: Vec<Effect>)
    ensures
        effect_views(r@) == paste_effects_of(plan),
{
    let ghost p = plan;
    let mut r: Vec<Effect> = Vec::new();
    match plan {
        PastePlan::Nothing => {
            r.push(Effect::Notify { body: NOTHING_TO_PASTE_NOTICE.to_string() });
        },
        PastePlan::Send { ready, created } => {
            let pane_id = ready.pane_id.clone();
            let markdown = ready.markdown.clone();
            let scope = ready.scope.clone();
            let scope2 = ready.scope.clone();
            let ids = copy_strings(&ready.comment_ids);
            let count = ready.comment_ids.len();
            let ghost saved = ready;
            if created {
                r.push(Effect::SaveReady(ready));
            }
            let ghost head = r@;
            r.push(Effect::Send { pane_id, markdown });
            r.push(Effect::DeleteReady { scope });
            r.push(Effect::DeleteComments { scope: scope2, ids });
            r.push(Effect::Notify { body: pasted_message(count) });
            assert(effect_views(r@) =~= effect_views(head) + seq![
                EffectView::Send { pane_id: saved.pane_id@, markdown: saved.markdown@ },
                EffectView::DeleteReady { scope: saved.scope@ },
                EffectView::DeleteComments { scope: saved.scope@, ids: string_views(saved.comment_ids@) },
                EffectView::Notify { body: pasted_text(saved.comment_ids@.len()) },
            ]);
        },
    }
    assert(effect_views(r@) =~= paste_effects_of(p));
    r
}

/// A paste removes nothing before its text was sent: every removal comes
/// after the send, so a failed send leaves the ready review and the
/// collection in place.
pub proof fn law_paste_removes_only_after_sending(plan: PastePlan)
    ensures
        forall|i: int|
            0 <= i < paste_effects_of(plan).len() && (paste_effects_of(plan)[i] is DeleteReady
                || paste_effects_of(plan)[i] is DeleteComments) ==> exists|j: int|
                0 <= j < i && #[trigger] paste_effects_of(plan)[j] is Send,
{
    let e = paste_effects_of(plan);
    if let PastePlan::Send { ready, created } = plan {
        let k: int = if created { 1 } else { 0 };
        assert(e[k] is Send);
    }
}

/// Cancelling a review, or saving it blank, touches nothing but the review:
/// the collected comments and the previous ready review stay as they were.
pub proof fn law_cancel_touches_only_the_review(step: FinishStep)
    requires
        !(step is Promote),
    ensures
        forall|i: int|
            0 <= i < finish_effects_of(step).len() ==> (#[trigger] finish_effects_of(step)[i] is DeleteReview
                || finish_effects_of(step)[i] is Notify),
{
}

/// Joined parts end with the last part.
proof fn lemma_join_ends_with_last(parts: Seq<Seq<char>>, sep: Seq<char>)
    requires
        parts.len() >= 1,
    ensures
        crate::text::join_with(parts, sep).len() >= parts.last().len(),
        parts.last().len() > 0 ==> crate::text::join_with(parts, sep).last() == parts.last().last(),
{
    if parts.len() > 1 {
        let head = crate::text::join_with(parts.drop_last(), sep) + sep;
        assert(crate::text::join_with(parts, sep) == head + parts.last());
    }
}

/// The Markdown of collected comments is never blank: a paste assembled from
/// a non-empty collection is never refused as blank.
pub proof fn law_collection_is_never_blank(cs: Seq<Comment>)
    requires
        cs.len() > 0,
        comments_markdown(cs) is Ok,
    ensures
        !is_blank(comments_markdown(cs)->Ok_0),
{
    let ms = formatted_comments(cs)->Ok_0;
    let last = cs.last();
    let m = comment_outcome(last.source_text@, last.note@)->Ok_0;
    assert(ms.last() == m);
    crate::format::lemma_comment_ends_once(last.source_text@, last.note@);
    crate::text::lemma_trim_end_last(crate::text::trim_start(crate::text::normalize_newlines(last.note@)));
    let n = crate::format::note_outcome(last.note@)->Ok_0;
    assert(m.drop_last() =~= crate::format::quote_block(crate::format::source_outcome(last.source_text@)->Ok_0)
        + seq!['\n', '\n'] + n);
    assert(crate::text::strip_trailing(m, '\n') == crate::text::strip_trailing(m.drop_last(), '\n'));
    let f = |c: Seq<char>| crate::text::strip_trailing(c, '\n');
    let parts = ms.map_values(f);
    assert(parts.last() == m.drop_last());
    lemma_join_ends_with_last(parts, seq!['\n', '\n']);
    let joined = crate::text::join_with(parts, seq!['\n', '\n']);
    let md = joined + seq!['\n'];
    assert(md[joined.len() - 1] == n.last());
}

} // verus!
