//! Validation of captured text and the Markdown that comments become.
use vstd::prelude::*;

use crate::text::{
    byte_len, byte_len_of, chars_are_blank, chars_of, exec_is_control, exec_is_whitespace,
    is_blank, is_control, is_whitespace, join_with, lemma_join_push, lemma_join_update_last,
    lemma_split_on_step, normalize_newline_chars, normalize_newlines, push_char, push_char_range,
    push_str, split_on, string_of, strip_trailing, trim, trim_end, trim_start,
};

verus! {

pub const MAX_SOURCE_BYTES: usize = 200 * 1024;

pub const MAX_SNAPSHOT_BYTES: usize = 2 * 1024 * 1024;

pub const MAX_REVIEW_BYTES: usize = 1024 * 1024;

/// Why a piece of text was refused.
#[derive(Debug, Clone, PartialEq, Eq)]
pub enum FormatError {
    EmptySelection,
    SelectionTooLarge { bytes: u128 },
    EmptyNote,
    NoteTooLarge,
    EmptySnapshot,
    SnapshotTooLarge,
    StyledSnapshotTooLarge,
    ReviewTooLarge,
    UnsupportedControl,
}

/// A control character that text may not carry; with `allow_layout`, newline
/// and tab are accepted.
pub open spec fn is_unsafe_char(c: char, allow_layout: bool) -> bool {
    is_control(c) && !(allow_layout && (c == '\n' || c == '\t'))
}

pub open spec fn is_safe_text(s: Seq<char>, allow_layout: bool) -> bool {
    forall|i: int| 0 <= i < s.len() ==> !is_unsafe_char(#[trigger] s[i], allow_layout)
}

/// What `normalize_source` gives for `text`.
pub open spec fn source_outcome(text: Seq<char>) -> Result<Seq<char>, FormatError> {
    let n = normalize_newlines(text);
    if is_blank(n) {
        Err(FormatError::EmptySelection)
    } else if byte_len(n) > MAX_SOURCE_BYTES {
        Err(FormatError::SelectionTooLarge { bytes: byte_len(n) as u128 })
    } else if !is_safe_text(n, true) {
        Err(FormatError::UnsupportedControl)
    } else {
        Ok(n)
    }
}

/// What `normalize_note` gives for `note`.
pub open spec fn note_outcome(note: Seq<char>) -> Result<Seq<char>, FormatError> {
    let n = trim(normalize_newlines(note));
    if n.len() == 0 {
        Err(FormatError::EmptyNote)
    } else if byte_len(n) > MAX_SOURCE_BYTES {
        Err(FormatError::NoteTooLarge)
    } else if !is_safe_text(n, true) {
        Err(FormatError::UnsupportedControl)
    } else {
        Ok(n)
    }
}

/// What `normalize_snapshot` gives for `text`.
pub open spec fn snapshot_outcome(text: Seq<char>) -> Result<Seq<char>, FormatError> {
    let n = normalize_newlines(text);
    if is_blank(n) {
        Err(FormatError::EmptySnapshot)
    } else if byte_len(n) > MAX_SNAPSHOT_BYTES {
        Err(FormatError::SnapshotTooLarge)
    } else if !is_safe_text(n, true) {
        Err(FormatError::UnsupportedControl)
    } else {
        Ok(n)
    }
}

/// What `validate_review` gives for `text`.
pub open spec fn review_outcome(text: Seq<char>) -> Result<(), FormatError> {
    if byte_len(text) > MAX_REVIEW_BYTES {
        Err(FormatError::ReviewTooLarge)
    } else if !is_safe_text(text, true) {
        Err(FormatError::UnsupportedControl)
    } else {
        Ok(())
    }
}

/// One line of a Markdown quote.
pub open spec fn quote_line(line: Seq<char>) -> Seq<char> {
    if line.len() == 0 {
        seq!['>']
    } else {
        seq!['>', ' '] + line
    }
}

/// Every line of `text` quoted, joined by newlines.
pub open spec fn quote_block(text: Seq<char>) -> Seq<char> {
    join_with(split_on(text, '\n').map_values(|l: Seq<char>| quote_line(l)), seq!['\n'])
}

/// A comment in Markdown: the quoted source, a blank line, the note and a newline.
pub open spec fn comment_markdown(source: Seq<char>, note: Seq<char>) -> Seq<char> {
    quote_block(source) + seq!['\n', '\n'] + note + seq!['\n']
}

/// What `format_comment` gives for a source text and a note.
pub open spec fn comment_outcome(source: Seq<char>, note: Seq<char>) -> Result<Seq<char>, FormatError> {
    match source_outcome(source) {
        Err(e) => Err(e),
        Ok(s) => match note_outcome(note) {
            Err(e) => Err(e),
            Ok(n) => Ok(comment_markdown(s, n)),
        },
    }
}

/// Formatted comments joined by a blank line, with one final newline.
pub open spec fn collection_markdown(comments: Seq<Seq<char>>) -> Seq<char> {
    join_with(comments.map_values(|c: Seq<char>| strip_trailing(c, '\n')), seq!['\n', '\n'])
        + seq!['\n']
}

/// The executable result carries the text the spec result describes.
pub open spec fn text_outcome_matches(r: Result<String, FormatError>, s: Result<Seq<char>, FormatError>) -> bool {
    match r {
        Ok(t) => s is Ok && t@ == s->Ok_0,
        Err(e) => s == Err::<Seq<char>, FormatError>(e),
    }
}

/// The message shown to the user for an error.
pub open spec fn error_text(e: FormatError) -> Seq<char> {
    match e {
        FormatError::EmptySelection => "the selected text is empty"@,
        FormatError::SelectionTooLarge { bytes } => "the selected text is "@ + crate::decimal::decimal(
            bytes as nat,
        ) + " bytes; select "@ + crate::decimal::decimal(MAX_SOURCE_BYTES as nat)
            + " bytes or fewer"@,
        FormatError::EmptyNote => "write a comment before continuing"@,
        FormatError::NoteTooLarge => "the comment exceeds 204800 bytes"@,
        FormatError::EmptySnapshot => "the pane has no text to annotate"@,
        FormatError::SnapshotTooLarge => "the pane snapshot exceeds 2097152 bytes"@,
        FormatError::StyledSnapshotTooLarge => "the styled pane snapshot is too large"@,
        FormatError::ReviewTooLarge => "the reviewed comments exceed 1048576 bytes"@,
        FormatError::UnsupportedControl => "text contains unsupported control characters"@,
    }
}

impl FormatError {
    /// The message shown to the user.
    pub fn message(&self) -> (m: String)
        ensures
            m@ == error_text(*self),
    {
        match self {
            FormatError::EmptySelection => "the selected text is empty".to_string(),
            FormatError::SelectionTooLarge { bytes } => {
                let mut m = "the selected text is ".to_string();
                push_str(&mut m, &crate::decimal::u128_to_decimal(*bytes));
                push_str(&mut m, " bytes; select ");
                push_str(&mut m, &crate::decimal::u128_to_decimal(MAX_SOURCE_BYTES as u128));
                push_str(&mut m, " bytes or fewer");
                m
            },
            FormatError::EmptyNote => "write a comment before continuing".to_string(),
            FormatError::NoteTooLarge => "the comment exceeds 204800 bytes".to_string(),
            FormatError::EmptySnapshot => "the pane has no text to annotate".to_string(),
            FormatError::SnapshotTooLarge => "the pane snapshot exceeds 2097152 bytes".to_string(),
            FormatError::StyledSnapshotTooLarge => "the styled pane snapshot is too large".to_string(),
            FormatError::ReviewTooLarge => "the reviewed comments exceed 1048576 bytes".to_string(),
            FormatError::UnsupportedControl => "text contains unsupported control characters".to_string(),
        }
    }
}

/// Checks that no character is a control character other than, with
/// `allow_layout`, newline and tab.
pub fn ensure_safe_text(text: &[char], allow_layout: bool) -> (r: Result<(), FormatError>)
    ensures
        r is Ok <==> is_safe_text(text@, allow_layout),
        r is Err ==> r == Err::<(), FormatError>(FormatError::UnsupportedControl),
{
    let mut i: usize = 0;
    while i < text.len()
        invariant
            i <= text@.len(),
            forall|j: int| 0 <= j < i ==> !is_unsafe_char(#[trigger] text@[j], allow_layout),
        decreases text@.len() - i,
    {
        let c = text[i];
        if exec_is_control(c) && !(allow_layout && (c == '\n' || c == '\t')) {
            return Err(FormatError::UnsupportedControl);
        }
        i += 1;
    }
    Ok(())
}

/// Normalizes a selection: uniform line endings; refuses blank, oversized or
/// control-bearing text.
pub fn normalize_source(text: &str) -> (r: Result<String, FormatError>)
    ensures
        text_outcome_matches(r, source_outcome(text@)),
{
    let n = normalize_newline_chars(&chars_of(text));
    if chars_are_blank(&n) {
        return Err(FormatError::EmptySelection);
    }
    let bytes = byte_len_of(&n);
    if bytes > MAX_SOURCE_BYTES as u128 {
        return Err(FormatError::SelectionTooLarge { bytes });
    }
    ensure_safe_text(&n, true)?;
    Ok(string_of(&n))
}

/// Normalizes a note: uniform line endings, surrounding whitespace removed;
/// refuses empty, oversized or control-bearing notes.
pub fn normalize_note(note: &str) -> (r: Result<String, FormatError>)
    ensures
        text_outcome_matches(r, note_outcome(note@)),
{
    let n = trim_chars(&normalize_newline_chars(&chars_of(note)));
    if n.len() == 0 {
        return Err(FormatError::EmptyNote);
    }
    if byte_len_of(&n) > MAX_SOURCE_BYTES as u128 {
        return Err(FormatError::NoteTooLarge);
    }
    ensure_safe_text(&n, true)?;
    Ok(string_of(&n))
}

/// Normalizes a pane snapshot: uniform line endings; refuses blank, oversized
/// or control-bearing text.
pub fn normalize_snapshot(text: &str) -> (r: Result<String, FormatError>)
    ensures
        text_outcome_matches(r, snapshot_outcome(text@)),
{
    let n = normalize_newline_chars(&chars_of(text));
    if chars_are_blank(&n) {
        return Err(FormatError::EmptySnapshot);
    }
    if byte_len_of(&n) > MAX_SNAPSHOT_BYTES as u128 {
        return Err(FormatError::SnapshotTooLarge);
    }
    ensure_safe_text(&n, true)?;
    Ok(string_of(&n))
}

/// Checks an edited review: bounded in size and free of control characters.
pub fn validate_review(text: &str) -> (r: Result<(), FormatError>)
    ensures
        r == review_outcome(text@),
{
    let chars = chars_of(text);
    if byte_len_of(&chars) > MAX_REVIEW_BYTES as u128 {
        return Err(FormatError::ReviewTooLarge);
    }
    match ensure_safe_text(&chars, true) {
        Ok(()) => Ok(()),
        Err(e) => Err(e),
    }
}

/// `s` without leading and trailing whitespace.
pub fn trim_chars(s: &[char]) -> (r: Vec<char>)
    ensures
        r@ == trim(s@),
{
    let mut start: usize = 0;
    assert(s@.subrange(0, s@.len() as int) =~= s@);
    while start < s.len() && exec_is_whitespace(s[start])
        invariant
            start <= s@.len(),
            trim_start(s@) == trim_start(s@.subrange(start as int, s@.len() as int)),
        decreases s@.len() - start,
    {
        proof {
            let rest = s@.subrange(start as int, s@.len() as int);
            assert(rest.drop_first() =~= s@.subrange(start + 1, s@.len() as int));
        }
        start += 1;
    }
    proof {
        assert(s@.subrange(0, s@.len() as int) =~= s@);
    }
    let mut end: usize = s.len();
    while end > start && exec_is_whitespace(s[end - 1])
        invariant
            start <= end <= s@.len(),
            trim_start(s@) == s@.subrange(start as int, s@.len() as int),
            trim(s@) == trim_end(s@.subrange(start as int, end as int)),
        decreases end,
    {
        proof {
            let mid = s@.subrange(start as int, end as int);
            assert(mid.drop_last() =~= s@.subrange(start as int, end - 1));
        }
        end -= 1;
    }
    let mut r: Vec<char> = Vec::new();
    let mut i: usize = start;
    while i < end
        invariant
            start <= i <= end <= s@.len(),
            r@ == s@.subrange(start as int, i as int),
        decreases end - i,
    {
        r.push(s[i]);
        i += 1;
        assert(r@ =~= s@.subrange(start as int, i as int));
    }
    r
}

/// `s` without any trailing newline.
pub fn strip_trailing_newlines(s: &[char]) -> (r: usize)
    ensures
        r <= s@.len(),
        s@.subrange(0, r as int) == strip_trailing(s@, '\n'),
{
    let mut end: usize = s.len();
    assert(s@.subrange(0, s@.len() as int) =~= s@);
    while end > 0 && s[end - 1] == '\n'
        invariant
            end <= s@.len(),
            strip_trailing(s@, '\n') == strip_trailing(s@.subrange(0, end as int), '\n'),
        decreases end,
    {
        assert(s@.subrange(0, end as int).drop_last() =~= s@.subrange(0, end - 1));
        end -= 1;
    }
    end
}

/// Appends the quoted lines of `text` to `out`.
pub fn push_quote_block(out: &mut String, text: &[char])
    ensures
        final(out)@ == old(out)@ + quote_block(text@),
{
    let ghost start = out@;
    let ghost q = |l: Seq<char>| quote_line(l);
    push_char(out, '>');
    let mut line_empty = true;
    let mut i: usize = 0;
    proof {
        let parts = split_on(text@.take(0), '\n');
        assert(text@.take(0) =~= Seq::<char>::empty());
        assert(parts.map_values(q) =~= seq![seq!['>']]);
        assert(join_with(parts.map_values(q), seq!['\n']) == seq!['>']);
    }
    while i < text.len()
        invariant
            i <= text@.len(),
            q == (|l: Seq<char>| quote_line(l)),
            split_on(text@.take(i as int), '\n').len() >= 1,
            line_empty == (split_on(text@.take(i as int), '\n').last().len() == 0),
            out@ == start + join_with(split_on(text@.take(i as int), '\n').map_values(q), seq!['\n']),
        decreases text@.len() - i,
    {
        let c = text[i];
        let ghost prev = split_on(text@.take(i as int), '\n');
        let ghost pm = prev.map_values(q);
        proof {
            lemma_split_on_step(text@, '\n', i as int);
        }
        if c == '\n' {
            push_char(out, '\n');
            push_char(out, '>');
            proof {
                let next = prev.push(Seq::<char>::empty());
                assert(next.map_values(q) =~= pm.push(seq!['>']));
                lemma_join_push(pm, seq!['\n'], seq!['>']);
                assert(out@ =~= start + join_with(pm, seq!['\n']) + seq!['\n'] + seq!['>']);
            }
            line_empty = true;
        } else {
            let ghost last = prev.last();
            let ghost extra = if line_empty { seq![' ', c] } else { seq![c] };
            if line_empty {
                push_char(out, ' ');
            }
            push_char(out, c);
            proof {
                let next = prev.update(prev.len() - 1, last.push(c));
                assert(quote_line(last.push(c)) =~= quote_line(last) + extra);
                assert(next.map_values(q) =~= pm.update(pm.len() - 1, quote_line(last) + extra));
                lemma_join_update_last(pm, seq!['\n'], quote_line(last), extra);
                assert(out@ =~= start + join_with(pm, seq!['\n']) + extra);
            }
            line_empty = false;
        }
        i += 1;
    }
    assert(text@.take(text@.len() as int) =~= text@);
}

/// A comment in Markdown: the quoted source, a blank line, then the note.
pub fn format_comment(source_text: &str, note: &str) -> (r: Result<String, FormatError>)
    ensures
        text_outcome_matches(r, comment_outcome(source_text@, note@)),
{
    let source = normalize_source(source_text)?;
    let note = normalize_note(note)?;
    let mut out = String::new();
    push_quote_block(&mut out, &chars_of(source.as_str()));
    push_str(&mut out, "\n\n");
    push_str(&mut out, note.as_str());
    push_char(&mut out, '\n');
    proof {
        reveal_strlit("\n\n");
        assert(out@ =~= comment_markdown(source@, note@));
    }
    Ok(out)
}

/// Formatted comments joined by one blank line, ending in a single newline.
pub fn format_collection(comments: &[String]) -> (r: String)
    ensures
        r@ == collection_markdown(comments@.map_values(|c: String| c@)),
{
    let ghost views = comments@.map_values(|c: String| c@);
    let ghost f = |c: Seq<char>| strip_trailing(c, '\n');
    let mut out = String::new();
    let mut i: usize = 0;
    while i < comments.len()
        invariant
            i <= comments@.len(),
            views == comments@.map_values(|c: String| c@),
            f == (|c: Seq<char>| strip_trailing(c, '\n')),
            out@ == join_with(views.take(i as int).map_values(f), seq!['\n', '\n']),
        decreases comments@.len() - i,
    {
        let chars = chars_of(comments[i].as_str());
        let end = strip_trailing_newlines(&chars);
        let ghost before = out@;
        if i > 0 {
            push_str(&mut out, "\n\n");
            proof {
                reveal_strlit("\n\n");
            }
        }
        push_char_range(&mut out, &chars, 0, end);
        proof {
            let head = views.take(i as int).map_values(f);
            let next = views.take(i + 1).map_values(f);
            assert(views.take(i + 1) =~= views.take(i as int).push(views[i as int]));
            assert(next =~= head.push(f(views[i as int])));
            if i > 0 {
                lemma_join_push(head, seq!['\n', '\n'], f(views[i as int]));
                assert(out@ =~= before + seq!['\n', '\n'] + f(views[i as int]));
            } else {
                assert(next =~= seq![f(views[0])]);
                assert(out@ =~= f(views[0]));
            }
        }
        i += 1;
    }
    push_char(&mut out, '\n');
    assert(views.take(comments@.len() as int) =~= views);
    out
}

/// An accepted selection is accepted again unchanged: normalizing a
/// normalized selection gives it back.
pub proof fn law_source_normalization_is_stable(text: Seq<char>)
    requires
        source_outcome(text) is Ok,
    ensures
        source_outcome(source_outcome(text)->Ok_0) == source_outcome(text),
{
    crate::text::lemma_normalize_idempotent(text);
}

/// A formatted comment ends with its note and exactly one newline.
pub proof fn lemma_comment_ends_once(source: Seq<char>, note: Seq<char>)
    requires
        comment_outcome(source, note) is Ok,
    ensures
        ({
            let m = comment_outcome(source, note)->Ok_0;
            &&& m.len() >= 2
            &&& m.last() == '\n'
            &&& m.drop_last().last() != '\n'
        }),
{
    let n = note_outcome(note)->Ok_0;
    crate::text::lemma_trim_end_last(trim_start(normalize_newlines(note)));
    let m = comment_outcome(source, note)->Ok_0;
    assert(n.len() > 0 && !is_whitespace(n.last()));
    assert(m.drop_last() =~= quote_block(source_outcome(source)->Ok_0) + seq!['\n', '\n'] + n);
    assert(m.drop_last().last() == n.last());
}

/// A collection of one comment is that comment's Markdown, unchanged.
pub proof fn law_single_comment_collection(source: Seq<char>, note: Seq<char>)
    requires
        comment_outcome(source, note) is Ok,
    ensures
        collection_markdown(seq![comment_outcome(source, note)->Ok_0]) == comment_outcome(source, note)->Ok_0,
{
    let m = comment_outcome(source, note)->Ok_0;
    lemma_comment_ends_once(source, note);
    assert(strip_trailing(m, '\n') == strip_trailing(m.drop_last(), '\n'));
    assert(strip_trailing(m.drop_last(), '\n') == m.drop_last());
    let parts = seq![m].map_values(|c: Seq<char>| strip_trailing(c, '\n'));
    assert(parts =~= seq![m.drop_last()]);
    assert(join_with(parts, seq!['\n', '\n']) == m.drop_last());
    assert(m.drop_last() + seq!['\n'] =~= m);
}

/// An accepted note is accepted again unchanged: normalizing and trimming a
/// normalized note gives it back.
pub proof fn law_note_normalization_is_stable(note: Seq<char>)
    requires
        note_outcome(note) is Ok,
    ensures
        note_outcome(note_outcome(note)->Ok_0) == note_outcome(note),
{
    let n = note_outcome(note)->Ok_0;
    let normalized = normalize_newlines(note);
    crate::text::lemma_normalized_has_no_cr(note);
    crate::text::lemma_trim_idempotent(normalized);
    assert forall|i: int| 0 <= i < n.len() implies #[trigger] n[i] != '\r' by {
        let j = choose|j: int| 0 <= j < normalized.len() && n[i] == normalized[j];
    }
    crate::text::lemma_normalize_without_cr(n);
}

} // verus!
