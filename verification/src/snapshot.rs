//! Assembling a frozen pane snapshot from what Herdr reports.
use vstd::prelude::*;

use crate::format::{
    normalize_snapshot, snapshot_outcome, text_outcome_matches, FormatError, MAX_SNAPSHOT_BYTES,
};
use crate::model::{PaneSnapshot, SnapshotView};
use crate::text::{
    byte_len, byte_len_of, chars_of, is_blank, lemma_split_on_nonempty, lemma_split_on_step,
    normalize_newline_chars, normalize_newlines, split_on, string_of,
};

verus! {

/// Rows requested from Herdr's recent history (its hard cap per read).
pub const CAPTURE_ROWS: u32 = 1_000;

/// Where the source pane's viewport stood when the snapshot was taken.
#[derive(Debug, Clone, Copy, PartialEq, Eq)]
pub struct ScrollState {
    pub offset_from_bottom: usize,
    pub max_offset_from_bottom: usize,
    pub viewport_rows: usize,
}

/// The rows of a text: its newline-separated lines, where a final newline
/// ends the last row instead of starting an empty one.
pub open spec fn rows_of(text: Seq<char>) -> Seq<Seq<char>> {
    if text.len() > 0 && text.last() == '\n' {
        split_on(text.drop_last(), '\n')
    } else {
        split_on(text, '\n')
    }
}

pub open spec fn sat_sub(a: int, b: int) -> int {
    if a > b {
        a - b
    } else {
        0
    }
}

pub open spec fn sat_add_usize(a: int, b: int) -> int {
    if a + b > usize::MAX {
        usize::MAX as int
    } else {
        a + b
    }
}

/// What `normalize_ansi` gives for styled text.
pub open spec fn ansi_outcome(text: Seq<char>) -> Result<Seq<char>, FormatError> {
    let n = normalize_newlines(text);
    if byte_len(n) > MAX_SNAPSHOT_BYTES * 4 {
        Err(FormatError::StyledSnapshotTooLarge)
    } else {
        Ok(n)
    }
}

/// Whether the snapshot can show the source viewport from recent history.
pub open spec fn view_available(recent_rows: int, scroll: ScrollState) -> bool {
    let viewport = if scroll.viewport_rows == 0 { 1 } else { scroll.viewport_rows as int };
    scroll.offset_from_bottom == 0 || recent_rows >= sat_add_usize(viewport, scroll.offset_from_bottom as int)
}

/// The snapshot `assemble` builds from the chosen texts.
pub open spec fn snapshot_of(
    text: Seq<char>,
    ansi: Seq<char>,
    initial_top: int,
    available: bool,
    recent_rows: int,
    scroll: ScrollState,
) -> SnapshotView {
    let viewport = if scroll.viewport_rows == 0 { 1 } else { scroll.viewport_rows as int };
    SnapshotView {
        text: text,
        ansi: if rows_of(ansi).len() == rows_of(text).len() { ansi } else { text },
        initial_top: initial_top as usize,
        viewport_rows: viewport as usize,
        history_limited: !available || (scroll.max_offset_from_bottom > 0 && sat_add_usize(
            scroll.max_offset_from_bottom as int,
            viewport,
        ) > recent_rows),
    }
}

/// What `assemble` gives. Recent history is used when it is not blank, else
/// the visible screen; when the source viewport lies beyond recent history,
/// the visible screen is kept, opened at its top, and marked history-limited.
pub open spec fn assemble_outcome(
    recent_text: Seq<char>,
    recent_ansi: Seq<char>,
    visible_text: Seq<char>,
    visible_ansi: Seq<char>,
    scroll: ScrollState,
) -> Result<SnapshotView, FormatError> {
    let recent_is_empty = is_blank(recent_text);
    let recent = if recent_is_empty { snapshot_outcome(visible_text) } else { snapshot_outcome(recent_text) };
    let styled = if recent_is_empty { visible_ansi } else { recent_ansi };
    let viewport = if scroll.viewport_rows == 0 { 1 } else { scroll.viewport_rows as int };
    match recent {
        Err(e) => Err(e),
        Ok(rt) => {
            let recent_rows = rows_of(rt).len() as int;
            let available = view_available(recent_rows, scroll);
            if available {
                match ansi_outcome(styled) {
                    Err(e) => Err(e),
                    Ok(ansi) => Ok(
                        snapshot_of(
                            rt,
                            ansi,
                            sat_sub(sat_sub(recent_rows, viewport), scroll.offset_from_bottom as int),
                            true,
                            recent_rows,
                            scroll,
                        ),
                    ),
                }
            } else {
                match snapshot_outcome(visible_text) {
                    Err(e) => Err(e),
                    Ok(vt) => match ansi_outcome(visible_ansi) {
                        Err(e) => Err(e),
                        Ok(ansi) => Ok(snapshot_of(vt, ansi, 0, false, recent_rows, scroll)),
                    },
                }
            }
        },
    }
}

pub proof fn lemma_rows_nonempty(text: Seq<char>)
    ensures
        rows_of(text).len() >= 1,
{
    lemma_split_on_nonempty(text, '\n');
    if text.len() > 0 {
        lemma_split_on_nonempty(text.drop_last(), '\n');
    }
}

/// The lines of `text` split at newlines, as character vectors, with a final
/// newline not starting an extra row.
pub fn row_chars(text: &[char]) -> (r: Vec<Vec<char>>)
    ensures
        r@.map_values(|l: Vec<char>| l@) == rows_of(text@),
        r@.len() >= 1,
{
    let end: usize = if text.len() > 0 && text[text.len() - 1] == '\n' {
        text.len() - 1
    } else {
        text.len()
    };
    let ghost body = text@.take(end as int);
    proof {
        if text@.len() > 0 && text@.last() == '\n' {
            assert(body =~= text@.drop_last());
        } else {
            assert(body =~= text@);
        }
        assert(rows_of(text@) == split_on(body, '\n'));
    }
    let mut done: Vec<Vec<char>> = Vec::new();
    let mut current: Vec<char> = Vec::new();
    let mut i: usize = 0;
    proof {
        assert(body.take(0) =~= Seq::<char>::empty());
        assert(split_on(body.take(0), '\n') =~= seq![Seq::<char>::empty()]);
        assert(done@.map_values(|l: Vec<char>| l@).push(current@) =~= seq![Seq::<char>::empty()]);
    }
    while i < end
        invariant
            i <= end <= text@.len(),
            body == text@.take(end as int),
            done@.map_values(|l: Vec<char>| l@).push(current@) == split_on(body.take(i as int), '\n'),
        decreases end - i,
    {
        let ghost prev = split_on(body.take(i as int), '\n');
        let ghost dv = done@.map_values(|l: Vec<char>| l@);
        proof {
            lemma_split_on_step(body, '\n', i as int);
        }
        let c = text[i];
        if c == '\n' {
            let mut finished: Vec<char> = Vec::new();
            std::mem::swap(&mut finished, &mut current);
            done.push(finished);
            proof {
                assert(done@.map_values(|l: Vec<char>| l@) =~= dv.push(finished@));
                assert(done@.map_values(|l: Vec<char>| l@).push(current@) =~= prev.push(Seq::<char>::empty()));
            }
        } else {
            current.push(c);
            proof {
                assert(done@.map_values(|l: Vec<char>| l@).push(current@) =~= prev.update(
                    prev.len() - 1,
                    prev.last().push(c),
                ));
            }
        }
        i += 1;
    }
    done.push(current);
    assert(body.take(end as int) =~= body);
    proof {
        let dv = done@.map_values(|l: Vec<char>| l@);
        assert(dv =~= split_on(body, '\n'));
    }
    done
}

/// The rows of `text`: its newline-separated lines, where a final newline
/// ends the last row instead of starting an empty one. Never empty.
pub fn rows(text: &str) -> (r: Vec<String>)
    ensures
        r@.map_values(|l: String| l@) == rows_of(text@),
        r@.len() >= 1,
{
    let lines = row_chars(&chars_of(text));
    let mut r: Vec<String> = Vec::new();
    let mut i: usize = 0;
    while i < lines.len()
        invariant
            i <= lines@.len(),
            r@.len() == i,
            forall|j: int| 0 <= j < i ==> #[trigger] r@[j]@ == lines@[j]@,
        decreases lines@.len() - i,
    {
        let line = string_of(&lines[i]);
        r.push(line);
        i += 1;
    }
    assert(r@.map_values(|l: String| l@) =~= lines@.map_values(|l: Vec<char>| l@));
    r
}

/// The number of rows of `text`.
pub fn row_count(text: &str) -> (n: usize)
    ensures
        n == rows_of(text@).len(),
        n >= 1,
{
    row_chars(&chars_of(text)).len()
}

/// Uniform line endings for styled text, refused above four times the plain
/// snapshot limit.
pub fn normalize_ansi(text: &str) -> (r: Result<String, FormatError>)
    ensures
        text_outcome_matches(r, ansi_outcome(text@)),
{
    let n = normalize_newline_chars(&chars_of(text));
    if byte_len_of(&n) > (MAX_SNAPSHOT_BYTES as u128) * 4 {
        return Err(FormatError::StyledSnapshotTooLarge);
    }
    Ok(string_of(&n))
}

/// Builds the snapshot shown in the annotation popup from recent history and
/// the visible screen, opened where the source pane was scrolled to.
pub fn assemble(
    recent_text: &str,
    recent_ansi: &str,
    visible_text: &str,
    visible_ansi: &str,
    scroll: ScrollState,
) -> (r: Result<PaneSnapshot, FormatError>)
    ensures
        match r {
            Ok(s) => assemble_outcome(recent_text@, recent_ansi@, visible_text@, visible_ansi@, scroll) == Ok::<SnapshotView, FormatError>(s@),
            Err(e) => assemble_outcome(recent_text@, recent_ansi@, visible_text@, visible_ansi@, scroll) == Err::<SnapshotView, FormatError>(e),
        },
{
    let recent_is_empty = crate::text::chars_are_blank(&chars_of(recent_text));
    let recent = if recent_is_empty {
        normalize_snapshot(visible_text)?
    } else {
        normalize_snapshot(recent_text)?
    };
    let styled = if recent_is_empty {
        visible_ansi
    } else {
        recent_ansi
    };
    let viewport_rows = if scroll.viewport_rows > 1 { scroll.viewport_rows } else { 1 };
    let recent_rows = row_count(recent.as_str());
    let available = scroll.offset_from_bottom == 0 || recent_rows >= viewport_rows.saturating_add(
        scroll.offset_from_bottom,
    );
    let text;
    let ansi;
    let initial_top;
    if available {
        ansi = normalize_ansi(styled)?;
        initial_top = recent_rows.saturating_sub(viewport_rows).saturating_sub(scroll.offset_from_bottom);
        text = recent;
    } else {
        text = normalize_snapshot(visible_text)?;
        ansi = normalize_ansi(visible_ansi)?;
        initial_top = 0;
    }
    let ansi = if row_count(ansi.as_str()) == row_count(text.as_str()) {
        ansi
    } else {
        text.clone()
    };
    let history_rows = scroll.max_offset_from_bottom.saturating_add(viewport_rows);
    let snapshot = PaneSnapshot {
        text,
        ansi,
        initial_top,
        viewport_rows,
        history_limited: !available || (scroll.max_offset_from_bottom > 0 && history_rows > recent_rows),
    };
    Ok(snapshot)
}

/// The styled text of a snapshot always has as many rows as its plain text,
/// so the two can be shown row by row.
pub proof fn law_styled_rows_match_text(
    recent_text: Seq<char>,
    recent_ansi: Seq<char>,
    visible_text: Seq<char>,
    visible_ansi: Seq<char>,
    scroll: ScrollState,
)
    requires
        assemble_outcome(recent_text, recent_ansi, visible_text, visible_ansi, scroll) is Ok,
    ensures
        ({
            let s = assemble_outcome(recent_text, recent_ansi, visible_text, visible_ansi, scroll)->Ok_0;
            rows_of(s.ansi).len() == rows_of(s.text).len()
        }),
{
}

/// When recent history reaches the source viewport, the snapshot opens on it:
/// the last row on screen is the one `offset_from_bottom` rows above the end.
pub proof fn law_opens_at_source_viewport(
    recent_text: Seq<char>,
    recent_ansi: Seq<char>,
    visible_text: Seq<char>,
    visible_ansi: Seq<char>,
    scroll: ScrollState,
)
    requires
        assemble_outcome(recent_text, recent_ansi, visible_text, visible_ansi, scroll) is Ok,
        !is_blank(recent_text),
        scroll.viewport_rows > 0,
        rows_of(snapshot_outcome(recent_text)->Ok_0).len() < usize::MAX,
        rows_of(snapshot_outcome(recent_text)->Ok_0).len() >= scroll.viewport_rows + scroll.offset_from_bottom,
    ensures
        ({
            let s = assemble_outcome(recent_text, recent_ansi, visible_text, visible_ansi, scroll)->Ok_0;
            &&& s.text == snapshot_outcome(recent_text)->Ok_0
            &&& s.initial_top + scroll.viewport_rows + scroll.offset_from_bottom == rows_of(s.text).len()
        }),
{
}

/// When the source viewport lies beyond recent history, the visible screen is
/// kept whole, opened at its top, and the snapshot is marked history-limited.
pub proof fn law_visible_view_kept_beyond_history(
    recent_text: Seq<char>,
    recent_ansi: Seq<char>,
    visible_text: Seq<char>,
    visible_ansi: Seq<char>,
    scroll: ScrollState,
)
    requires
        assemble_outcome(recent_text, recent_ansi, visible_text, visible_ansi, scroll) is Ok,
        !is_blank(recent_text),
        scroll.offset_from_bottom > 0,
        rows_of(snapshot_outcome(recent_text)->Ok_0).len() < usize::MAX,
        rows_of(snapshot_outcome(recent_text)->Ok_0).len() < (if scroll.viewport_rows == 0 { 1 } else {
            scroll.viewport_rows as int
        }) + scroll.offset_from_bottom,
    ensures
        ({
            let s = assemble_outcome(recent_text, recent_ansi, visible_text, visible_ansi, scroll)->Ok_0;
            &&& s.text == snapshot_outcome(visible_text)->Ok_0
            &&& s.initial_top == 0
            &&& s.history_limited
        }),
{
}

/// The rows of a text hold no newline, and joined by newlines they give the
/// text back without its final newline.
pub proof fn law_rows_rejoin(text: Seq<char>)
    ensures
        rows_of(text).len() >= 1,
        crate::text::join_with(rows_of(text), seq!['\n']) == (if text.len() > 0 && text.last() == '\n' {
            text.drop_last()
        } else {
            text
        }),
        forall|i: int, j: int|
            0 <= i < rows_of(text).len() && 0 <= j < rows_of(text)[i].len() ==> #[trigger] rows_of(text)[i][j]
                != '\n',
{
    lemma_rows_nonempty(text);
    if text.len() > 0 && text.last() == '\n' {
        crate::text::lemma_split_join(text.drop_last(), '\n');
    } else {
        crate::text::lemma_split_join(text, '\n');
    }
}

} // verus!
