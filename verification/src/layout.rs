//! What the annotation popup puts on screen: which wrapped rows are shown,
//! which cells are highlighted, where the cursor goes and what the status
//! lines say. Drawing itself is left to the terminal front end.
use vstd::prelude::*;

use crate::decimal::{decimal, push_decimal};
use crate::editor::{EditorView, NoteEditor};
use crate::format::{push_quote_block, quote_block};
use crate::text::{chars_of, push_str, string_of};
use crate::tui::{AnnotationState, AnnotationView};
use crate::wrap::{
    char_slice, char_slice_of, display_column, display_column_of, editor_line_rows,
    editor_lines_rows, max_usize, min_usize, row_index_of, sat_add, sat_sub, saturating_add,
    saturating_sub, wrap_line, wrapped_editor_rows, lemma_wrap_line_rows, wrapped_row_index, WrappedRow,
};

verus! {

/// The rows from `top` on, at most `height` of them.
pub open spec fn visible_rows_of(rows: Seq<WrappedRow>, top: usize, height: usize) -> Seq<WrappedRow> {
    let start = if top <= rows.len() { top as int } else { rows.len() as int };
    let end = if top + height <= rows.len() { top + height } else { rows.len() as int };
    rows.subrange(start, end)
}

/// The rows shown on a screen `height` rows tall whose first row is `top`.
pub fn visible_rows(rows: &[WrappedRow], top: usize, height: usize) -> (r: Vec<WrappedRow>)
    ensures
        r@ == visible_rows_of(rows@, top, height),
{
    let start = if top <= rows.len() { top } else { rows.len() };
    let end = if height <= rows.len() - start { start + height } else { rows.len() };
    let mut r: Vec<WrappedRow> = Vec::new();
    let mut i: usize = start;
    while i < end
        invariant
            start <= i <= end <= rows@.len(),
            r@ == rows@.subrange(start as int, i as int),
        decreases end - i,
    {
        r.push(rows[i]);
        i += 1;
        assert(r@ =~= rows@.subrange(start as int, i as int));
    }
    r
}

/// The highlighted screen columns of one shown row of the snapshot: the
/// selected columns that fall in the row, at least one cell wide.
pub open spec fn row_highlight(v: AnnotationView, row: WrappedRow) -> Option<(usize, usize)> {
    if row.source_row >= v.lines.len() {
        None
    } else {
        match v.selected_columns(row.source_row) {
            None => None,
            Some((from0, to0)) => {
                let line = v.lines[row.source_row as int];
                let from = max_usize(from0, row.start_column);
                let to = min_usize(to0, row.end_column);
                if from >= to && row.start_column != row.end_column {
                    None
                } else {
                    let row_start = display_column_of(line, row.start_column);
                    let start = sat_sub(display_column_of(line, from), row_start);
                    let end = max_usize(sat_sub(display_column_of(line, to), row_start), sat_add(start, 1));
                    Some((start, end))
                }
            },
        }
    }
}

/// The highlight of each shown row, in screen order.
pub fn selection_highlights(state: &AnnotationState, shown: &[WrappedRow]) -> (r: Vec<Option<(usize, usize)>>)
    requires
        state.wf(),
    ensures
        r@ == shown@.map_values(|row: WrappedRow| row_highlight(state@, row)),
{
    let lines = state.lines();
    let mut r: Vec<Option<(usize, usize)>> = Vec::new();
    let mut i: usize = 0;
    while i < shown.len()
        invariant
            state.wf(),
            lines@.map_values(|x: Vec<char>| x@) == state@.lines,
            i <= shown@.len(),
            r@ == shown@.take(i as int).map_values(|row: WrappedRow| row_highlight(state@, row)),
        decreases shown@.len() - i,
    {
        let row = shown[i];
        let h = if row.source_row >= lines.len() {
            None
        } else {
            match state.selected_columns(row.source_row) {
                None => None,
                Some((from0, to0)) => {
                    let line = &lines[row.source_row];
                    assert(line@ == state@.lines[row.source_row as int]);
                    let from = if from0 > row.start_column { from0 } else { row.start_column };
                    let to = if to0 < row.end_column { to0 } else { row.end_column };
                    if from >= to && row.start_column != row.end_column {
                        None
                    } else {
                        let row_start = display_column(line.as_slice(), row.start_column);
                        let start = saturating_sub(display_column(line.as_slice(), from), row_start);
                        let end0 = saturating_sub(display_column(line.as_slice(), to), row_start);
                        let one = saturating_add(start, 1);
                        Some((start, if end0 > one { end0 } else { one }))
                    }
                },
            }
        };
        r.push(h);
        assert(shown@.take(i + 1) =~= shown@.take(i as int).push(row));
        i += 1;
        assert(r@ =~= shown@.take(i as int).map_values(|row: WrappedRow| row_highlight(state@, row)));
    }
    assert(shown@.take(shown@.len() as int) =~= shown@);
    r
}

/// Where the snapshot's cursor goes: its screen column and its row counted
/// from `top`, when one of `rows` shows it.
pub open spec fn source_cursor_of(v: AnnotationView, rows: Seq<WrappedRow>) -> Option<(usize, usize)> {
    match row_index_of(rows, v.cursor.row, v.cursor.column) {
        None => None,
        Some(i) => {
            let line = v.lines[v.cursor.row as int];
            let column = sat_sub(
                display_column_of(line, v.cursor.column),
                display_column_of(line, rows[i as int].start_column),
            );
            Some((column, sat_sub(i, v.top)))
        },
    }
}

/// The cursor's place among the wrapped `rows` of the snapshot.
pub fn source_cursor(state: &AnnotationState, rows: &[WrappedRow]) -> (r: Option<(usize, usize)>)
    requires
        state.wf(),
    ensures
        r == source_cursor_of(state@, rows@),
{
    let cursor = state.cursor();
    match wrapped_row_index(rows, cursor.row, cursor.column) {
        None => None,
        Some(i) => {
            let lines = state.lines();
            let line = &lines[cursor.row];
            assert(line@ == state@.lines[cursor.row as int]);
            let column = saturating_sub(
                display_column(line.as_slice(), cursor.column),
                display_column(line.as_slice(), rows[i].start_column),
            );
            Some((column, saturating_sub(i, state.top())))
        },
    }
}

/// The terminal cell at `column`, `row` of an area at `x`, `y` that is
/// `width` by `height` cells, when the cell lies inside the area. Offsets that
/// do not fit a `u16` count as `u16::MAX`, and sums saturate.
pub open spec fn place_of(x: u16, y: u16, width: u16, height: u16, column: usize, row: usize) -> Option<(u16, u16)> {
    let cx = if x + (if column <= u16::MAX { column as int } else { u16::MAX as int }) <= u16::MAX {
        (x + (if column <= u16::MAX { column as int } else { u16::MAX as int })) as u16
    } else {
        u16::MAX
    };
    let cy = if y + (if row <= u16::MAX { row as int } else { u16::MAX as int }) <= u16::MAX {
        (y + (if row <= u16::MAX { row as int } else { u16::MAX as int })) as u16
    } else {
        u16::MAX
    };
    let right = if x + width <= u16::MAX { (x + width) as u16 } else { u16::MAX };
    let bottom = if y + height <= u16::MAX { (y + height) as u16 } else { u16::MAX };
    if cx < right && cy < bottom {
        Some((cx, cy))
    } else {
        None
    }
}

/// Places a screen offset inside an area.
pub fn place(x: u16, y: u16, width: u16, height: u16, column: usize, row: usize) -> (r: Option<(u16, u16)>)
    ensures
        r == place_of(x, y, width, height, column, row),
{
    let dx: u16 = if column <= 65535 { column as u16 } else { 65535 };
    let dy: u16 = if row <= 65535 { row as u16 } else { 65535 };
    let cx = x.saturating_add(dx);
    let cy = y.saturating_add(dy);
    let right = x.saturating_add(width);
    let bottom = y.saturating_add(height);
    if cx < right && cy < bottom {
        Some((cx, cy))
    } else {
        None
    }
}

/// The index of the last row that belongs to source row `row`.
pub open spec fn last_row_of(rows: Seq<WrappedRow>, row: usize) -> Option<usize> {
    if exists|i: int| 0 <= i < rows.len() && (#[trigger] rows[i]).source_row == row {
        let i = choose|i: int|
            0 <= i < rows.len() && (#[trigger] rows[i]).source_row == row && forall|j: int|
                i < j < rows.len() ==> (#[trigger] rows[j]).source_row != row;
        Some(i as usize)
    } else {
        None
    }
}

/// The last row of `rows` that belongs to source row `row`.
pub fn last_row_index(rows: &[WrappedRow], row: usize) -> (r: Option<usize>)
    ensures
        r == last_row_of(rows@, row),
        r matches Some(i) ==> i < rows@.len(),
{
    let mut i: usize = rows.len();
    while i > 0
        invariant
            i <= rows@.len(),
            forall|j: int| i <= j < rows@.len() ==> (#[trigger] rows@[j]).source_row != row,
        decreases i,
    {
        i -= 1;
        if rows[i].source_row == row {
            proof {
                let k = choose|k: int|
                    0 <= k < rows@.len() && (#[trigger] rows@[k]).source_row == row && forall|j: int|
                        k < j < rows@.len() ==> (#[trigger] rows@[j]).source_row != row;
                assert(k == i) by {
                    if k < i {
                        assert(rows@[i as int].source_row == row);
                    } else if k > i {
                    }
                }
            }
            return Some(i);
        }
    }
    None
}

/// The note editor on screen: the text of the shown rows and where the cursor
/// goes inside the editor's frame.
#[derive(Debug, Clone, PartialEq, Eq)]
pub struct CommentLayout {
    pub lines: Vec<String>,
    pub cursor_column: usize,
    pub cursor_row: usize,
}

/// The editor row that shows the cursor: the row showing its position, else
/// the last row of its line, else the first row.
pub open spec fn editor_cursor_row(e: EditorView, rows: Seq<WrappedRow>) -> usize {
    match row_index_of(rows, e.row, e.column) {
        Some(i) => i,
        None => match last_row_of(rows, e.row) {
            Some(i) => i,
            None => 0,
        },
    }
}

/// The first editor row on screen: scrolled just enough that the cursor's row
/// is the last one of `height` rows.
pub open spec fn editor_top(e: EditorView, rows: Seq<WrappedRow>, height: usize) -> usize {
    sat_sub(editor_cursor_row(e, rows), sat_sub(max_usize(height, 1), 1))
}

/// The editor as shown in a frame `width` by `height` cells.
pub open spec fn comment_layout_of(e: EditorView, width: usize, height: usize) -> (Seq<Seq<char>>, usize, usize) {
    let rows = editor_lines_rows(e.lines, max_usize(width, 1));
    let c = editor_cursor_row(e, rows);
    let top = editor_top(e, rows, height);
    let shown = visible_rows_of(rows, top, max_usize(height, 1));
    let line = e.lines[e.row as int];
    (
        shown.map_values(|r: WrappedRow| char_slice_of(e.lines[r.source_row as int], r.start_column, r.end_column)),
        sat_sub(display_column_of(line, e.column), display_column_of(line, rows[c as int].start_column)),
        sat_sub(c, top),
    )
}

/// Every line gives the editor at least one row, each of them for a line.
pub proof fn lemma_editor_rows(lines: Seq<Seq<char>>, width: usize)
    ensures
        editor_lines_rows(lines, width).len() >= lines.len(),
        forall|i: int| 0 <= i < editor_lines_rows(lines, width).len()
            ==> (#[trigger] editor_lines_rows(lines, width)[i]).source_row < lines.len(),
    decreases lines.len(),
{
    if lines.len() > 0 {
        lemma_editor_rows(lines.drop_last(), width);
        let n = (lines.len() - 1) as usize;
        lemma_wrap_line_rows(lines.last(), width, n);
        let line_rows = editor_line_rows(lines.last(), width, n);
        assert forall|i: int| 0 <= i < line_rows.len() implies (#[trigger] line_rows[i]).source_row == n by {
            let w = wrap_line(lines.last(), width, n);
            if i < w.len() {
                assert(w[i].source_row == n);
            }
        }
    }
}

/// The text of each of `shown`, a row of `lines`.
pub fn row_texts(lines: &[Vec<char>], shown: &[WrappedRow]) -> (out: Vec<String>)
    requires
        forall|k: int| 0 <= k < shown@.len() ==> (#[trigger] shown@[k]).source_row < lines@.len(),
    ensures
        out@.map_values(|s: String| s@) == shown@.map_values(
            |r: WrappedRow| char_slice_of(lines@[r.source_row as int]@, r.start_column, r.end_column),
        ),
{
    let mut out: Vec<String> = Vec::new();
    let mut i: usize = 0;
    while i < shown.len()
        invariant
            i <= shown@.len(),
            forall|k: int| 0 <= k < shown@.len() ==> (#[trigger] shown@[k]).source_row < lines@.len(),
            out@.map_values(|s: String| s@) == shown@.take(i as int).map_values(
                |r: WrappedRow| char_slice_of(lines@[r.source_row as int]@, r.start_column, r.end_column),
            ),
        decreases shown@.len() - i,
    {
        let row = shown[i];
        assert(row.source_row < lines@.len());
        let text = string_of(char_slice(lines[row.source_row].as_slice(), row.start_column, row.end_column).as_slice());
        let ghost before = out@;
        out.push(text);
        assert(shown@.take(i + 1) =~= shown@.take(i as int).push(row));
        assert(out@.map_values(|s: String| s@) =~= before.map_values(|s: String| s@).push(text@));
        i += 1;
    }
    assert(shown@.take(shown@.len() as int) =~= shown@);
    out
}

/// Lays the note editor out in a frame `width` by `height` cells.
#[verifier::spinoff_prover]
#[verifier::rlimit(40)]
pub fn comment_layout(editor: &NoteEditor, width: usize, height: usize) -> (r: CommentLayout)
    requires
        editor.wf(),
    ensures
        comment_layout_of(editor@, width, height) == (
            r.lines@.map_values(|s: String| s@),
            r.cursor_column,
            r.cursor_row,
        ),
{
    let lines = editor.lines();
    let ghost views = lines@.map_values(|x: Vec<char>| x@);
    let rows = wrapped_editor_rows(lines.as_slice(), width);
    proof {
        lemma_editor_rows(views, max_usize(width, 1));
    }
    let c = match wrapped_row_index(rows.as_slice(), editor.row(), editor.column()) {
        Some(i) => i,
        None => match last_row_index(rows.as_slice(), editor.row()) {
            Some(i) => i,
            None => 0,
        },
    };
    let height1 = if height > 1 { height } else { 1 };
    let top = saturating_sub(c, height1 - 1);
    let shown = visible_rows(rows.as_slice(), top, height1);
    proof {
        assert forall|k: int| 0 <= k < shown@.len() implies (#[trigger] shown@[k]).source_row < lines@.len() by {
            let top0 = if top <= rows@.len() { top as int } else { rows@.len() as int };
            assert(shown@[k] == rows@[top0 + k]);
        }
    }
    let out = row_texts(lines.as_slice(), shown.as_slice());
    proof {
        assert(shown@.map_values(|r: WrappedRow| char_slice_of(lines@[r.source_row as int]@, r.start_column, r.end_column))
            =~= shown@.map_values(|r: WrappedRow| char_slice_of(views[r.source_row as int], r.start_column, r.end_column)));
    }
    let line = &lines[editor.row()];
    assert(line@ == views[editor@.row as int]);
    let cursor_column = saturating_sub(
        display_column(line.as_slice(), editor.column()),
        display_column(line.as_slice(), rows[c].start_column),
    );
    CommentLayout { lines: out, cursor_column, cursor_row: saturating_sub(c, top) }
}

/// The selection being commented on, quoted line by line.
pub fn selection_quote(source: &str) -> (q: String)
    ensures
        q@ == quote_block(source@),
{
    let mut q = String::new();
    push_quote_block(&mut q, chars_of(source).as_slice());
    assert(q@ =~= quote_block(source@));
    q
}

/// The status line while browsing: mode, comment count and whether the pane's
/// history was cut short.
pub open spec fn source_status_of(visual: bool, count: usize, history_limited: bool) -> Seq<char> {
    " "@ + (if visual { "VISUAL"@ } else { "NORMAL"@ }) + " · "@ + decimal(count as nat) + " comment"@
        + (if count == 1 { ""@ } else { "s"@ }) + (if history_limited { " · history limited"@ } else { ""@ })
        + " "@
}

pub fn source_status(visual: bool, count: usize, history_limited: bool) -> (s: String)
    ensures
        s@ == source_status_of(visual, count, history_limited),
{
    let mut s = String::new();
    push_str(&mut s, " ");
    push_str(&mut s, if visual { "VISUAL" } else { "NORMAL" });
    push_str(&mut s, " · ");
    push_decimal(&mut s, count as u128);
    push_str(&mut s, " comment");
    push_str(&mut s, if count == 1 { "" } else { "s" });
    push_str(&mut s, if history_limited { " · history limited" } else { "" });
    push_str(&mut s, " ");
    s
}

/// The key help while browsing.
pub fn source_help(visual: bool) -> (s: &'static str)
    ensures
        s@ == if visual { " v/V select · c comment · esc cancel "@ } else { " hjkl scroll · v/V select · q done "@ },
{
    if visual {
        " v/V select · c comment · esc cancel "
    } else {
        " hjkl scroll · v/V select · q done "
    }
}

/// The footer's reminder of what follows annotating.
pub const REVIEW_HINT: &'static str = " after q: alt-shift-c final edit ";

pub const PASTE_HINT: &'static str = "          alt-shift-p paste ";

/// The status line while writing a note.
pub fn comment_status(count: usize) -> (s: String)
    ensures
        s@ == " COMMENT · "@ + decimal(count as nat) + " collected "@,
{
    let mut s = String::new();
    push_str(&mut s, " COMMENT · ");
    push_decimal(&mut s, count as u128);
    push_str(&mut s, " collected ");
    s
}

/// The key help while writing a note: an inline comment closes the popup
/// when it is saved or cancelled, a snapshot comment returns to browsing.
pub fn comment_help(exits_after_save: bool) -> (s: &'static str)
    ensures
        s@ == if exits_after_save {
            " type comment · enter collect & close · alt-enter newline · esc cancel & close "@
        } else {
            " type comment · enter collect · alt-enter newline · esc back to NORMAL "@
        },
{
    if exits_after_save {
        " type comment · enter collect & close · alt-enter newline · esc cancel & close "
    } else {
        " type comment · enter collect · alt-enter newline · esc back to NORMAL "
    }
}

/// The parts of styled spans that fall in character columns `from..to` of
/// their line: span index and columns inside the span.
pub open spec fn span_pieces(lens: Seq<usize>, from: usize, to: usize) -> Seq<(usize, usize, usize)>
    decreases lens.len(),
{
    if lens.len() == 0 {
        Seq::empty()
    } else {
        let head = span_pieces(lens.drop_last(), from, to);
        let start = span_start(lens.drop_last());
        let end = start + lens.last();
        let lo = if from > start { from as int } else { start };
        let hi = if to < end { to as int } else { end };
        if lo < hi {
            head.push(((lens.len() - 1) as usize, (lo - start) as usize, (hi - start) as usize))
        } else {
            head
        }
    }
}

/// Where a span starts: the total length of the spans before it.
pub open spec fn span_start(lens: Seq<usize>) -> int
    decreases lens.len(),
{
    if lens.len() == 0 {
        0
    } else {
        span_start(lens.drop_last()) + lens.last()
    }
}

/// Cuts a styled line, given by the character length of each span, to
/// columns `from..to`. Requires the line's length to fit a `usize`.
pub fn span_slices(lens: &[usize], from: usize, to: usize) -> (r: Vec<(usize, usize, usize)>)
    requires
        span_start(lens@) <= usize::MAX,
    ensures
        r@ == span_pieces(lens@, from, to),
{
    let mut r: Vec<(usize, usize, usize)> = Vec::new();
    let mut start: usize = 0;
    let mut i: usize = 0;
    while i < lens.len()
        invariant
            i <= lens@.len(),
            span_start(lens@) <= usize::MAX,
            start == span_start(lens@.take(i as int)),
            r@ == span_pieces(lens@.take(i as int), from, to),
        decreases lens@.len() - i,
    {
        let ghost prefix = lens@.take(i + 1);
        assert(prefix.drop_last() =~= lens@.take(i as int));
        proof {
            lemma_span_start_prefix(lens@, i as int + 1);
        }
        let end = start + lens[i];
        let lo = if from > start { from } else { start };
        let hi = if to < end { to } else { end };
        if lo < hi {
            r.push((i, lo - start, hi - start));
        }
        start = end;
        i += 1;
    }
    assert(lens@.take(lens@.len() as int) =~= lens@);
    r
}

/// A prefix of the spans ends no later than the whole line.
pub proof fn lemma_span_start_prefix(lens: Seq<usize>, n: int)
    requires
        0 <= n <= lens.len(),
    ensures
        span_start(lens.take(n)) <= span_start(lens),
    decreases lens.len() - n,
{
    if n < lens.len() {
        lemma_span_start_prefix(lens, n + 1);
        assert(lens.take(n + 1).drop_last() =~= lens.take(n));
    } else {
        assert(lens.take(n) =~= lens);
    }
}

/// The note editor's cursor is always on one of the rows shown.
pub proof fn law_editor_cursor_on_screen(e: EditorView, width: usize, height: usize)
    ensures
        comment_layout_of(e, width, height).2 < max_usize(height, 1),
{
}

} // verus!
