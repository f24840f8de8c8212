//! The annotation popup as a state machine: browsing a frozen snapshot,
//! selecting a passage and writing a note on it.
use vstd::prelude::*;

use crate::editor::{EditorView, NoteEditor};
use crate::keys::{
    classify_comment_key, classify_source_key, comment_action, source_action, CommentAction,
    KeyEvent, SourceAction,
};
use crate::model::{PaneSnapshot, SnapshotView};
use crate::snapshot::{row_chars, rows_of};
use crate::text::{
    chars_are_blank, chars_of, is_blank, join_with, lemma_join_push, push_char, push_chars,
};
use crate::wrap::{
    add_signed, char_slice, char_slice_of, max_usize, min_usize, mul_isize, row_index_of,
    saturating_add, saturating_add_signed, saturating_mul_isize, saturating_sub, sat_add, sat_sub,
    wrapped, wrapped_row_index, wrapped_rows, WrappedRow,
};

verus! {

/// A character position in the snapshot: row and character column.
#[derive(Debug, Clone, Copy, PartialEq, Eq, PartialOrd, Ord)]
pub struct SourcePosition {
    pub row: usize,
    pub column: usize,
}

#[derive(Debug, Clone, Copy, PartialEq, Eq)]
pub enum VisualKind {
    Character,
    Line,
}

/// What the popup is doing.
#[derive(Debug, Clone, PartialEq, Eq)]
enum Mode {
    Normal,
    Visual { anchor: SourcePosition, kind: VisualKind },
    Comment { source: String, editor: NoteEditor },
}

pub enum ModeView {
    Normal,
    Visual { anchor: SourcePosition, kind: VisualKind },
    Comment { source: Seq<char>, editor: EditorView },
}

/// What the caller should do after an input.
#[derive(Debug, Clone, PartialEq, Eq)]
pub enum InputOutcome {
    Continue,
    SaveComment { source: String, note: String },
    Exit,
}

pub enum OutcomeView {
    Continue,
    SaveComment { source: Seq<char>, note: Seq<char> },
    Exit,
}

impl View for InputOutcome {
    type V = OutcomeView;

    open spec fn view(&self) -> OutcomeView {
        match self {
            InputOutcome::Continue => OutcomeView::Continue,
            InputOutcome::SaveComment { source, note } => OutcomeView::SaveComment { source: source@, note: note@ },
            InputOutcome::Exit => OutcomeView::Exit,
        }
    }
}

/// How storing a note went.
#[derive(Debug, Clone, PartialEq, Eq)]
pub enum SaveReply {
    Stored,
    Refused { message: String },
}

/// The state of the annotation popup.
#[derive(Debug, Clone, PartialEq, Eq)]
pub struct AnnotationState {
    snapshot: PaneSnapshot,
    lines: Vec<Vec<char>>,
    cursor: SourcePosition,
    top: usize,
    viewport_height: usize,
    viewport_width: usize,
    mode: Mode,
    close_after_comment: bool,
    comment_count: usize,
    error: Option<String>,
}

/// The contents of an `AnnotationState`.
pub struct AnnotationView {
    pub snapshot: SnapshotView,
    pub lines: Seq<Seq<char>>,
    pub cursor: SourcePosition,
    pub top: usize,
    pub viewport_height: usize,
    pub viewport_width: usize,
    pub mode: ModeView,
    pub close_after_comment: bool,
    pub comment_count: usize,
    pub error: Option<Seq<char>>,
}

spec fn mode_view(m: Mode) -> ModeView {
    match m {
        Mode::Normal => ModeView::Normal,
        Mode::Visual { anchor, kind } => ModeView::Visual { anchor, kind },
        Mode::Comment { source, editor } => ModeView::Comment { source: source@, editor: editor@ },
    }
}

impl View for AnnotationState {
    type V = AnnotationView;

    closed spec fn view(&self) -> AnnotationView {
        AnnotationView {
            snapshot: self.snapshot@,
            lines: self.lines@.map_values(|l: Vec<char>| l@),
            cursor: self.cursor,
            top: self.top,
            viewport_height: self.viewport_height,
            viewport_width: self.viewport_width,
            mode: mode_view(self.mode),
            close_after_comment: self.close_after_comment,
            comment_count: self.comment_count,
            error: match self.error {
                Some(e) => Some(e@),
                None => None,
            },
        }
    }
}

/// The earlier of two positions first (row, then column).
pub open spec fn ordered(a: SourcePosition, b: SourcePosition) -> (SourcePosition, SourcePosition) {
    if a.row < b.row || (a.row == b.row && a.column <= b.column) {
        (a, b)
    } else {
        (b, a)
    }
}

/// The character columns of row `row` that a selection from `start` to `end`
/// covers, for a line of `count` characters.
pub open spec fn selected_range(
    kind: VisualKind,
    start: SourcePosition,
    end: SourcePosition,
    row: usize,
    count: usize,
) -> (usize, usize) {
    match kind {
        VisualKind::Line => (0, count),
        VisualKind::Character => if start.row == end.row {
            (start.column, sat_add(end.column, 1))
        } else if row == start.row {
            (start.column, count)
        } else if row == end.row {
            (0, sat_add(end.column, 1))
        } else {
            (0, count)
        },
    }
}

pub const EMPTY_SELECTION_ERROR: &'static str = "Select non-empty text before commenting";

impl AnnotationView {
    pub open spec fn wf(self) -> bool {
        &&& self.lines.len() >= 1
        &&& self.cursor.row < self.lines.len()
        &&& self.cursor.column <= self.max_source_column(self.cursor.row)
        &&& self.viewport_height >= 1
        &&& (self.mode matches ModeView::Visual { anchor, .. } ==> anchor.row < self.lines.len())
        &&& (self.mode matches ModeView::Comment { editor, .. } ==> editor.wf())
    }

    /// The cursor stands on a character of the snapshot (or at the start of
    /// an empty line).
    pub open spec fn cursor_in_text(self) -> bool {
        &&& self.cursor.row < self.lines.len()
        &&& self.cursor.column <= self.max_source_column(self.cursor.row)
    }

    /// Once the viewport width is known, the screen row showing the cursor
    /// lies between the first and the last row on screen.
    pub open spec fn cursor_on_screen(self) -> bool {
        self.viewport_width > 0 ==> match row_index_of(
            wrapped(self.lines, self.viewport_width),
            self.cursor.row,
            self.cursor.column,
        ) {
            Some(i) => self.top <= i && i < self.top + self.viewport_height,
            None => false,
        }
    }

    /// The snapshot's sizes fit `usize`, as they do for a state in memory,
    /// and so does the count of its screen rows at `width` columns.
    pub open spec fn sizes_fit(self, width: usize) -> bool {
        &&& self.lines.len() <= usize::MAX
        &&& forall|i: int| 0 <= i < self.lines.len() ==> (#[trigger] self.lines[i]).len() <= usize::MAX
        &&& wrapped(self.lines, width).len() < usize::MAX
    }

    pub open spec fn last_row(self) -> usize {
        (self.lines.len() - 1) as usize
    }

    /// The last character column of a row (zero for an empty or missing row).
    pub open spec fn max_source_column(self, row: usize) -> usize {
        if row < self.lines.len() {
            sat_sub(self.lines[row as int].len() as usize, 1)
        } else {
            0
        }
    }

    pub open spec fn with_cursor(self, cursor: SourcePosition) -> AnnotationView {
        AnnotationView { cursor, ..self }
    }

    pub open spec fn with_mode(self, mode: ModeView) -> AnnotationView {
        AnnotationView { mode, ..self }
    }

    pub open spec fn with_top(self, top: usize) -> AnnotationView {
        AnnotationView { top, ..self }
    }

    pub open spec fn moved_to_row(self, row: usize) -> AnnotationView {
        let r = min_usize(row, self.last_row());
        self.with_cursor(SourcePosition { row: r, column: min_usize(self.cursor.column, self.max_source_column(r)) })
    }

    pub open spec fn moved_vertical(self, delta: isize) -> AnnotationView {
        self.moved_to_row(min_usize(add_signed(self.cursor.row, delta), self.last_row()))
    }

    pub open spec fn moved_page(self, direction: isize) -> AnnotationView {
        self.moved_vertical(mul_isize(direction, max_usize(self.viewport_height, 1) as isize))
    }

    pub open spec fn moved_half_page(self, direction: isize) -> AnnotationView {
        self.moved_vertical(mul_isize(direction, max_usize((self.viewport_height / 2) as usize, 1) as isize))
    }

    pub open spec fn moved_left(self) -> AnnotationView {
        self.with_cursor(SourcePosition { row: self.cursor.row, column: sat_sub(self.cursor.column, 1) })
    }

    pub open spec fn moved_right(self) -> AnnotationView {
        self.with_cursor(
            SourcePosition {
                row: self.cursor.row,
                column: min_usize(sat_add(self.cursor.column, 1), self.max_source_column(self.cursor.row)),
            },
        )
    }

    pub open spec fn moved_line_start(self) -> AnnotationView {
        self.with_cursor(SourcePosition { row: self.cursor.row, column: 0 })
    }

    pub open spec fn moved_line_end(self) -> AnnotationView {
        self.with_cursor(SourcePosition { row: self.cursor.row, column: self.max_source_column(self.cursor.row) })
    }

    /// Scrolled just enough that the cursor's screen row is on screen (no
    /// change before the viewport width is known).
    pub open spec fn cursor_visible(self) -> AnnotationView {
        if self.viewport_width == 0 {
            self
        } else {
            match row_index_of(wrapped(self.lines, self.viewport_width), self.cursor.row, self.cursor.column) {
                None => self,
                Some(i) => if i < self.top {
                    self.with_top(i)
                } else if i >= sat_add(self.top, self.viewport_height) {
                    self.with_top(sat_sub(sat_add(i, 1), self.viewport_height))
                } else {
                    self
                },
            }
        }
    }

    /// The source position shown at the top of the screen.
    pub open spec fn top_position(self) -> SourcePosition {
        if self.viewport_width == 0 {
            SourcePosition { row: self.top, column: 0 }
        } else {
            let rows = wrapped(self.lines, self.viewport_width);
            if self.top < rows.len() {
                SourcePosition { row: rows[self.top as int].source_row, column: rows[self.top as int].start_column }
            } else {
                SourcePosition { row: 0, column: 0 }
            }
        }
    }

    /// A new viewport size: at least one row and column; a new width keeps
    /// the same source position at the top; the cursor stays visible.
    pub open spec fn with_viewport(self, height: usize, width: usize) -> AnnotationView {
        let w = max_usize(width, 1);
        let v = AnnotationView { viewport_height: max_usize(height, 1), ..self };
        let v = if self.viewport_width != w {
            let p = self.top_position();
            AnnotationView {
                viewport_width: w,
                top: match row_index_of(wrapped(self.lines, w), p.row, p.column) {
                    Some(i) => i,
                    None => 0,
                },
                ..v
            }
        } else {
            v
        };
        v.cursor_visible()
    }

    /// The text of the active selection, rows joined by newlines (empty when
    /// nothing is selected).
    pub open spec fn selected_text(self) -> Seq<char> {
        match self.mode {
            ModeView::Visual { anchor, kind } => {
                let (start, end) = ordered(anchor, self.cursor);
                join_with(
                    Seq::new(
                        (end.row - start.row + 1) as nat,
                        |k: int|
                            {
                                let row = (start.row + k) as usize;
                                let line = self.lines[row as int];
                                let (from, to) = selected_range(kind, start, end, row, line.len() as usize);
                                char_slice_of(line, from, to)
                            },
                    ),
                    seq!['\n'],
                )
            },
            _ => Seq::empty(),
        }
    }

    /// The selected columns of a row, for highlighting (an empty line shows
    /// one highlighted cell).
    pub open spec fn selected_columns(self, row: usize) -> Option<(usize, usize)> {
        match self.mode {
            ModeView::Visual { anchor, kind } => {
                let (start, end) = ordered(anchor, self.cursor);
                if row < start.row || row > end.row {
                    None
                } else {
                    let count = self.lines[row as int].len() as usize;
                    if count == 0 {
                        Some((0usize, 1usize))
                    } else {
                        Some(selected_range(kind, start, end, row, count))
                    }
                }
            },
            _ => None,
        }
    }

    /// What a key does while browsing.
    pub open spec fn source_step(self, action: SourceAction) -> (AnnotationView, OutcomeView) {
        match action {
            SourceAction::Escape => if self.mode is Visual {
                (self.with_mode(ModeView::Normal), OutcomeView::Continue)
            } else {
                (self, OutcomeView::Exit)
            },
            SourceAction::Exit => (self, OutcomeView::Exit),
            SourceAction::ToggleVisual => if self.mode is Visual {
                (self.with_mode(ModeView::Normal), OutcomeView::Continue)
            } else {
                (
                    self.with_mode(ModeView::Visual { anchor: self.cursor, kind: VisualKind::Character }),
                    OutcomeView::Continue,
                )
            },
            SourceAction::LineVisual => (
                self.with_mode(ModeView::Visual { anchor: self.cursor, kind: VisualKind::Line }),
                OutcomeView::Continue,
            ),
            SourceAction::Comment => {
                let source = self.selected_text();
                if is_blank(source) {
                    (AnnotationView { error: Some(EMPTY_SELECTION_ERROR@), ..self }, OutcomeView::Continue)
                } else {
                    (
                        self.with_mode(
                            ModeView::Comment {
                                source,
                                editor: EditorView { lines: seq![Seq::<char>::empty()], row: 0, column: 0 },
                            },
                        ),
                        OutcomeView::Continue,
                    )
                }
            },
            SourceAction::Vertical(d) => (self.moved_vertical(d).cursor_visible(), OutcomeView::Continue),
            SourceAction::Left => (self.moved_left().cursor_visible(), OutcomeView::Continue),
            SourceAction::Right => (self.moved_right().cursor_visible(), OutcomeView::Continue),
            SourceAction::LineStart => (self.moved_line_start().cursor_visible(), OutcomeView::Continue),
            SourceAction::LineEnd => (self.moved_line_end().cursor_visible(), OutcomeView::Continue),
            SourceAction::Page(d) => (self.moved_page(d).cursor_visible(), OutcomeView::Continue),
            SourceAction::HalfPage(d) => (self.moved_half_page(d).cursor_visible(), OutcomeView::Continue),
            SourceAction::FirstRow => (self.moved_to_row(0).cursor_visible(), OutcomeView::Continue),
            SourceAction::LastRow => (self.moved_to_row(self.last_row()).cursor_visible(), OutcomeView::Continue),
            SourceAction::Ignore => (self, OutcomeView::Continue),
        }
    }

    /// What a key does while writing a note.
    pub open spec fn comment_step(self, action: CommentAction) -> (AnnotationView, OutcomeView) {
        match self.mode {
            ModeView::Comment { source, editor } => match action {
                CommentAction::Escape => if self.close_after_comment {
                    (self, OutcomeView::Exit)
                } else {
                    (self.with_mode(ModeView::Normal), OutcomeView::Continue)
                },
                CommentAction::Save => (self, OutcomeView::SaveComment { source, note: editor.text() }),
                CommentAction::Ignore => (self, OutcomeView::Continue),
                _ => (
                    self.with_mode(ModeView::Comment { source, editor: edited(editor, action) }),
                    OutcomeView::Continue,
                ),
            },
            _ => (self, OutcomeView::Continue),
        }
    }

    /// What a key event does: releases are ignored; a press clears the error
    /// message, then acts on the note while commenting and on the snapshot
    /// otherwise.
    pub open spec fn key_step(self, key: KeyEvent) -> (AnnotationView, OutcomeView) {
        if !key.is_press {
            (self, OutcomeView::Continue)
        } else {
            let v = AnnotationView { error: None, ..self };
            if v.mode is Comment {
                v.comment_step(comment_action(key))
            } else {
                v.source_step(source_action(key, v.mode is Visual))
            }
        }
    }
}

/// The editor after an editing action.
pub open spec fn edited(e: EditorView, action: CommentAction) -> EditorView {
    match action {
        CommentAction::Newline => e.with_newline(),
        CommentAction::Left => e.moved_left(),
        CommentAction::Right => e.moved_right(),
        CommentAction::Up => e.moved_vertical(-1isize),
        CommentAction::Down => e.moved_vertical(1isize),
        CommentAction::Home => e.moved_home(),
        CommentAction::End => e.moved_end(),
        CommentAction::Backspace => e.after_backspace(),
        CommentAction::Delete => e.after_delete(),
        CommentAction::Insert(c) => e.with_char(c),
        _ => e,
    }
}

/// The state a snapshot opens in: browsing, its viewport's last row under
/// the cursor, at the snapshot's initial top.
pub open spec fn initial_view(snapshot: SnapshotView, comment_count: usize) -> AnnotationView {
    let lines = rows_of(snapshot.text);
    let last = (lines.len() - 1) as usize;
    let top = min_usize(snapshot.initial_top, last);
    AnnotationView {
        snapshot,
        lines,
        cursor: SourcePosition { row: min_usize(sat_add(top, sat_sub(snapshot.viewport_rows, 1)), last), column: 0 },
        top,
        viewport_height: 1,
        viewport_width: 0,
        mode: ModeView::Normal,
        close_after_comment: false,
        comment_count,
        error: None,
    }
}

impl AnnotationState {
    pub open spec fn wf(&self) -> bool {
        self@.wf()
    }

    /// Opens a snapshot for browsing.
    pub fn new(snapshot: PaneSnapshot, comment_count: usize) -> (s: Self)
        ensures
            s@ == initial_view(snapshot@, comment_count),
            s.wf(),
    {
        let lines = row_chars(&chars_of(snapshot.text.as_str()));
        proof {
            crate::snapshot::lemma_rows_nonempty(snapshot.text@);
        }
        let last = lines.len() - 1;
        let top = if snapshot.initial_top < last { snapshot.initial_top } else { last };
        let below = saturating_add(top, saturating_sub(snapshot.viewport_rows, 1));
        let cursor_row = if below < last { below } else { last };
        AnnotationState {
            snapshot,
            lines,
            cursor: SourcePosition { row: cursor_row, column: 0 },
            top,
            viewport_height: 1,
            viewport_width: 0,
            mode: Mode::Normal,
            close_after_comment: false,
            comment_count,
            error: None,
        }
    }

    /// Opens a snapshot straight in the note editor, commenting on the whole
    /// snapshot text, and closing after the note is saved or cancelled.
    pub fn new_inline(snapshot: PaneSnapshot, comment_count: usize) -> (s: Self)
        ensures
            s@ == (AnnotationView {
                mode: ModeView::Comment {
                    source: snapshot.text@,
                    editor: EditorView { lines: seq![Seq::<char>::empty()], row: 0, column: 0 },
                },
                close_after_comment: true,
                ..initial_view(snapshot@, comment_count)
            }),
            s.wf(),
    {
        let source = snapshot.text.clone();
        let mut state = Self::new(snapshot, comment_count);
        state.mode = Mode::Comment { source, editor: NoteEditor::new() };
        state.close_after_comment = true;
        state
    }

    pub fn cursor(&self) -> (c: SourcePosition)
        ensures
            c == self@.cursor,
    {
        self.cursor
    }

    pub fn top(&self) -> (t: usize)
        ensures
            t == self@.top,
    {
        self.top
    }

    pub fn comment_count(&self) -> (n: usize)
        ensures
            n == self@.comment_count,
    {
        self.comment_count
    }

    pub fn error(&self) -> (e: Option<&str>)
        ensures
            match e {
                Some(s) => self@.error == Some(s@),
                None => self@.error is None,
            },
    {
        match &self.error {
            Some(e) => Some(e.as_str()),
            None => None,
        }
    }

    pub fn is_commenting(&self) -> (r: bool)
        ensures
            r == (self@.mode is Comment),
    {
        match self.mode {
            Mode::Comment { .. } => true,
            _ => false,
        }
    }

    pub fn is_selecting(&self) -> (r: bool)
        ensures
            r == (self@.mode is Visual),
    {
        match self.mode {
            Mode::Visual { .. } => true,
            _ => false,
        }
    }

    /// Whether the popup closes once the note is saved.
    pub fn exits_after_save(&self) -> (r: bool)
        ensures
            r == self@.close_after_comment,
    {
        self.close_after_comment
    }

    pub fn snapshot(&self) -> (s: &PaneSnapshot)
        ensures
            s@ == self@.snapshot,
    {
        &self.snapshot
    }

    /// The snapshot's lines, as character vectors.
    pub fn lines(&self) -> (l: &Vec<Vec<char>>)
        ensures
            l@.map_values(|x: Vec<char>| x@) == self@.lines,
    {
        &self.lines
    }

    pub fn viewport_width(&self) -> (w: usize)
        ensures
            w == self@.viewport_width,
    {
        self.viewport_width
    }

    /// The note being written, with its source, while commenting.
    pub fn comment(&self) -> (c: Option<(&String, &NoteEditor)>)
        ensures
            match self@.mode {
                ModeView::Comment { source, editor } => c matches Some((s, e)) && s@ == source && e@ == editor,
                _ => c is None,
            },
    {
        match &self.mode {
            Mode::Comment { source, editor } => Some((source, editor)),
            _ => None,
        }
    }

    pub fn set_error(&mut self, error: String)
        ensures
            final(self)@ == (AnnotationView { error: Some(error@), ..old(self)@ }),
    {
        self.error = Some(error);
    }

    /// After the note of a `SaveComment` was stored or refused: whether the
    /// popup closes now. A stored note closes a popup that closes after
    /// saving; otherwise the caller reports the new count with
    /// `comment_saved`. A refusal is shown and the note stays open.
    pub fn after_save(&mut self, reply: SaveReply) -> (close: bool)
        requires
            old(self).wf(),
        ensures
            reply is Stored ==> close == old(self)@.close_after_comment && final(self)@ == old(self)@,
            reply matches SaveReply::Refused { message } ==> !close && final(self)@ == (AnnotationView {
                error: Some(message@),
                ..old(self)@
            }),
            final(self).wf(),
    {
        match reply {
            SaveReply::Stored => self.close_after_comment,
            SaveReply::Refused { message } => {
                self.error = Some(message);
                false
            },
        }
    }

    /// A note was saved and `count` comments are now collected: back to browsing.
    pub fn comment_saved(&mut self, count: usize)
        requires
            old(self).wf(),
        ensures
            final(self)@ == (AnnotationView {
                comment_count: count,
                mode: ModeView::Normal,
                error: None,
                ..old(self)@
            }),
            final(self).wf(),
    {
        self.comment_count = count;
        self.mode = Mode::Normal;
        self.error = None;
    }

    fn max_source_column(&self, row: usize) -> (c: usize)
        requires
            self.wf(),
        ensures
            c == self@.max_source_column(row),
    {
        if row < self.lines.len() {
            saturating_sub(self.lines[row].len(), 1)
        } else {
            0
        }
    }

    fn move_to_row(&mut self, row: usize)
        requires
            old(self).wf(),
        ensures
            final(self)@ == old(self)@.moved_to_row(row),
            final(self).wf(),
    {
        let last = self.lines.len() - 1;
        let r = if row < last { row } else { last };
        let max = self.max_source_column(r);
        let column = if self.cursor.column < max { self.cursor.column } else { max };
        self.cursor = SourcePosition { row: r, column };
    }

    fn move_vertical(&mut self, delta: isize)
        requires
            old(self).wf(),
        ensures
            final(self)@ == old(self)@.moved_vertical(delta),
            final(self).wf(),
    {
        let row = saturating_add_signed(self.cursor.row, delta);
        let last = self.lines.len() - 1;
        self.move_to_row(if row < last { row } else { last });
    }

    fn move_page(&mut self, direction: isize)
        requires
            old(self).wf(),
        ensures
            final(self)@ == old(self)@.moved_page(direction),
            final(self).wf(),
    {
        let distance = if self.viewport_height > 1 { self.viewport_height } else { 1 };
        self.move_vertical(saturating_mul_isize(direction, distance as isize));
    }

    fn move_half_page(&mut self, direction: isize)
        requires
            old(self).wf(),
        ensures
            final(self)@ == old(self)@.moved_half_page(direction),
            final(self).wf(),
    {
        let half = self.viewport_height / 2;
        let distance = if half > 1 { half } else { 1 };
        self.move_vertical(saturating_mul_isize(direction, distance as isize));
    }

    fn move_left(&mut self)
        requires
            old(self).wf(),
        ensures
            final(self)@ == old(self)@.moved_left(),
            final(self).wf(),
    {
        self.cursor = SourcePosition { row: self.cursor.row, column: saturating_sub(self.cursor.column, 1) };
    }

    fn move_right(&mut self)
        requires
            old(self).wf(),
        ensures
            final(self)@ == old(self)@.moved_right(),
            final(self).wf(),
    {
        let max = self.max_source_column(self.cursor.row);
        let next = saturating_add(self.cursor.column, 1);
        self.cursor = SourcePosition { row: self.cursor.row, column: if next < max { next } else { max } };
    }

    fn move_line_start(&mut self)
        requires
            old(self).wf(),
        ensures
            final(self)@ == old(self)@.moved_line_start(),
            final(self).wf(),
    {
        self.cursor = SourcePosition { row: self.cursor.row, column: 0 };
    }

    fn move_line_end(&mut self)
        requires
            old(self).wf(),
        ensures
            final(self)@ == old(self)@.moved_line_end(),
            final(self).wf(),
    {
        let max = self.max_source_column(self.cursor.row);
        self.cursor = SourcePosition { row: self.cursor.row, column: max };
    }

    fn ensure_cursor_visible(&mut self)
        requires
            old(self).wf(),
        ensures
            final(self)@ == old(self)@.cursor_visible(),
            final(self).wf(),
    {
        if self.viewport_width == 0 {
            return;
        }
        let rows = wrapped_rows(&self.lines, self.viewport_width);
        match wrapped_row_index(&rows, self.cursor.row, self.cursor.column) {
            None => {},
            Some(i) => {
                if i < self.top {
                    self.top = i;
                } else if i >= saturating_add(self.top, self.viewport_height) {
                    self.top = saturating_sub(saturating_add(i, 1), self.viewport_height);
                }
            },
        }
    }

    /// Sets the screen size available to the snapshot.
    pub fn set_viewport(&mut self, height: usize, width: usize)
        requires
            old(self).wf(),
        ensures
            final(self)@ == old(self)@.with_viewport(height, width),
            final(self).wf(),
    {
        self.viewport_height = if height > 1 { height } else { 1 };
        let width = if width > 1 { width } else { 1 };
        if self.viewport_width != width {
            let top = if self.viewport_width == 0 {
                SourcePosition { row: self.top, column: 0 }
            } else {
                let rows = wrapped_rows(&self.lines, self.viewport_width);
                if self.top < rows.len() {
                    SourcePosition { row: rows[self.top].source_row, column: rows[self.top].start_column }
                } else {
                    SourcePosition { row: 0, column: 0 }
                }
            };
            self.viewport_width = width;
            let rows = wrapped_rows(&self.lines, width);
            self.top = match wrapped_row_index(&rows, top.row, top.column) {
                Some(i) => i,
                None => 0,
            };
        }
        self.ensure_cursor_visible();
    }

    /// The text of the active selection, rows joined by newlines.
    pub fn selected_text(&self) -> (s: String)
        requires
            self.wf(),
        ensures
            s@ == self@.selected_text(),
    {
        let (anchor, kind) = match self.mode {
            Mode::Visual { anchor, kind } => (anchor, kind),
            _ => {
                return String::new();
            },
        };
        let cursor = self.cursor;
        let (start, end) = if anchor.row < cursor.row || (anchor.row == cursor.row && anchor.column
            <= cursor.column) {
            (anchor, cursor)
        } else {
            (cursor, anchor)
        };
        let ghost v = self@;
        let ghost pieces = Seq::new(
            (end.row - start.row + 1) as nat,
            |k: int|
                {
                    let row = (start.row + k) as usize;
                    let line = v.lines[row as int];
                    let (from, to) = selected_range(kind, start, end, row, line.len() as usize);
                    char_slice_of(line, from, to)
                },
        );
        let mut out = String::new();
        let mut row = start.row;
        let count_lines = self.lines.len();
        while row <= end.row
            invariant
                self.wf(),
                count_lines == self.lines@.len(),
                end.row < count_lines,
                v == self@,
                start.row <= row <= end.row + 1,
                end.row < v.lines.len(),
                pieces.len() == end.row - start.row + 1,
                forall|k: int| 0 <= k < pieces.len() ==> #[trigger] pieces[k] == ({
                    let row = (start.row + k) as usize;
                    let line = v.lines[row as int];
                    let (from, to) = selected_range(kind, start, end, row, line.len() as usize);
                    char_slice_of(line, from, to)
                }),
                out@ == join_with(pieces.take(row - start.row), seq!['\n']),
            decreases end.row + 1 - row,
        {
            let line = &self.lines[row];
            let count = line.len();
            let (from, to) = match kind {
                VisualKind::Line => (0, count),
                VisualKind::Character => if start.row == end.row {
                    (start.column, saturating_add(end.column, 1))
                } else if row == start.row {
                    (start.column, count)
                } else if row == end.row {
                    (0, saturating_add(end.column, 1))
                } else {
                    (0, count)
                },
            };
            let piece = char_slice(line, from, to);
            let ghost before = out@;
            let ghost k = row - start.row;
            if row > start.row {
                push_char(&mut out, '\n');
            }
            push_chars(&mut out, &piece);
            proof {
                assert(piece@ == pieces[k]);
                assert(pieces.take(k + 1) =~= pieces.take(k).push(pieces[k]));
                if k > 0 {
                    lemma_join_push(pieces.take(k), seq!['\n'], pieces[k]);
                    assert(out@ =~= before + seq!['\n'] + pieces[k]);
                } else {
                    assert(pieces.take(1) =~= seq![pieces[0]]);
                    assert(out@ =~= pieces[0]);
                }
            }
            row += 1;
        }
        proof {
            assert(pieces.take(pieces.len() as int) =~= pieces);
            assert(ordered(anchor, cursor) == (start, end));
            let spec_pieces = Seq::new(
                (end.row - start.row + 1) as nat,
                |k: int|
                    {
                        let row = (start.row + k) as usize;
                        let line = v.lines[row as int];
                        let (from, to) = selected_range(kind, start, end, row, line.len() as usize);
                        char_slice_of(line, from, to)
                    },
            );
            assert(spec_pieces =~= pieces);
        }
        out
    }

    /// The selected columns of a row, for highlighting.
    pub fn selected_columns(&self, row: usize) -> (r: Option<(usize, usize)>)
        requires
            self.wf(),
        ensures
            r == self@.selected_columns(row),
    {
        let (anchor, kind) = match self.mode {
            Mode::Visual { anchor, kind } => (anchor, kind),
            _ => {
                return None;
            },
        };
        let cursor = self.cursor;
        let (start, end) = if anchor.row < cursor.row || (anchor.row == cursor.row && anchor.column
            <= cursor.column) {
            (anchor, cursor)
        } else {
            (cursor, anchor)
        };
        if row < start.row || row > end.row {
            return None;
        }
        let count = self.lines[row].len();
        if count == 0 {
            return Some((0, 1));
        }
        Some(
            match kind {
                VisualKind::Line => (0, count),
                VisualKind::Character => if start.row == end.row {
                    (start.column, saturating_add(end.column, 1))
                } else if row == start.row {
                    (start.column, count)
                } else if row == end.row {
                    (0, saturating_add(end.column, 1))
                } else {
                    (0, count)
                },
            },
        )
    }

    fn handle_source_key(&mut self, key: KeyEvent) -> (out: InputOutcome)
        requires
            old(self).wf(),
            !(old(self)@.mode is Comment),
        ensures
            (final(self)@, out@) == old(self)@.source_step(source_action(key, old(self)@.mode is Visual)),
            final(self).wf(),
    {
        let visual = self.is_selecting();
        match classify_source_key(key, visual) {
            SourceAction::Escape => {
                if visual {
                    self.mode = Mode::Normal;
                    InputOutcome::Continue
                } else {
                    InputOutcome::Exit
                }
            },
            SourceAction::Exit => InputOutcome::Exit,
            SourceAction::ToggleVisual => {
                if visual {
                    self.mode = Mode::Normal;
                } else {
                    self.mode = Mode::Visual { anchor: self.cursor, kind: VisualKind::Character };
                }
                InputOutcome::Continue
            },
            SourceAction::LineVisual => {
                self.mode = Mode::Visual { anchor: self.cursor, kind: VisualKind::Line };
                InputOutcome::Continue
            },
            SourceAction::Comment => {
                let source = self.selected_text();
                if chars_are_blank(&chars_of(source.as_str())) {
                    self.error = Some(EMPTY_SELECTION_ERROR.to_string());
                } else {
                    self.mode = Mode::Comment { source, editor: NoteEditor::new() };
                }
                InputOutcome::Continue
            },
            SourceAction::Vertical(d) => {
                self.move_vertical(d);
                self.ensure_cursor_visible();
                InputOutcome::Continue
            },
            SourceAction::Left => {
                self.move_left();
                self.ensure_cursor_visible();
                InputOutcome::Continue
            },
            SourceAction::Right => {
                self.move_right();
                self.ensure_cursor_visible();
                InputOutcome::Continue
            },
            SourceAction::LineStart => {
                self.move_line_start();
                self.ensure_cursor_visible();
                InputOutcome::Continue
            },
            SourceAction::LineEnd => {
                self.move_line_end();
                self.ensure_cursor_visible();
                InputOutcome::Continue
            },
            SourceAction::Page(d) => {
                self.move_page(d);
                self.ensure_cursor_visible();
                InputOutcome::Continue
            },
            SourceAction::HalfPage(d) => {
                self.move_half_page(d);
                self.ensure_cursor_visible();
                InputOutcome::Continue
            },
            SourceAction::FirstRow => {
                self.move_to_row(0);
                self.ensure_cursor_visible();
                InputOutcome::Continue
            },
            SourceAction::LastRow => {
                let last = self.lines.len() - 1;
                self.move_to_row(last);
                self.ensure_cursor_visible();
                InputOutcome::Continue
            },
            SourceAction::Ignore => InputOutcome::Continue,
        }
    }

    fn handle_comment_key(&mut self, key: KeyEvent) -> (out: InputOutcome)
        requires
            old(self).wf(),
            old(self)@.mode is Comment,
        ensures
            (final(self)@, out@) == old(self)@.comment_step(comment_action(key)),
            final(self).wf(),
    {
        let action = classify_comment_key(key);
        match action {
            CommentAction::Escape => {
                if self.close_after_comment {
                    return InputOutcome::Exit;
                }
                self.mode = Mode::Normal;
                return InputOutcome::Continue;
            },
            CommentAction::Save => {
                return match &self.mode {
                    Mode::Comment { source, editor } => InputOutcome::SaveComment {
                        source: source.clone(),
                        note: editor.text(),
                    },
                    _ => InputOutcome::Continue,
                };
            },
            CommentAction::Ignore => {
                return InputOutcome::Continue;
            },
            _ => {},
        }
        let mut mode = Mode::Normal;
        std::mem::swap(&mut mode, &mut self.mode);
        match mode {
            Mode::Comment { source, mut editor } => {
                match action {
                    CommentAction::Newline => editor.insert_newline(),
                    CommentAction::Left => editor.move_left(),
                    CommentAction::Right => editor.move_right(),
                    CommentAction::Up => editor.move_vertical(-1isize),
                    CommentAction::Down => editor.move_vertical(1isize),
                    CommentAction::Home => editor.move_home(),
                    CommentAction::End => editor.move_end(),
                    CommentAction::Backspace => editor.backspace(),
                    CommentAction::Delete => editor.delete(),
                    CommentAction::Insert(c) => editor.insert_char(c),
                    _ => {},
                }
                self.mode = Mode::Comment { source, editor };
            },
            other => {
                self.mode = other;
            },
        }
        InputOutcome::Continue
    }

    /// Handles a key event.
    pub fn handle_key(&mut self, key: KeyEvent) -> (out: InputOutcome)
        requires
            old(self).wf(),
        ensures
            (final(self)@, out@) == old(self)@.key_step(key),
            final(self).wf(),
    {
        if !key.is_press {
            return InputOutcome::Continue;
        }
        self.error = None;
        if self.is_commenting() {
            return self.handle_comment_key(key);
        }
        self.handle_source_key(key)
    }

    /// Pasted text goes into the note while commenting; it is ignored otherwise.
    pub fn handle_paste(&mut self, text: &str)
        requires
            old(self).wf(),
        ensures
            final(self)@ == match old(self)@.mode {
                ModeView::Comment { source, editor } => AnnotationView {
                    mode: ModeView::Comment { source, editor: editor.with_text(text@) },
                    error: None,
                    ..old(self)@
                },
                _ => old(self)@,
            },
            final(self).wf(),
    {
        if !self.is_commenting() {
            return;
        }
        let mut mode = Mode::Normal;
        std::mem::swap(&mut mode, &mut self.mode);
        match mode {
            Mode::Comment { source, mut editor } => {
                editor.insert_text(text);
                self.mode = Mode::Comment { source, editor };
            },
            other => {
                self.mode = other;
            },
        }
        self.error = None;
    }
}

/// After scrolling to the cursor, the screen row that shows the cursor lies
/// between the first and the last row on screen; only the top row changes.
pub proof fn law_cursor_visible(v: AnnotationView)
    requires
        v.viewport_width > 0,
        v.viewport_height >= 1,
        wrapped(v.lines, v.viewport_width).len() < usize::MAX,
        row_index_of(wrapped(v.lines, v.viewport_width), v.cursor.row, v.cursor.column) is Some,
    ensures
        ({
            let i = row_index_of(wrapped(v.lines, v.viewport_width), v.cursor.row, v.cursor.column)->Some_0;
            let c = v.cursor_visible();
            &&& c.top <= i
            &&& i < c.top + c.viewport_height
            &&& c == v.with_top(c.top)
        }),
{
    let rows = wrapped(v.lines, v.viewport_width);
    crate::wrap::lemma_row_index_of(rows, v.cursor.row, v.cursor.column);
    assert(v.with_top(v.top) == v);
}

/// A key release changes nothing and asks for nothing.
pub proof fn law_release_is_ignored(v: AnnotationView, key: KeyEvent)
    requires
        !key.is_press,
    ensures
        v.key_step(key) == (v, OutcomeView::Continue),
{
}

/// Every move while browsing ends by scrolling to the cursor, and wherever the
/// cursor may stand (on a character, or at the start of an empty line) that
/// puts it on screen.
pub proof fn law_cursor_on_screen(v: AnnotationView)
    requires
        v.viewport_width > 0,
        v.viewport_height >= 1,
        v.lines.len() <= usize::MAX,
        forall|i: int| 0 <= i < v.lines.len() ==> (#[trigger] v.lines[i]).len() <= usize::MAX,
        wrapped(v.lines, v.viewport_width).len() < usize::MAX,
        v.cursor.row < v.lines.len(),
        v.cursor.column < v.lines[v.cursor.row as int].len() || (v.lines[v.cursor.row as int].len() == 0
            && v.cursor.column == 0),
    ensures
        row_index_of(wrapped(v.lines, v.viewport_width), v.cursor.row, v.cursor.column) is Some,
        ({
            let i = row_index_of(wrapped(v.lines, v.viewport_width), v.cursor.row, v.cursor.column)->Some_0;
            let c = v.cursor_visible();
            c.top <= i && i < c.top + c.viewport_height
        }),
{
    assert(wrapped(v.lines, v.viewport_width) == crate::wrap::wrap_lines(v.lines, v.viewport_width));
    crate::wrap::lemma_position_shown(v.lines, v.viewport_width, v.cursor.row, v.cursor.column);
    law_cursor_visible(v);
}

/// A line selection takes whole lines: from the first selected row to the
/// last, joined by newlines.
pub proof fn law_line_selection_takes_whole_lines(v: AnnotationView, anchor: SourcePosition)
    requires
        v.mode == (ModeView::Visual { anchor, kind: VisualKind::Line }),
        v.cursor.row < v.lines.len(),
        anchor.row < v.lines.len(),
        forall|i: int| 0 <= i < v.lines.len() ==> (#[trigger] v.lines[i]).len() <= usize::MAX,
    ensures
        ({
            let (start, end) = ordered(anchor, v.cursor);
            v.selected_text() == join_with(v.lines.subrange(start.row as int, end.row + 1), seq!['\n'])
        }),
{
    let (start, end) = ordered(anchor, v.cursor);
    let pieces = Seq::new(
        (end.row - start.row + 1) as nat,
        |k: int|
            {
                let row = (start.row + k) as usize;
                let line = v.lines[row as int];
                let (from, to) = selected_range(VisualKind::Line, start, end, row, line.len() as usize);
                char_slice_of(line, from, to)
            },
    );
    assert forall|k: int| 0 <= k < pieces.len() implies #[trigger] pieces[k] == v.lines.subrange(
        start.row as int,
        end.row + 1,
    )[k] by {
        let line = v.lines[start.row + k];
        assert(line.len() <= usize::MAX);
        assert(line.subrange(0, line.len() as int) =~= line);
    }
    assert(pieces =~= v.lines.subrange(start.row as int, end.row + 1));
}

/// Scrolling to a cursor that stands in the text puts it on screen and
/// moves nothing but the top row.
pub proof fn lemma_scroll_lands(m: AnnotationView)
    requires
        m.cursor_in_text(),
        m.viewport_height >= 1,
        m.viewport_width > 0 ==> m.sizes_fit(m.viewport_width),
    ensures
        m.cursor_visible().cursor_in_text(),
        m.cursor_visible().cursor_on_screen(),
        m.cursor_visible() == m.with_top(m.cursor_visible().top),
{
    if m.viewport_width > 0 {
        law_cursor_on_screen(m);
        law_cursor_visible(m);
    } else {
        assert(m.with_top(m.top) == m);
    }
}

/// A move while browsing keeps the cursor in the text.
proof fn lemma_moves_stay_in_text(v: AnnotationView, action: SourceAction)
    requires
        v.wf(),
        v.cursor_in_text(),
        v.lines.len() <= usize::MAX,
    ensures
        (match action {
            SourceAction::Vertical(d) => v.moved_vertical(d),
            SourceAction::Left => v.moved_left(),
            SourceAction::Right => v.moved_right(),
            SourceAction::LineStart => v.moved_line_start(),
            SourceAction::LineEnd => v.moved_line_end(),
            SourceAction::Page(d) => v.moved_page(d),
            SourceAction::HalfPage(d) => v.moved_half_page(d),
            SourceAction::FirstRow => v.moved_to_row(0),
            SourceAction::LastRow => v.moved_to_row(v.last_row()),
            _ => v,
        }).cursor_in_text(),
{
}

/// The invariant the popup keeps: the cursor stands in the text and, once
/// the viewport is known, on screen.
pub open spec fn cursor_kept(v: AnnotationView) -> bool {
    &&& v.cursor_in_text()
    &&& v.cursor_on_screen()
}

proof fn lemma_source_step_keeps(u: AnnotationView, a: SourceAction)
    requires
        u.wf(),
        cursor_kept(u),
        u.viewport_height >= 1,
        u.viewport_width > 0 ==> u.sizes_fit(u.viewport_width),
        u.lines.len() <= usize::MAX,
    ensures
        cursor_kept(u.source_step(a).0),
        u.source_step(a).0.viewport_height == u.viewport_height,
        u.source_step(a).0.viewport_width == u.viewport_width,
{
    lemma_moves_stay_in_text(u, a);
    match a {
        SourceAction::Vertical(d) => lemma_scroll_lands(u.moved_vertical(d)),
        SourceAction::Left => lemma_scroll_lands(u.moved_left()),
        SourceAction::Right => lemma_scroll_lands(u.moved_right()),
        SourceAction::LineStart => lemma_scroll_lands(u.moved_line_start()),
        SourceAction::LineEnd => lemma_scroll_lands(u.moved_line_end()),
        SourceAction::Page(d) => lemma_scroll_lands(u.moved_page(d)),
        SourceAction::HalfPage(d) => lemma_scroll_lands(u.moved_half_page(d)),
        SourceAction::FirstRow => lemma_scroll_lands(u.moved_to_row(0)),
        SourceAction::LastRow => lemma_scroll_lands(u.moved_to_row(u.last_row())),
        _ => {
            let w = u.source_step(a).0;
            assert(w.cursor == u.cursor && w.top == u.top && w.lines == u.lines && w.viewport_width
                == u.viewport_width && w.viewport_height == u.viewport_height);
        },
    }
}

proof fn lemma_comment_step_keeps(u: AnnotationView, a: CommentAction)
    requires
        cursor_kept(u),
    ensures
        cursor_kept(u.comment_step(a).0),
        u.comment_step(a).0.viewport_height == u.viewport_height,
        u.comment_step(a).0.viewport_width == u.viewport_width,
{
    let w = u.comment_step(a).0;
    assert(w.cursor == u.cursor && w.top == u.top && w.lines == u.lines && w.viewport_width
        == u.viewport_width && w.viewport_height == u.viewport_height);
}

/// After any key, the cursor still stands in the snapshot text and, once
/// the viewport is known, on screen: moves scroll to it, and nothing else
/// moves it or the top row.
pub proof fn law_keys_keep_cursor_in_text_and_on_screen(v: AnnotationView, key: KeyEvent)
    requires
        v.wf(),
        v.cursor_on_screen(),
        v.viewport_width > 0 ==> v.sizes_fit(v.viewport_width),
        v.lines.len() <= usize::MAX,
    ensures
        v.key_step(key).0.cursor_in_text(),
        v.key_step(key).0.cursor_on_screen(),
        v.key_step(key).0.viewport_height == v.viewport_height,
        v.key_step(key).0.viewport_width == v.viewport_width,
{
    if key.is_press {
        let u = AnnotationView { error: None, ..v };
        assert(cursor_kept(u));
        if u.mode is Comment {
            lemma_comment_step_keeps(u, comment_action(key));
        } else {
            lemma_source_step_keeps(u, source_action(key, u.mode is Visual));
        }
    }
}

/// A new screen size keeps the cursor where it is and puts it on screen,
/// and giving the same size again changes nothing.
#[verifier::spinoff_prover]
pub proof fn law_set_viewport_settles(v: AnnotationView, height: usize, width: usize)
    requires
        v.wf(),
        v.sizes_fit(max_usize(width, 1)),
    ensures
        v.with_viewport(height, width).cursor == v.cursor,
        v.with_viewport(height, width).cursor_in_text(),
        v.with_viewport(height, width).cursor_on_screen(),
        v.with_viewport(height, width).with_viewport(height, width) == v.with_viewport(height, width),
{
    let w = max_usize(width, 1);
    let h = max_usize(height, 1);
    let u0 = AnnotationView { viewport_height: h, ..v };
    let u = if v.viewport_width != w {
        let p = v.top_position();
        AnnotationView {
            viewport_width: w,
            top: match row_index_of(wrapped(v.lines, w), p.row, p.column) {
                Some(i) => i,
                None => 0,
            },
            ..u0
        }
    } else {
        u0
    };
    assert(v.with_viewport(height, width) == u.cursor_visible());
    lemma_scroll_lands(u);
    let s = u.cursor_visible();
    let rows = wrapped(s.lines, w);
    crate::wrap::lemma_row_index_of(rows, s.cursor.row, s.cursor.column);
    let s0 = AnnotationView { viewport_height: h, ..s };
    assert(s0 == s);
    assert(s.viewport_width == w);
    assert(s.cursor_visible() == s);
}

/// Pasting into the empty note of a comment, then pressing Enter, saves the
/// pasted text as the note: line endings made uniform, control characters
/// other than newline and tab dropped.
pub proof fn law_pasted_text_becomes_the_note(v: AnnotationView, source: Seq<char>, t: Seq<char>)
    requires
        v.mode == (ModeView::Comment { source, editor: crate::editor::empty_note() }),
        t.len() < usize::MAX,
    ensures
        ({
            let pasted = AnnotationView {
                mode: ModeView::Comment { source, editor: crate::editor::empty_note().with_text(t) },
                error: None,
                ..v
            };
            let enter = KeyEvent {
                code: crate::keys::KeyCode::Enter,
                modifiers: crate::keys::KeyModifiers::none_spec(),
                is_press: true,
            };
            pasted.key_step(enter).1 == OutcomeView::SaveComment {
                source,
                note: crate::editor::kept_input(crate::text::normalize_newlines(t)),
            }
        }),
{
    crate::editor::law_paste_into_empty_note(t);
}

/// A snapshot opens with the cursor on a character of its text (or the start
/// of an empty line); no viewport is known yet.
pub proof fn law_new_state_cursor_in_text(snapshot: SnapshotView, comment_count: usize)
    ensures
        cursor_kept(initial_view(snapshot, comment_count)),
        initial_view(snapshot, comment_count).viewport_height >= 1,
{
    crate::snapshot::lemma_rows_nonempty(snapshot.text);
}

/// A character selection across rows takes the text from the first
/// endpoint through the second, both characters included: the rest of the
/// first row, every row between in full, and the end row up to and including
/// the character under its endpoint.
pub proof fn law_character_selection_spans_endpoints(v: AnnotationView, anchor: SourcePosition)
    requires
        v.mode == (ModeView::Visual { anchor, kind: VisualKind::Character }),
        v.cursor.row < v.lines.len(),
        anchor.row < v.lines.len(),
        forall|i: int| 0 <= i < v.lines.len() ==> (#[trigger] v.lines[i]).len() <= usize::MAX,
    ensures
        ({
            let (start, end) = ordered(anchor, v.cursor);
            let first = v.lines[start.row as int];
            let last = v.lines[end.row as int];
            let head = if start.column <= first.len() { start.column as int } else { first.len() as int };
            let tail = if end.column < last.len() { end.column + 1 } else { last.len() as int };
            &&& start.row < end.row ==> v.selected_text() == join_with(
                Seq::new(
                    (end.row - start.row + 1) as nat,
                    |k: int|
                        if k == 0 {
                            first.skip(head)
                        } else if k == end.row - start.row {
                            last.take(tail)
                        } else {
                            v.lines[start.row + k]
                        },
                ),
                seq!['\n'],
            )
            &&& (start.row == end.row && start.column <= end.column && end.column < last.len())
                ==> v.selected_text() == last.subrange(start.column as int, end.column + 1)
        }),
{
    let (start, end) = ordered(anchor, v.cursor);
    let n = (end.row - start.row + 1) as nat;
    let actual = Seq::new(
        n,
        |k: int|
            {
                let row = (start.row + k) as usize;
                let line = v.lines[row as int];
                let (from, to) = selected_range(VisualKind::Character, start, end, row, line.len() as usize);
                char_slice_of(line, from, to)
            },
    );
    let first = v.lines[start.row as int];
    let last = v.lines[end.row as int];
    let head = if start.column <= first.len() { start.column as int } else { first.len() as int };
    let tail = if end.column < last.len() { end.column + 1 } else { last.len() as int };
    if start.row < end.row {
        let wanted = Seq::new(
            n,
            |k: int|
                if k == 0 {
                    first.skip(head)
                } else if k == end.row - start.row {
                    last.take(tail)
                } else {
                    v.lines[start.row + k]
                },
        );
        assert forall|k: int| 0 <= k < n implies #[trigger] actual[k] == wanted[k] by {
            let line = v.lines[start.row + k];
            assert(line.len() <= usize::MAX);
            if k == 0 {
                assert(first.subrange(head, first.len() as int) =~= first.skip(head));
            } else if k == end.row - start.row {
                assert(last.subrange(0, tail) =~= last.take(tail));
            } else {
                assert(line.subrange(0, line.len() as int) =~= line);
            }
        }
        assert(actual =~= wanted);
    } else if start.row == end.row && start.column <= end.column && end.column < last.len() {
        assert(last.len() <= usize::MAX);
        assert(actual =~= seq![last.subrange(start.column as int, end.column + 1)]);
    }
}

/// PageDown and PageUp move the cursor by one screen height (at least one
/// row), stopping at the first and the last row of the snapshot.
pub proof fn law_page_moves_one_screen(v: AnnotationView, direction: isize)
    requires
        v.wf(),
        direction == 1 || direction == -1,
        v.viewport_height <= isize::MAX,
        v.lines.len() <= usize::MAX,
    ensures
        ({
            let target = v.cursor.row + direction * (if v.viewport_height > 1 { v.viewport_height as int } else { 1 });
            let last = v.lines.len() - 1;
            v.moved_page(direction).cursor.row == (if target < 0 {
                0
            } else if target > last {
                last
            } else {
                target
            })
        }),
{
}

/// Ctrl-d and Ctrl-u move the cursor by half a screen height (at least one
/// row), stopping at the first and the last row of the snapshot.
pub proof fn law_half_page_moves_half_a_screen(v: AnnotationView, direction: isize)
    requires
        v.wf(),
        direction == 1 || direction == -1,
        v.viewport_height <= isize::MAX,
        v.lines.len() <= usize::MAX,
    ensures
        ({
            let half = v.viewport_height / 2;
            let target = v.cursor.row + direction * (if half > 1 { half as int } else { 1 });
            let last = v.lines.len() - 1;
            v.moved_half_page(direction).cursor.row == (if target < 0 {
                0
            } else if target > last {
                last
            } else {
                target
            })
        }),
{
}

/// Scrolling to the cursor moves the view as little as possible: up to the
/// cursor's screen row when it is above the screen, down until it is the last
/// row on screen when it is below, and not at all when it is on screen.
pub proof fn law_scrolling_is_minimal(v: AnnotationView)
    requires
        v.viewport_width > 0,
        v.viewport_height >= 1,
        wrapped(v.lines, v.viewport_width).len() < usize::MAX,
        row_index_of(wrapped(v.lines, v.viewport_width), v.cursor.row, v.cursor.column) is Some,
    ensures
        ({
            let i = row_index_of(wrapped(v.lines, v.viewport_width), v.cursor.row, v.cursor.column)->Some_0;
            let top = v.cursor_visible().top;
            &&& i < v.top ==> top == i
            &&& v.top + v.viewport_height <= i ==> top == i + 1 - v.viewport_height
            &&& (v.top <= i && i < v.top + v.viewport_height) ==> top == v.top
            &&& v.cursor_visible() == v.with_top(top)
        }),
{
    crate::wrap::lemma_row_index_of(wrapped(v.lines, v.viewport_width), v.cursor.row, v.cursor.column);
    assert(v.with_top(v.top) == v);
}

/// A snapshot opens on the source pane's viewport: the snapshot's first
/// shown row at the top (the last row if it lies beyond the text), the cursor
/// at the start of the viewport's last row (within the text), browsing.
pub proof fn law_opens_on_the_source_viewport(snapshot: SnapshotView, comment_count: usize)
    requires
        rows_of(snapshot.text).len() <= usize::MAX,
    ensures
        ({
            let v = initial_view(snapshot, comment_count);
            let n = rows_of(snapshot.text).len();
            let top = if snapshot.initial_top < n { snapshot.initial_top as int } else { n - 1 };
            let down = if snapshot.viewport_rows == 0 { 0 } else { snapshot.viewport_rows - 1 };
            &&& v.lines == rows_of(snapshot.text)
            &&& v.top == top
            &&& v.cursor.row == (if top + down <= n - 1 { top + down } else { n - 1 })
            &&& v.cursor.column == 0
            &&& v.mode == ModeView::Normal
        }),
{
    crate::snapshot::lemma_rows_nonempty(snapshot.text);
}

/// The highlight of a character selection covers, on each row, exactly the
/// columns the selected text takes from it: from the start column on the
/// first row, whole rows between, up to and including the end column on the
/// last row; rows outside the selection have none, and an empty row shows
/// one cell.
pub proof fn law_character_highlight_spans_endpoints(v: AnnotationView, anchor: SourcePosition, row: usize)
    requires
        v.mode == (ModeView::Visual { anchor, kind: VisualKind::Character }),
        row < v.lines.len(),
        forall|i: int| 0 <= i < v.lines.len() ==> (#[trigger] v.lines[i]).len() <= usize::MAX,
        v.cursor.column < usize::MAX,
        anchor.column < usize::MAX,
    ensures
        ({
            let (start, end) = ordered(anchor, v.cursor);
            let len = v.lines[row as int].len() as usize;
            v.selected_columns(row) == (if row < start.row || row > end.row {
                None
            } else if len == 0 {
                Some((0usize, 1usize))
            } else if start.row == end.row {
                Some((start.column, (end.column + 1) as usize))
            } else if row == start.row {
                Some((start.column, len))
            } else if row == end.row {
                Some((0usize, (end.column + 1) as usize))
            } else {
                Some((0usize, len))
            })
        }),
{
    assert(v.lines[row as int].len() <= usize::MAX);
}

/// What each browsing move does to the cursor: `h` and `l` step one column
/// within the row (stopping at its first and last character), `0` and `$` go
/// to the row's first and last character, `g` and `G` to the first and last
/// row, and `j`/`k` step one row; a move to another row keeps the column,
/// clamped to that row's last character.
pub proof fn law_browsing_moves(v: AnnotationView)
    requires
        v.wf(),
        v.lines.len() <= usize::MAX,
        forall|i: int| 0 <= i < v.lines.len() ==> (#[trigger] v.lines[i]).len() <= usize::MAX,
    ensures
        ({
            let c = v.cursor;
            let last_column = |r: int| if v.lines[r].len() > 0 { v.lines[r].len() - 1 } else { 0 };
            let on_row = |r: int| if c.column <= last_column(r) { c.column as int } else { last_column(r) };
            let last = v.lines.len() - 1;
            &&& v.moved_left().cursor == (SourcePosition { row: c.row, column: if c.column > 0 { (c.column - 1) as usize } else { 0 } })
            &&& v.moved_right().cursor.row == c.row
            &&& v.moved_right().cursor.column == (if c.column < last_column(c.row as int) { c.column + 1 } else { last_column(c.row as int) })
            &&& v.moved_line_start().cursor == (SourcePosition { row: c.row, column: 0 })
            &&& v.moved_line_end().cursor.row == c.row
            &&& v.moved_line_end().cursor.column == last_column(c.row as int)
            &&& v.moved_to_row(0).cursor.row == 0
            &&& v.moved_to_row(0).cursor.column == on_row(0)
            &&& v.moved_to_row(v.last_row()).cursor.row == last
            &&& v.moved_to_row(v.last_row()).cursor.column == on_row(last)
            &&& v.moved_vertical(1isize).cursor.row == (if c.row < last { c.row + 1 } else { last })
            &&& v.moved_vertical(-1isize).cursor.row == (if c.row > 0 { c.row - 1 } else { 0 })
            &&& v.moved_vertical(1isize).cursor.column == on_row(v.moved_vertical(1isize).cursor.row as int)
            &&& v.moved_vertical(-1isize).cursor.column == on_row(v.moved_vertical(-1isize).cursor.row as int)
        }),
{
    assert(v.lines[v.cursor.row as int].len() <= usize::MAX);
    assert(v.lines[0].len() <= usize::MAX);
    assert(v.lines[v.lines.len() - 1].len() <= usize::MAX);
    let down_row = v.moved_vertical(1isize).cursor.row;
    let up_row = v.moved_vertical(-1isize).cursor.row;
    assert(v.lines[down_row as int].len() <= usize::MAX);
    assert(v.lines[up_row as int].len() <= usize::MAX);
}

} // verus!
