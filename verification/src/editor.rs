//! The multiline note editor of the annotation popup.
use vstd::prelude::*;

use crate::text::{
    chars_of, exec_is_control, is_control, join_with, lemma_join_push, normalize_newline_chars,
    normalize_newlines, push_char, push_chars,
};
use crate::wrap::{add_signed, min_usize, saturating_add_signed};

verus! {

/// The contents of a `NoteEditor`: its lines and the cursor (a character column).
pub struct EditorView {
    pub lines: Seq<Seq<char>>,
    pub row: usize,
    pub column: usize,
}

impl EditorView {
    /// The cursor stands on a line, at most just past its last character.
    pub open spec fn wf(self) -> bool {
        &&& self.lines.len() >= 1
        &&& self.row < self.lines.len()
        &&& self.column <= self.lines[self.row as int].len()
    }

    /// The sizes fit `usize`, as they do for the lines of a `NoteEditor`.
    pub open spec fn sizes_fit(self) -> bool {
        &&& self.lines.len() <= usize::MAX
        &&& forall|i: int| 0 <= i < self.lines.len() ==> (#[trigger] self.lines[i]).len() <= usize::MAX
    }

    pub open spec fn line_len(self) -> nat {
        self.lines[self.row as int].len()
    }

    /// The note: the lines joined by newlines.
    pub open spec fn text(self) -> Seq<char> {
        join_with(self.lines, seq!['\n'])
    }

    pub open spec fn with_char(self, c: char) -> EditorView {
        EditorView {
            lines: self.lines.update(self.row as int, self.lines[self.row as int].insert(self.column as int, c)),
            row: self.row,
            column: (self.column + 1) as usize,
        }
    }

    /// The line is split at the cursor and the cursor starts the new line.
    pub open spec fn with_newline(self) -> EditorView {
        let line = self.lines[self.row as int];
        EditorView {
            lines: self.lines.update(self.row as int, line.take(self.column as int)).insert(
                self.row + 1,
                line.skip(self.column as int),
            ),
            row: (self.row + 1) as usize,
            column: 0,
        }
    }

    /// A pasted or typed character: a newline splits the line, a control
    /// character other than tab is dropped, anything else is inserted.
    pub open spec fn with_input_char(self, c: char) -> EditorView {
        if c == '\n' {
            self.with_newline()
        } else if !is_control(c) || c == '\t' {
            self.with_char(c)
        } else {
            self
        }
    }

    pub open spec fn with_input(self, s: Seq<char>) -> EditorView
        decreases s.len(),
    {
        if s.len() == 0 {
            self
        } else {
            self.with_input(s.drop_last()).with_input_char(s.last())
        }
    }

    /// Pasted text: line endings made uniform, then entered character by character.
    pub open spec fn with_text(self, s: Seq<char>) -> EditorView {
        self.with_input(normalize_newlines(s))
    }

    pub open spec fn moved_left(self) -> EditorView {
        if self.column > 0 {
            EditorView { column: (self.column - 1) as usize, ..self }
        } else if self.row > 0 {
            EditorView {
                row: (self.row - 1) as usize,
                column: self.lines[self.row - 1].len() as usize,
                ..self
            }
        } else {
            self
        }
    }

    pub open spec fn moved_right(self) -> EditorView {
        if self.column < self.line_len() {
            EditorView { column: (self.column + 1) as usize, ..self }
        } else if self.row < self.lines.len() - 1 {
            EditorView { row: (self.row + 1) as usize, column: 0, ..self }
        } else {
            self
        }
    }

    /// The row moves by `delta` within the lines; the column is kept when the
    /// new line is long enough, else it goes to the line's end.
    pub open spec fn moved_vertical(self, delta: isize) -> EditorView {
        let row = min_usize(add_signed(self.row, delta), (self.lines.len() - 1) as usize);
        EditorView {
            lines: self.lines,
            row: row,
            column: min_usize(self.column, self.lines[row as int].len() as usize),
        }
    }

    pub open spec fn moved_home(self) -> EditorView {
        EditorView { column: 0, ..self }
    }

    pub open spec fn moved_end(self) -> EditorView {
        EditorView { column: self.line_len() as usize, ..self }
    }

    /// Backspace: the character before the cursor goes; at a line's start the
    /// line joins the previous one.
    pub open spec fn after_backspace(self) -> EditorView {
        let line = self.lines[self.row as int];
        if self.column > 0 {
            EditorView {
                lines: self.lines.update(self.row as int, line.remove(self.column - 1)),
                row: self.row,
                column: (self.column - 1) as usize,
            }
        } else if self.row > 0 {
            let previous = self.lines[self.row - 1];
            EditorView {
                lines: self.lines.remove(self.row as int).update(self.row - 1, previous + line),
                row: (self.row - 1) as usize,
                column: previous.len() as usize,
            }
        } else {
            self
        }
    }

    /// Delete: the character at the cursor goes; at a line's end the next line
    /// joins this one.
    pub open spec fn after_delete(self) -> EditorView {
        let line = self.lines[self.row as int];
        if self.column < line.len() {
            EditorView { lines: self.lines.update(self.row as int, line.remove(self.column as int)), ..self }
        } else if self.row < self.lines.len() - 1 {
            EditorView {
                lines: self.lines.update(self.row as int, line + self.lines[self.row + 1]).remove(
                    self.row + 1,
                ),
                ..self
            }
        } else {
            self
        }
    }
}

/// A multiline text editor with a character cursor.
#[derive(Debug, Clone, PartialEq, Eq)]
pub struct NoteEditor {
    lines: Vec<Vec<char>>,
    row: usize,
    column: usize,
}

impl View for NoteEditor {
    type V = EditorView;

    closed spec fn view(&self) -> EditorView {
        EditorView { lines: self.lines@.map_values(|l: Vec<char>| l@), row: self.row, column: self.column }
    }
}

pub proof fn lemma_with_input_wf(e: EditorView, s: Seq<char>)
    requires
        e.wf(),
    ensures
        e.with_input(s).wf(),
    decreases s.len(),
{
    if s.len() > 0 {
        lemma_with_input_wf(e, s.drop_last());
    }
}

impl NoteEditor {
    pub open spec fn wf(&self) -> bool {
        self@.wf()
    }

    /// An empty note: one empty line, cursor at its start.
    pub fn new() -> (e: Self)
        ensures
            e@ == (EditorView { lines: seq![Seq::<char>::empty()], row: 0, column: 0 }),
            e.wf(),
    {
        let mut lines: Vec<Vec<char>> = Vec::new();
        lines.push(Vec::new());
        let e = NoteEditor { lines, row: 0, column: 0 };
        assert(e@.lines =~= seq![Seq::<char>::empty()]);
        e
    }

    pub fn row(&self) -> (r: usize)
        ensures
            r == self@.row,
    {
        self.row
    }

    pub fn column(&self) -> (c: usize)
        ensures
            c == self@.column,
    {
        self.column
    }

    /// The editor's lines, as character vectors.
    pub fn lines(&self) -> (l: &Vec<Vec<char>>)
        ensures
            l@.map_values(|x: Vec<char>| x@) == self@.lines,
    {
        &self.lines
    }

    /// The note: the lines joined by newlines.
    pub fn text(&self) -> (s: String)
        requires
            self.wf(),
        ensures
            s@ == self@.text(),
    {
        let ghost views = self@.lines;
        let mut s = String::new();
        let mut i: usize = 0;
        while i < self.lines.len()
            invariant
                i <= self.lines@.len(),
                views == self.lines@.map_values(|l: Vec<char>| l@),
                s@ == join_with(views.take(i as int), seq!['\n']),
            decreases self.lines@.len() - i,
        {
            let ghost before = s@;
            if i > 0 {
                push_char(&mut s, '\n');
            }
            push_chars(&mut s, &self.lines[i]);
            proof {
                assert(views.take(i + 1) =~= views.take(i as int).push(views[i as int]));
                if i > 0 {
                    lemma_join_push(views.take(i as int), seq!['\n'], views[i as int]);
                    assert(s@ =~= before + seq!['\n'] + views[i as int]);
                } else {
                    assert(s@ =~= views[0]);
                }
            }
            i += 1;
        }
        assert(views.take(self.lines@.len() as int) =~= views);
        s
    }

    /// Characters on the cursor's line.
    pub fn line_len(&self) -> (n: usize)
        requires
            self.wf(),
        ensures
            n == self@.line_len(),
    {
        self.lines[self.row].len()
    }

    pub fn insert_char(&mut self, ch: char)
        requires
            old(self).wf(),
        ensures
            final(self)@ == old(self)@.with_char(ch),
            final(self).wf(),
    {
        let ghost v = self@;
        let mut line = self.lines[self.row].clone();
        proof {
            assert(line@ == v.lines[self.row as int]);
        }
        line.insert(self.column, ch);
        let n = line.len();
        assert(self.column < n);
        self.lines.set(self.row, line);
        self.column = self.column + 1;
        assert(self@.lines =~= v.with_char(ch).lines);
    }

    pub fn insert_newline(&mut self)
        requires
            old(self).wf(),
        ensures
            final(self)@ == old(self)@.with_newline(),
            final(self).wf(),
    {
        let ghost v = self@;
        let mut head = self.lines[self.row].clone();
        proof {
            assert(head@ == v.lines[self.row as int]);
        }
        let tail = head.split_off(self.column);
        let count = self.lines.len();
        assert(self.row < count);
        self.lines.set(self.row, head);
        self.lines.insert(self.row + 1, tail);
        self.row = self.row + 1;
        self.column = 0;
        assert(self@.lines =~= v.with_newline().lines);
    }

    /// Enters pasted text: line endings made uniform, newlines split lines,
    /// control characters other than tab are dropped.
    pub fn insert_text(&mut self, text: &str)
        requires
            old(self).wf(),
        ensures
            final(self)@ == old(self)@.with_text(text@),
            final(self).wf(),
    {
        let ghost v = self@;
        let normalized = normalize_newline_chars(&chars_of(text));
        let mut i: usize = 0;
        while i < normalized.len()
            invariant
                i <= normalized@.len(),
                normalized@ == normalize_newlines(text@),
                self@ == v.with_input(normalized@.take(i as int)),
                self.wf(),
            decreases normalized@.len() - i,
        {
            let ch = normalized[i];
            proof {
                assert(normalized@.take(i + 1).drop_last() =~= normalized@.take(i as int));
            }
            if ch == '\n' {
                self.insert_newline();
            } else if !exec_is_control(ch) || ch == '\t' {
                self.insert_char(ch);
            }
            i += 1;
        }
        assert(normalized@.take(normalized@.len() as int) =~= normalized@);
    }

    pub fn move_left(&mut self)
        requires
            old(self).wf(),
        ensures
            final(self)@ == old(self)@.moved_left(),
            final(self).wf(),
    {
        if self.column > 0 {
            self.column = self.column - 1;
        } else if self.row > 0 {
            self.row = self.row - 1;
            self.column = self.line_len();
        }
    }

    pub fn move_right(&mut self)
        requires
            old(self).wf(),
        ensures
            final(self)@ == old(self)@.moved_right(),
            final(self).wf(),
    {
        if self.column < self.line_len() {
            self.column = self.column + 1;
        } else if self.row < self.lines.len() - 1 {
            self.row = self.row + 1;
            self.column = 0;
        }
    }

    pub fn move_vertical(&mut self, delta: isize)
        requires
            old(self).wf(),
        ensures
            final(self)@ == old(self)@.moved_vertical(delta),
            final(self).wf(),
    {
        let moved = saturating_add_signed(self.row, delta);
        let last = self.lines.len() - 1;
        self.row = if moved < last { moved } else { last };
        let len = self.lines[self.row].len();
        self.column = if self.column < len { self.column } else { len };
    }

    pub fn move_home(&mut self)
        requires
            old(self).wf(),
        ensures
            final(self)@ == old(self)@.moved_home(),
            final(self).wf(),
    {
        self.column = 0;
    }

    pub fn move_end(&mut self)
        requires
            old(self).wf(),
        ensures
            final(self)@ == old(self)@.moved_end(),
            final(self).wf(),
    {
        self.column = self.line_len();
    }

    pub fn backspace(&mut self)
        requires
            old(self).wf(),
        ensures
            final(self)@ == old(self)@.after_backspace(),
            final(self).wf(),
    {
        let ghost v = self@;
        if self.column > 0 {
            let mut line = self.lines[self.row].clone();
            proof {
                assert(line@ == v.lines[self.row as int]);
            }
            line.remove(self.column - 1);
            self.lines.set(self.row, line);
            self.column = self.column - 1;
            assert(self@.lines =~= v.after_backspace().lines);
        } else if self.row > 0 {
            let current = self.lines.remove(self.row);
            self.row = self.row - 1;
            let mut previous = self.lines[self.row].clone();
            proof {
                assert(previous@ == v.lines[self.row as int]);
            }
            let len = previous.len();
            let mut tail = current;
            previous.append(&mut tail);
            self.lines.set(self.row, previous);
            self.column = len;
            assert(self@.lines =~= v.after_backspace().lines);
        }
    }

    pub fn delete(&mut self)
        requires
            old(self).wf(),
        ensures
            final(self)@ == old(self)@.after_delete(),
            final(self).wf(),
    {
        let ghost v = self@;
        if self.column < self.line_len() {
            let mut line = self.lines[self.row].clone();
            proof {
                assert(line@ == v.lines[self.row as int]);
            }
            line.remove(self.column);
            self.lines.set(self.row, line);
            assert(self@.lines =~= v.after_delete().lines);
        } else if self.row < self.lines.len() - 1 {
            let mut next = self.lines.remove(self.row + 1);
            let mut line = self.lines[self.row].clone();
            proof {
                assert(line@ == v.lines[self.row as int]);
            }
            line.append(&mut next);
            self.lines.set(self.row, line);
            assert(self@.lines =~= v.after_delete().lines);
        }
    }
}

/// Typing a character and then pressing backspace leaves the note as it was.
pub proof fn law_backspace_undoes_char(e: EditorView, c: char)
    requires
        e.wf(),
        e.column < usize::MAX,
    ensures
        e.with_char(c).wf(),
        e.with_char(c).after_backspace() == e,
{
    let line = e.lines[e.row as int];
    let typed = e.with_char(c);
    assert(typed.lines[e.row as int] == line.insert(e.column as int, c));
    assert(line.insert(e.column as int, c).remove(e.column as int) =~= line);
    assert(typed.after_backspace().lines =~= e.lines);
}

/// Splitting a line and then pressing backspace leaves the note as it was.
pub proof fn law_backspace_undoes_newline(e: EditorView)
    requires
        e.wf(),
        e.sizes_fit(),
    ensures
        e.with_newline().wf(),
        e.with_newline().after_backspace() == e,
{
    let line = e.lines[e.row as int];
    let split = e.with_newline();
    assert(split.lines[e.row as int] == line.take(e.column as int));
    assert(split.lines[e.row + 1] == line.skip(e.column as int));
    assert(line.take(e.column as int) + line.skip(e.column as int) =~= line);
    assert(split.lines.remove(e.row + 1) =~= e.lines.update(e.row as int, line.take(e.column as int)));
    let back = split.after_backspace();
    assert(split.column == 0 && split.row > 0);
    assert(back.lines == split.lines.remove(split.row as int).update(split.row - 1, split.lines[split.row - 1] + split.lines[split.row as int]));
    assert(back.lines =~= e.lines);
    assert(back.row == e.row);
    assert(back.column == e.column);
}

/// Moving left and then right returns to the same place, except at the very
/// start of the note, where moving left does nothing.
pub proof fn law_right_undoes_left(e: EditorView)
    requires
        e.wf(),
        e.sizes_fit(),
        e.row > 0 || e.column > 0,
    ensures
        e.moved_left().wf(),
        e.moved_left().moved_right() == e,
{
    let l = e.moved_left();
    assert(l.lines == e.lines);
    if e.column == 0 {
        assert(e.lines[e.row - 1].len() <= usize::MAX);
    }
}

/// Moving right and then left returns to the same place, except at the very
/// end of the note, where moving right does nothing.
pub proof fn law_left_undoes_right(e: EditorView)
    requires
        e.wf(),
        e.sizes_fit(),
        e.row < e.lines.len() - 1 || e.column < e.line_len(),
    ensures
        e.moved_right().wf(),
        e.moved_right().moved_left() == e,
{
    let r = e.moved_right();
    assert(r.lines == e.lines);
    assert(e.lines[e.row as int].len() <= usize::MAX);
}

/// What typing `s` leaves in a note: newlines, tabs and every character that
/// is not a control character, in order.
pub open spec fn kept_input(s: Seq<char>) -> Seq<char>
    decreases s.len(),
{
    if s.len() == 0 {
        Seq::empty()
    } else if s.last() == '\n' || s.last() == '\t' || !is_control(s.last()) {
        kept_input(s.drop_last()).push(s.last())
    } else {
        kept_input(s.drop_last())
    }
}

/// An empty note with the cursor at its start.
pub open spec fn empty_note() -> EditorView {
    EditorView { lines: seq![Seq::<char>::empty()], row: 0, column: 0 }
}

proof fn lemma_input_from_empty(s: Seq<char>)
    requires
        s.len() < usize::MAX,
    ensures
        ({
            let e = empty_note().with_input(s);
            &&& e.lines.len() >= 1
            &&& e.row == e.lines.len() - 1
            &&& e.column == e.lines.last().len()
            &&& e.row <= s.len()
            &&& e.column <= s.len()
            &&& e.text() == kept_input(s)
        }),
    decreases s.len(),
{
    if s.len() == 0 {
        assert(join_with(seq![Seq::<char>::empty()], seq!['\n']) == Seq::<char>::empty());
    } else {
        lemma_input_from_empty(s.drop_last());
        let e = empty_note().with_input(s.drop_last());
        let c = s.last();
        let line = e.lines[e.row as int];
        assert(line == e.lines.last());
        if c == '\n' {
            let n = e.with_newline();
            assert(line.take(e.column as int) =~= line);
            assert(line.skip(e.column as int) =~= Seq::<char>::empty());
            assert(n.lines =~= e.lines.push(Seq::<char>::empty()));
            lemma_join_push(e.lines, seq!['\n'], Seq::<char>::empty());
            assert(e.text() + seq!['\n'] + Seq::<char>::empty() =~= kept_input(s.drop_last()).push('\n'));
        } else if !is_control(c) || c == '\t' {
            let n = e.with_char(c);
            assert(line.insert(e.column as int, c) =~= line + seq![c]);
            crate::text::lemma_join_update_last(e.lines, seq!['\n'], line, seq![c]);
            assert(n.lines == e.lines.update(e.lines.len() - 1, line + seq![c]));
            assert(e.text() + seq![c] =~= kept_input(s.drop_last()).push(c));
        }
    }
}

/// Pasting into an empty note: the note becomes the pasted text with its
/// line endings made uniform and its control characters other than newline
/// and tab dropped.
pub proof fn law_paste_into_empty_note(t: Seq<char>)
    requires
        t.len() < usize::MAX,
    ensures
        empty_note().with_text(t).wf(),
        empty_note().with_text(t).text() == kept_input(normalize_newlines(t)),
{
    crate::text::lemma_normalize_len(t);
    lemma_input_from_empty(normalize_newlines(t));
}

/// Moving the note cursor up or down changes its line by the distance,
/// stopping at the first and last line, and keeps its column, clamped to the
/// new line's length; the text does not change.
pub proof fn law_vertical_move_keeps_column(e: EditorView, delta: isize)
    requires
        e.wf(),
        e.sizes_fit(),
    ensures
        ({
            let r = e.moved_vertical(delta);
            let target = e.row + delta;
            let last = e.lines.len() - 1;
            &&& r.lines == e.lines
            &&& r.row == (if target < 0 {
                0
            } else if target > last {
                last
            } else {
                target
            })
            &&& r.column == (if e.column <= e.lines[r.row as int].len() {
                e.column as int
            } else {
                e.lines[r.row as int].len() as int
            })
        }),
{
    let r = e.moved_vertical(delta);
    assert(e.lines[r.row as int].len() <= usize::MAX);
}

/// Home and End put the note cursor at the start and the end of its line;
/// neither changes the text or the line.
pub proof fn law_home_and_end(e: EditorView)
    requires
        e.wf(),
        e.sizes_fit(),
    ensures
        e.moved_home() == (EditorView { lines: e.lines, row: e.row, column: 0 }),
        e.moved_end() == (EditorView { lines: e.lines, row: e.row, column: e.lines[e.row as int].len() as usize }),
        e.moved_end().column == e.lines[e.row as int].len(),
{
    assert(e.lines[e.row as int].len() <= usize::MAX);
}

} // verus!
