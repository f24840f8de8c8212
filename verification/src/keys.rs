//! Key presses as the annotation popup sees them, and what each one means.
use vstd::prelude::*;

verus! {

/// The key that was pressed.
#[derive(Debug, Clone, Copy, PartialEq, Eq)]
pub enum KeyCode {
    Char(char),
    Esc,
    Enter,
    Up,
    Down,
    Left,
    Right,
    Home,
    End,
    PageUp,
    PageDown,
    Backspace,
    Delete,
    Other,
}

/// Modifier keys held during the press.
#[derive(Debug, Clone, Copy, PartialEq, Eq)]
pub struct KeyModifiers {
    pub shift: bool,
    pub control: bool,
    pub alt: bool,
    pub super_key: bool,
    pub hyper: bool,
    pub meta: bool,
}

/// One keyboard event; `is_press` is false for releases and repeats.
#[derive(Debug, Clone, Copy, PartialEq, Eq)]
pub struct KeyEvent {
    pub code: KeyCode,
    pub modifiers: KeyModifiers,
    pub is_press: bool,
}

impl KeyModifiers {
    pub open spec fn is_empty(self) -> bool {
        !self.shift && !self.control && !self.alt && !self.super_key && !self.hyper && !self.meta
    }

    pub fn none() -> (m: Self)
        ensures
            m.is_empty(),
    {
        KeyModifiers { shift: false, control: false, alt: false, super_key: false, hyper: false, meta: false }
    }

    pub fn shift() -> (m: Self)
        ensures
            m == (KeyModifiers { shift: true, ..KeyModifiers::none_spec() }),
    {
        KeyModifiers { shift: true, control: false, alt: false, super_key: false, hyper: false, meta: false }
    }

    pub fn control() -> (m: Self)
        ensures
            m == (KeyModifiers { control: true, ..KeyModifiers::none_spec() }),
    {
        KeyModifiers { shift: false, control: true, alt: false, super_key: false, hyper: false, meta: false }
    }

    pub fn alt() -> (m: Self)
        ensures
            m == (KeyModifiers { alt: true, ..KeyModifiers::none_spec() }),
    {
        KeyModifiers { shift: false, control: false, alt: true, super_key: false, hyper: false, meta: false }
    }

    pub open spec fn none_spec() -> Self {
        KeyModifiers { shift: false, control: false, alt: false, super_key: false, hyper: false, meta: false }
    }

    pub fn exec_is_empty(&self) -> (r: bool)
        ensures
            r == self.is_empty(),
    {
        !self.shift && !self.control && !self.alt && !self.super_key && !self.hyper && !self.meta
    }
}

impl KeyEvent {
    /// A press of `code` with `modifiers`.
    pub fn press(code: KeyCode, modifiers: KeyModifiers) -> (k: Self)
        ensures
            k == (KeyEvent { code, modifiers, is_press: true }),
    {
        KeyEvent { code, modifiers, is_press: true }
    }
}

/// What a key does while browsing the snapshot.
#[derive(Debug, Clone, Copy, PartialEq, Eq)]
pub enum SourceAction {
    /// Cancel a selection, or close from normal mode.
    Escape,
    /// Close the popup.
    Exit,
    /// Start or stop a character selection.
    ToggleVisual,
    /// Start a line selection.
    LineVisual,
    /// Comment on the selection.
    Comment,
    Vertical(isize),
    Left,
    Right,
    LineStart,
    LineEnd,
    Page(isize),
    HalfPage(isize),
    FirstRow,
    LastRow,
    Ignore,
}

/// What a key does while writing a note.
#[derive(Debug, Clone, Copy, PartialEq, Eq)]
pub enum CommentAction {
    Escape,
    Save,
    Newline,
    Left,
    Right,
    Up,
    Down,
    Home,
    End,
    Backspace,
    Delete,
    Insert(char),
    Ignore,
}

/// The snapshot key map (first matching rule wins): Esc; `q`; `v`; `V` or
/// shifted `v`; `c` during a selection; `k`/`j`/`h`/`l`, arrows, Home/`0`,
/// End/`$`; PageUp/PageDown; Ctrl-u/Ctrl-d; `g`; `G` or shifted `g`.
pub open spec fn source_action(key: KeyEvent, visual: bool) -> SourceAction {
    let m = key.modifiers;
    match key.code {
        KeyCode::Esc => SourceAction::Escape,
        KeyCode::Char(c) => {
            if c == 'q' && m.is_empty() {
                SourceAction::Exit
            } else if c == 'v' && m.is_empty() {
                SourceAction::ToggleVisual
            } else if (c == 'V' || c == 'v') && m.shift {
                SourceAction::LineVisual
            } else if c == 'c' && visual {
                SourceAction::Comment
            } else if c == 'k' {
                SourceAction::Vertical(-1isize)
            } else if c == 'j' {
                SourceAction::Vertical(1isize)
            } else if c == 'h' {
                SourceAction::Left
            } else if c == 'l' {
                SourceAction::Right
            } else if c == '0' {
                SourceAction::LineStart
            } else if c == '$' {
                SourceAction::LineEnd
            } else if c == 'u' && m.control {
                SourceAction::HalfPage(-1isize)
            } else if c == 'd' && m.control {
                SourceAction::HalfPage(1isize)
            } else if c == 'g' && m.is_empty() {
                SourceAction::FirstRow
            } else if (c == 'G' || c == 'g') && m.shift {
                SourceAction::LastRow
            } else {
                SourceAction::Ignore
            }
        },
        KeyCode::Up => SourceAction::Vertical(-1isize),
        KeyCode::Down => SourceAction::Vertical(1isize),
        KeyCode::Left => SourceAction::Left,
        KeyCode::Right => SourceAction::Right,
        KeyCode::Home => SourceAction::LineStart,
        KeyCode::End => SourceAction::LineEnd,
        KeyCode::PageUp => SourceAction::Page(-1isize),
        KeyCode::PageDown => SourceAction::Page(1isize),
        _ => SourceAction::Ignore,
    }
}

/// The note key map: Esc; Enter saves, Alt-Enter breaks the line; arrows,
/// Home, End, Backspace, Delete edit; a character is typed unless Ctrl, Alt
/// or Super is held.
pub open spec fn comment_action(key: KeyEvent) -> CommentAction {
    let m = key.modifiers;
    match key.code {
        KeyCode::Esc => CommentAction::Escape,
        KeyCode::Enter => if m.alt {
            CommentAction::Newline
        } else {
            CommentAction::Save
        },
        KeyCode::Left => CommentAction::Left,
        KeyCode::Right => CommentAction::Right,
        KeyCode::Up => CommentAction::Up,
        KeyCode::Down => CommentAction::Down,
        KeyCode::Home => CommentAction::Home,
        KeyCode::End => CommentAction::End,
        KeyCode::Backspace => CommentAction::Backspace,
        KeyCode::Delete => CommentAction::Delete,
        KeyCode::Char(c) => if !(m.control || m.alt || m.super_key) {
            CommentAction::Insert(c)
        } else {
            CommentAction::Ignore
        },
        _ => CommentAction::Ignore,
    }
}

/// The meaning of a key while browsing the snapshot.
pub fn classify_source_key(key: KeyEvent, visual: bool) -> (a: SourceAction)
    ensures
        a == source_action(key, visual),
{
    let m = key.modifiers;
    let empty = m.exec_is_empty();
    match key.code {
        KeyCode::Esc => SourceAction::Escape,
        KeyCode::Char(c) => {
            if c == 'q' && empty {
                SourceAction::Exit
            } else if c == 'v' && empty {
                SourceAction::ToggleVisual
            } else if (c == 'V' || c == 'v') && m.shift {
                SourceAction::LineVisual
            } else if c == 'c' && visual {
                SourceAction::Comment
            } else if c == 'k' {
                SourceAction::Vertical(-1isize)
            } else if c == 'j' {
                SourceAction::Vertical(1isize)
            } else if c == 'h' {
                SourceAction::Left
            } else if c == 'l' {
                SourceAction::Right
            } else if c == '0' {
                SourceAction::LineStart
            } else if c == '$' {
                SourceAction::LineEnd
            } else if c == 'u' && m.control {
                SourceAction::HalfPage(-1isize)
            } else if c == 'd' && m.control {
                SourceAction::HalfPage(1isize)
            } else if c == 'g' && empty {
                SourceAction::FirstRow
            } else if (c == 'G' || c == 'g') && m.shift {
                SourceAction::LastRow
            } else {
                SourceAction::Ignore
            }
        },
        KeyCode::Up => SourceAction::Vertical(-1isize),
        KeyCode::Down => SourceAction::Vertical(1isize),
        KeyCode::Left => SourceAction::Left,
        KeyCode::Right => SourceAction::Right,
        KeyCode::Home => SourceAction::LineStart,
        KeyCode::End => SourceAction::LineEnd,
        KeyCode::PageUp => SourceAction::Page(-1isize),
        KeyCode::PageDown => SourceAction::Page(1isize),
        _ => SourceAction::Ignore,
    }
}

/// The meaning of a key while writing a note.
pub fn classify_comment_key(key: KeyEvent) -> (a: CommentAction)
    ensures
        a == comment_action(key),
{
    let m = key.modifiers;
    match key.code {
        KeyCode::Esc => CommentAction::Escape,
        KeyCode::Enter => if m.alt {
            CommentAction::Newline
        } else {
            CommentAction::Save
        },
        KeyCode::Left => CommentAction::Left,
        KeyCode::Right => CommentAction::Right,
        KeyCode::Up => CommentAction::Up,
        KeyCode::Down => CommentAction::Down,
        KeyCode::Home => CommentAction::Home,
        KeyCode::End => CommentAction::End,
        KeyCode::Backspace => CommentAction::Backspace,
        KeyCode::Delete => CommentAction::Delete,
        KeyCode::Char(c) => if !(m.control || m.alt || m.super_key) {
            CommentAction::Insert(c)
        } else {
            CommentAction::Ignore
        },
        _ => CommentAction::Ignore,
    }
}

} // verus!
