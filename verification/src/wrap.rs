//! Display widths and soft wrapping of source lines into screen rows.
use vstd::prelude::*;

use unicode_width::UnicodeWidthChar;

verus! {

/// The column width that `unicode_width` reports for a character
/// (`None` for control characters).
pub uninterp spec fn unicode_char_width(c: char) -> Option<usize>;

/// The displayed width of a character: `UnicodeWidthChar::width`.
/// The contract restates what the crate's source shows: control characters
/// below U+0020 and from U+007F to U+009F have no width, printable ASCII is one
/// column wide, and no width exceeds three. Other widths come from the crate's
/// Unicode tables and are only named.
#[verifier::external_body]
fn char_width(c: char) -> (w: Option<usize>)
    ensures
        w == unicode_char_width(c),
        ((c as u32) < 0x20 || (0x7f <= (c as u32) && (c as u32) < 0xa0)) ==> w is None,
        (0x20 <= (c as u32) && (c as u32) < 0x7f) ==> w == Some(1usize),
        w matches Some(n) ==> n <= 3,
{
    UnicodeWidthChar::width(c)
}

/// Width used for layout: control characters take no column, printable
/// ASCII one, and any other character what `unicode_width` reports for it
/// (none counting as zero).
pub open spec fn width_of(c: char) -> usize {
    if (c as u32) < 0x20 || (0x7f <= (c as u32) && (c as u32) < 0xa0) {
        0
    } else if (c as u32) < 0x7f {
        1
    } else {
        match unicode_char_width(c) {
            Some(n) => n,
            None => 0,
        }
    }
}

pub open spec fn sat_add(a: usize, b: usize) -> usize {
    if a + b > usize::MAX {
        usize::MAX
    } else {
        (a + b) as usize
    }
}

pub open spec fn sat_sub(a: usize, b: usize) -> usize {
    if a > b {
        (a - b) as usize
    } else {
        0
    }
}

pub open spec fn min_usize(a: usize, b: usize) -> usize {
    if a < b {
        a
    } else {
        b
    }
}

pub open spec fn max_usize(a: usize, b: usize) -> usize {
    if a > b {
        a
    } else {
        b
    }
}

/// Total displayed width of the characters of `s`, saturating at `usize::MAX`.
pub open spec fn width_sum(s: Seq<char>) -> usize
    decreases s.len(),
{
    if s.len() == 0 {
        0
    } else {
        sat_add(width_sum(s.drop_last()), width_of(s.last()))
    }
}

/// Screen column at which source column `column` of `line` starts.
pub open spec fn display_column_of(line: Seq<char>, column: usize) -> usize {
    width_sum(line.take(min_usize(column, line.len() as usize) as int))
}

/// A screen row: the source columns `start_column..end_column` of one line.
#[derive(Debug, Clone, Copy, PartialEq, Eq)]
pub struct WrappedRow {
    pub source_row: usize,
    pub start_column: usize,
    pub end_column: usize,
}

/// Rows closed so far, start of the open row and its width, after the first
/// `k` characters of a line.
pub struct WrapAcc {
    pub rows: Seq<WrappedRow>,
    pub start: usize,
    pub row_width: usize,
}

/// Wrapping scans a line left to right and closes the open row before a
/// character that would overflow `width`, unless the row is still empty.
pub open spec fn wrap_fold(line: Seq<char>, width: usize, source_row: usize, k: nat) -> WrapAcc
    decreases k,
{
    if k == 0 {
        WrapAcc { rows: Seq::empty(), start: 0, row_width: 0 }
    } else {
        let a = wrap_fold(line, width, source_row, (k - 1) as nat);
        let column = (k - 1) as usize;
        let w = width_of(line[k - 1]);
        if a.row_width > 0 && sat_add(a.row_width, w) > width {
            WrapAcc {
                rows: a.rows.push(WrappedRow { source_row, start_column: a.start, end_column: column }),
                start: column,
                row_width: w,
            }
        } else {
            WrapAcc { rows: a.rows, start: a.start, row_width: sat_add(a.row_width, w) }
        }
    }
}

/// The screen rows of one line at `width` columns; an empty line has one empty row.
pub open spec fn wrap_line(line: Seq<char>, width: usize, source_row: usize) -> Seq<WrappedRow> {
    let a = wrap_fold(line, width, source_row, line.len());
    a.rows.push(WrappedRow { source_row, start_column: a.start, end_column: line.len() as usize })
}

/// The screen rows of all lines, in order.
pub open spec fn wrap_lines(lines: Seq<Seq<char>>, width: usize) -> Seq<WrappedRow>
    decreases lines.len(),
{
    if lines.len() == 0 {
        Seq::empty()
    } else {
        wrap_lines(lines.drop_last(), width) + wrap_line(lines.last(), width, (lines.len() - 1) as usize)
    }
}

/// The screen rows of `lines` at `width` columns (at least one).
pub open spec fn wrapped(lines: Seq<Seq<char>>, width: usize) -> Seq<WrappedRow> {
    wrap_lines(lines, max_usize(width, 1))
}

/// Whether a screen row shows a source position (an empty row shows its start).
pub open spec fn row_shows(row: WrappedRow, row_index: usize, column: usize) -> bool {
    row.source_row == row_index && ((row.start_column == row.end_column && column == row.start_column)
        || (row.start_column <= column && column < row.end_column))
}

/// The first screen row that shows the position, if any.
pub open spec fn row_index_of(rows: Seq<WrappedRow>, row: usize, column: usize) -> Option<usize> {
    if exists|i: int| 0 <= i < rows.len() && row_shows(#[trigger] rows[i], row, column) {
        let i = choose|i: int|
            0 <= i < rows.len() && row_shows(#[trigger] rows[i], row, column) && forall|j: int|
                0 <= j < i ==> !row_shows(#[trigger] rows[j], row, column);
        Some(i as usize)
    } else {
        None
    }
}

/// A row that shows the position exists exactly when the first one does, and
/// the first one is an index of `rows`.
pub proof fn lemma_row_index_of(rows: Seq<WrappedRow>, row: usize, column: usize)
    requires
        rows.len() <= usize::MAX,
    ensures
        row_index_of(rows, row, column) matches Some(i) ==> i < rows.len() && row_shows(rows[i as int], row, column)
            && forall|j: int| 0 <= j < i ==> !row_shows(#[trigger] rows[j], row, column),
{
    if exists|i: int| 0 <= i < rows.len() && row_shows(#[trigger] rows[i], row, column) {
        let k = choose|i: int| 0 <= i < rows.len() && row_shows(#[trigger] rows[i], row, column);
        lemma_first_shown(rows, row, column, k);
        let i = choose|i: int|
            0 <= i < rows.len() && row_shows(#[trigger] rows[i], row, column) && forall|j: int|
                0 <= j < i ==> !row_shows(#[trigger] rows[j], row, column);
        assert((i as usize) as int == i);
    }
}

proof fn lemma_first_shown(rows: Seq<WrappedRow>, row: usize, column: usize, k: int)
    requires
        0 <= k < rows.len(),
        row_shows(rows[k], row, column),
    ensures
        exists|i: int|
            0 <= i < rows.len() && row_shows(#[trigger] rows[i], row, column) && forall|j: int|
                0 <= j < i ==> !row_shows(#[trigger] rows[j], row, column),
    decreases k,
{
    if exists|j: int| 0 <= j < k && row_shows(#[trigger] rows[j], row, column) {
        let j = choose|j: int| 0 <= j < k && row_shows(#[trigger] rows[j], row, column);
        lemma_first_shown(rows, row, column, j);
    } else {
        assert(forall|j: int| 0 <= j < k ==> !row_shows(#[trigger] rows[j], row, column));
    }
}

/// Editor rows: the wrapped rows, plus an empty row after each line whose last
/// row is full, so that the cursor at the end of a full row has a place.
pub open spec fn editor_line_rows(line: Seq<char>, width: usize, source_row: usize) -> Seq<WrappedRow> {
    let rows = wrap_line(line, width, source_row);
    let last = rows.last();
    let row_width = sat_sub(
        display_column_of(line, last.end_column),
        display_column_of(line, last.start_column),
    );
    if row_width >= width {
        rows.push(WrappedRow { source_row, start_column: last.end_column, end_column: last.end_column })
    } else {
        rows
    }
}

pub open spec fn editor_lines_rows(lines: Seq<Seq<char>>, width: usize) -> Seq<WrappedRow>
    decreases lines.len(),
{
    if lines.len() == 0 {
        Seq::empty()
    } else {
        editor_lines_rows(lines.drop_last(), width) + editor_line_rows(
            lines.last(),
            width,
            (lines.len() - 1) as usize,
        )
    }
}

/// Characters `from..to` of `line`, both clamped to the line's length (an
/// inverted range gives the characters up to `to`).
pub open spec fn char_slice_of(line: Seq<char>, from: usize, to: usize) -> Seq<char> {
    let end = min_usize(to, line.len() as usize);
    let start = min_usize(min_usize(from, line.len() as usize), end);
    line.subrange(start as int, end as int)
}

/// `a` moved by `delta`, clamped to `0..=usize::MAX` (`usize::saturating_add_signed`).
pub open spec fn add_signed(a: usize, delta: isize) -> usize {
    let t = a + delta;
    if t < 0 {
        0
    } else if t > usize::MAX {
        usize::MAX
    } else {
        t as usize
    }
}

/// `a * b` clamped to the range of `isize` (`isize::saturating_mul`).
pub open spec fn mul_isize(a: isize, b: isize) -> isize {
    let t = a * b;
    if t < isize::MIN {
        isize::MIN
    } else if t > isize::MAX {
        isize::MAX
    } else {
        t as isize
    }
}

pub fn saturating_add_signed(a: usize, delta: isize) -> (r: usize)
    ensures
        r == add_signed(a, delta),
{
    let t: i128 = a as i128 + delta as i128;
    if t < 0 {
        0
    } else if t > usize::MAX as i128 {
        usize::MAX
    } else {
        t as usize
    }
}

pub fn saturating_mul_isize(a: isize, b: isize) -> (r: isize)
    ensures
        r == mul_isize(a, b),
{
    let x = a as i128;
    let y = b as i128;
    assert(-0x8000_0000_0000_0000 <= x <= 0x7fff_ffff_ffff_ffff);
    assert(-0x8000_0000_0000_0000 <= y <= 0x7fff_ffff_ffff_ffff);
    assert(-0x4000_0000_0000_0000_0000_0000_0000_0000 <= x * y <= 0x4000_0000_0000_0000_0000_0000_0000_0000) by (nonlinear_arith)
        requires
            -0x8000_0000_0000_0000 <= x <= 0x7fff_ffff_ffff_ffff,
            -0x8000_0000_0000_0000 <= y <= 0x7fff_ffff_ffff_ffff,
    ;
    let t: i128 = x * y;
    if t < isize::MIN as i128 {
        isize::MIN
    } else if t > isize::MAX as i128 {
        isize::MAX
    } else {
        t as isize
    }
}

pub fn saturating_add(a: usize, b: usize) -> (r: usize)
    ensures
        r == sat_add(a, b),
{
    a.saturating_add(b)
}

pub fn saturating_sub(a: usize, b: usize) -> (r: usize)
    ensures
        r == sat_sub(a, b),
{
    a.saturating_sub(b)
}

/// Displayed width of a character, zero for one without a width.
pub fn exec_width_of(c: char) -> (w: usize)
    ensures
        w == width_of(c),
        w <= 3,
{
    match char_width(c) {
        Some(n) => n,
        None => 0,
    }
}

/// Screen column at which source column `column` of `line` starts.
pub fn display_column(line: &[char], column: usize) -> (r: usize)
    ensures
        r == display_column_of(line@, column),
{
    let n = if column < line.len() { column } else { line.len() };
    let mut total: usize = 0;
    let mut i: usize = 0;
    while i < n
        invariant
            i <= n <= line@.len(),
            n == min_usize(column, line@.len() as usize),
            total == width_sum(line@.take(i as int)),
        decreases n - i,
    {
        assert(line@.take(i + 1).drop_last() =~= line@.take(i as int));
        total = saturating_add(total, exec_width_of(line[i]));
        i += 1;
    }
    total
}

/// Characters `from..to` of `line`, clamped to its length.
pub fn char_slice(line: &[char], from: usize, to: usize) -> (r: Vec<char>)
    ensures
        r@ == char_slice_of(line@, from, to),
{
    let end = if to < line.len() { to } else { line.len() };
    let f = if from < line.len() { from } else { line.len() };
    let start = if f < end { f } else { end };
    let mut r: Vec<char> = Vec::new();
    let mut i: usize = start;
    while i < end
        invariant
            start <= i <= end <= line@.len(),
            r@ == line@.subrange(start as int, i as int),
        decreases end - i,
    {
        r.push(line[i]);
        i += 1;
        assert(r@ =~= line@.subrange(start as int, i as int));
    }
    r
}

/// Appends the screen rows of one line to `rows`.
fn push_line_rows(rows: &mut Vec<WrappedRow>, line: &[char], width: usize, source_row: usize)
    ensures
        final(rows)@ == old(rows)@ + wrap_line(line@, width, source_row),
{
    let ghost before = rows@;
    let mut start: usize = 0;
    let mut row_width: usize = 0;
    let mut column: usize = 0;
    while column < line.len()
        invariant
            column <= line@.len(),
            rows@ == before + wrap_fold(line@, width, source_row, column as nat).rows,
            start == wrap_fold(line@, width, source_row, column as nat).start,
            row_width == wrap_fold(line@, width, source_row, column as nat).row_width,
        decreases line@.len() - column,
    {
        let w = exec_width_of(line[column]);
        if row_width > 0 && saturating_add(row_width, w) > width {
            rows.push(WrappedRow { source_row, start_column: start, end_column: column });
            start = column;
            row_width = 0;
        }
        row_width = saturating_add(row_width, w);
        column += 1;
        assert(rows@ =~= before + wrap_fold(line@, width, source_row, column as nat).rows);
    }
    rows.push(WrappedRow { source_row, start_column: start, end_column: line.len() });
    assert(rows@ =~= before + wrap_line(line@, width, source_row));
}

/// The screen rows of `lines` at `width` columns (a zero width counts as one).
pub fn wrapped_rows(lines: &[Vec<char>], width: usize) -> (r: Vec<WrappedRow>)
    ensures
        r@ == wrapped(lines@.map_values(|l: Vec<char>| l@), width),
{
    let width = if width > 1 { width } else { 1 };
    let ghost views = lines@.map_values(|l: Vec<char>| l@);
    let mut rows: Vec<WrappedRow> = Vec::new();
    let mut i: usize = 0;
    while i < lines.len()
        invariant
            i <= lines@.len(),
            width >= 1,
            views == lines@.map_values(|l: Vec<char>| l@),
            rows@ == wrap_lines(views.take(i as int), width),
        decreases lines@.len() - i,
    {
        push_line_rows(&mut rows, &lines[i], width, i);
        assert(views.take(i + 1).drop_last() =~= views.take(i as int));
        i += 1;
    }
    assert(views.take(lines@.len() as int) =~= views);
    rows
}

/// The first screen row showing `(row, column)`.
pub fn wrapped_row_index(rows: &[WrappedRow], row: usize, column: usize) -> (r: Option<usize>)
    ensures
        r == row_index_of(rows@, row, column),
        r matches Some(i) ==> i < rows@.len(),
{
    let mut i: usize = 0;
    while i < rows.len()
        invariant
            i <= rows@.len(),
            forall|j: int| 0 <= j < i ==> !row_shows(#[trigger] rows@[j], row, column),
        decreases rows@.len() - i,
    {
        let r = rows[i];
        if r.source_row == row && ((r.start_column == r.end_column && column == r.start_column) || (
        r.start_column <= column && column < r.end_column)) {
            assert(row_shows(rows@[i as int], row, column));
            proof {
                let k = choose|k: int|
                    0 <= k < rows@.len() && row_shows(#[trigger] rows@[k], row, column) && forall|j: int|
                        0 <= j < k ==> !row_shows(#[trigger] rows@[j], row, column);
                assert(k == i) by {
                    if k < i {
                    } else if k > i {
                        assert(!row_shows(rows@[i as int], row, column));
                    }
                }
            }
            return Some(i);
        }
        i += 1;
    }
    None
}

/// Screen rows for the note editor at `width` columns (a zero width counts as one).
pub fn wrapped_editor_rows(lines: &[Vec<char>], width: usize) -> (r: Vec<WrappedRow>)
    ensures
        r@ == editor_lines_rows(lines@.map_values(|l: Vec<char>| l@), max_usize(width, 1)),
{
    let width = if width > 1 { width } else { 1 };
    let ghost views = lines@.map_values(|l: Vec<char>| l@);
    let mut rows: Vec<WrappedRow> = Vec::new();
    let mut i: usize = 0;
    while i < lines.len()
        invariant
            i <= lines@.len(),
            width >= 1,
            views == lines@.map_values(|l: Vec<char>| l@),
            rows@ == editor_lines_rows(views.take(i as int), width),
        decreases lines@.len() - i,
    {
        let ghost before = rows@;
        let mut line_rows: Vec<WrappedRow> = Vec::new();
        push_line_rows(&mut line_rows, &lines[i], width, i);
        assert(line_rows@ =~= wrap_line(views[i as int], width, i));
        let last = line_rows[line_rows.len() - 1];
        let row_width = saturating_sub(
            display_column(&lines[i], last.end_column),
            display_column(&lines[i], last.start_column),
        );
        if row_width >= width {
            line_rows.push(WrappedRow { source_row: i, start_column: last.end_column, end_column: last.end_column });
        }
        rows.append(&mut line_rows);
        assert(views.take(i + 1).drop_last() =~= views.take(i as int));
        assert(rows@ =~= before + editor_line_rows(views[i as int], width, i));
        i += 1;
    }
    assert(views.take(lines@.len() as int) =~= views);
    rows
}

/// The rows of one line all belong to it, and there is at least one.
pub proof fn lemma_wrap_line_rows(line: Seq<char>, width: usize, n: usize)
    ensures
        wrap_line(line, width, n).len() >= 1,
        forall|i: int| 0 <= i < wrap_line(line, width, n).len() ==> (#[trigger] wrap_line(line, width, n)[i]).source_row == n,
{
    lemma_wrap_fold_rows(line, width, n, line.len());
}

pub proof fn lemma_wrap_fold_rows(line: Seq<char>, width: usize, n: usize, k: nat)
    ensures
        forall|i: int| 0 <= i < wrap_fold(line, width, n, k).rows.len()
            ==> (#[trigger] wrap_fold(line, width, n, k).rows[i]).source_row == n,
    decreases k,
{
    if k > 0 {
        lemma_wrap_fold_rows(line, width, n, (k - 1) as nat);
        let a = wrap_fold(line, width, n, (k - 1) as nat);
        let b = wrap_fold(line, width, n, k);
        assert forall|i: int| 0 <= i < b.rows.len() implies (#[trigger] b.rows[i]).source_row == n by {
            if i < a.rows.len() {
                assert(a.rows[i].source_row == n);
            }
        }
    }
}

/// The rows of a line cover it without gaps or overlaps: the first starts at
/// column zero, each starts where the previous ended, the last ends at the
/// line's end.
pub open spec fn tiles(rows: Seq<WrappedRow>, len: usize) -> bool {
    &&& rows.len() >= 1
    &&& rows[0].start_column == 0
    &&& rows.last().end_column == len
    &&& forall|j: int| 0 <= j < rows.len() - 1 ==> #[trigger] rows[j].end_column == rows[j + 1].start_column
    &&& forall|j: int| 0 <= j < rows.len() ==> #[trigger] rows[j].start_column <= rows[j].end_column
}

/// What holds of the rows closed after the first `k` characters of a line.
pub open spec fn fold_shape(a: WrapAcc, k: nat) -> bool {
    &&& a.start <= k
    &&& (a.row_width > 0 ==> a.start < k)
    &&& (a.rows.len() == 0 ==> a.start == 0)
    &&& (a.rows.len() > 0 ==> a.rows[0].start_column == 0 && a.rows.last().end_column == a.start)
    &&& forall|j: int| 0 <= j < a.rows.len() - 1 ==> #[trigger] a.rows[j].end_column == a.rows[j + 1].start_column
    &&& forall|j: int| 0 <= j < a.rows.len() ==> #[trigger] a.rows[j].start_column < a.rows[j].end_column
}

pub proof fn lemma_fold_shape(line: Seq<char>, width: usize, n: usize, k: nat)
    requires
        k <= line.len(),
        line.len() <= usize::MAX,
    ensures
        fold_shape(wrap_fold(line, width, n, k), k),
    decreases k,
{
    if k > 0 {
        lemma_fold_shape(line, width, n, (k - 1) as nat);
        let a = wrap_fold(line, width, n, (k - 1) as nat);
        let b = wrap_fold(line, width, n, k);
        if a.row_width > 0 && sat_add(a.row_width, width_of(line[k - 1])) > width {
            assert forall|j: int| 0 <= j < b.rows.len() - 1 implies #[trigger] b.rows[j].end_column
                == b.rows[j + 1].start_column by {
                if j < a.rows.len() - 1 {
                    assert(b.rows[j] == a.rows[j] && b.rows[j + 1] == a.rows[j + 1]);
                }
            }
            assert forall|j: int| 0 <= j < b.rows.len() implies #[trigger] b.rows[j].start_column
                < b.rows[j].end_column by {
                if j < a.rows.len() {
                    assert(b.rows[j] == a.rows[j]);
                }
            }
        }
    }
}

/// The rows of a line tile it.
pub proof fn lemma_wrap_line_tiles(line: Seq<char>, width: usize, n: usize)
    requires
        line.len() <= usize::MAX,
    ensures
        tiles(wrap_line(line, width, n), line.len() as usize),
{
    lemma_fold_shape(line, width, n, line.len());
    let a = wrap_fold(line, width, n, line.len());
    let rows = wrap_line(line, width, n);
    assert forall|j: int| 0 <= j < rows.len() - 1 implies #[trigger] rows[j].end_column == rows[j + 1].start_column by {
        if j < a.rows.len() - 1 {
            assert(rows[j] == a.rows[j] && rows[j + 1] == a.rows[j + 1]);
        }
    }
    assert forall|j: int| 0 <= j < rows.len() implies #[trigger] rows[j].start_column <= rows[j].end_column by {
        if j < a.rows.len() {
            assert(rows[j] == a.rows[j]);
        }
    }
}

/// Tiling rows cover every column before the line's end.
pub proof fn lemma_tiles_cover(rows: Seq<WrappedRow>, len: usize, column: usize, j: int)
    requires
        tiles(rows, len),
        0 <= j < rows.len(),
        rows[j].start_column <= column < len,
    ensures
        exists|i: int| 0 <= i < rows.len() && rows[i].start_column <= column && column < #[trigger] rows[i].end_column,
    decreases rows.len() - j,
{
    if column >= rows[j].end_column {
        assert(j < rows.len() - 1);
        lemma_tiles_cover(rows, len, column, j + 1);
    }
}

/// Every position a cursor can take in a snapshot is shown by some screen row:
/// a character of a line, or the start of an empty line.
pub proof fn lemma_position_shown(lines: Seq<Seq<char>>, width: usize, row: usize, column: usize)
    requires
        row < lines.len(),
        lines.len() <= usize::MAX,
        forall|i: int| 0 <= i < lines.len() ==> (#[trigger] lines[i]).len() <= usize::MAX,
        column < lines[row as int].len() || (lines[row as int].len() == 0 && column == 0),
    ensures
        exists|i: int| 0 <= i < wrap_lines(lines, width).len() && row_shows(#[trigger] wrap_lines(lines, width)[i], row, column),
    decreases lines.len(),
{
    let n = (lines.len() - 1) as usize;
    let head = wrap_lines(lines.drop_last(), width);
    let tail = wrap_line(lines.last(), width, n);
    let all = wrap_lines(lines, width);
    assert(all == head + tail);
    assert(lines[lines.len() - 1] == lines.last());
    if row == n {
        let line = lines.last();
        lemma_wrap_line_tiles(line, width, n);
        lemma_wrap_line_rows(line, width, n);
        if line.len() == 0 {
            lemma_fold_shape(line, width, n, 0);
            assert(tail[0].start_column == 0 && tail[0].end_column == 0);
            assert(tail[0].source_row == n);
            assert(all[head.len() as int] == tail[0]);
            assert(row_shows(all[head.len() as int], row, column));
        } else {
            lemma_tiles_cover(tail, line.len() as usize, column, 0);
            let i = choose|i: int| 0 <= i < tail.len() && tail[i].start_column <= column && column < #[trigger] tail[i].end_column;
            assert(all[head.len() + i] == tail[i]);
            assert(row_shows(all[head.len() + i], row, column));
        }
    } else {
        assert forall|i: int| 0 <= i < lines.drop_last().len() implies (#[trigger] lines.drop_last()[i]).len() <= usize::MAX by {
            assert(lines.drop_last()[i] == lines[i]);
        }
        lemma_position_shown(lines.drop_last(), width, row, column);
        let i = choose|i: int| 0 <= i < head.len() && row_shows(#[trigger] head[i], row, column);
        assert(all[i] == head[i]);
    }
}

} // verus!
