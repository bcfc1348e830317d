//! Reading the real, echoed input off the terminal grid.
//!
//! The prompt renders the active input line as an arrow, a space and the input,
//! so the current input is exactly the run of cells from just past the last
//! prompt arrow up to the cursor. Reading the grid never gets out of step with
//! the shell's own line editor, as keystrokes do.

use vstd::prelude::*;

use crate::text;
use crate::unicode;

verus! {

/// How many rows above the cursor a wrapped line is followed.
pub const MAX_WRAPPED_ROWS: usize = 64;

/// A cell of the grid.
#[derive(Debug, Clone, Copy, PartialEq, Eq, Structural)]
pub struct GridCell {
    pub c: char,
    /// Whether the cell only makes room for a wide character.
    pub spacer: bool,
}

/// A row of the grid.
pub struct GridRow {
    pub cells: Vec<GridCell>,
    /// Whether the line goes on in the row below.
    pub wraps: bool,
}

/// A row of the grid, as a value.
pub struct Row {
    pub cells: Seq<GridCell>,
    pub wraps: bool,
}

impl GridRow {
    pub open spec fn value(self) -> Row {
        Row { cells: self.cells@, wraps: self.wraps }
    }
}

pub open spec fn rows_value(v: Seq<GridRow>) -> Seq<Row> {
    v.map_values(|r: GridRow| r.value())
}

/// The characters of cells, without the spacers.
pub open spec fn cell_text(cells: Seq<GridCell>) -> Seq<char>
    decreases cells.len(),
{
    if cells.len() == 0 {
        Seq::empty()
    } else if cells.last().spacer {
        cell_text(cells.drop_last())
    } else {
        cell_text(cells.drop_last()).push(cells.last().c)
    }
}

/// Whether cells hold nothing but white space.
pub open spec fn is_blank(cells: Seq<GridCell>) -> bool {
    forall|i: int|
        0 <= i < cells.len() ==> (#[trigger] cells[i]).spacer || unicode::whitespace(cells[i].c)
}

/// The first row of the line that ends in row `i`: rows that wrap are followed
/// upwards, `left` of them at most.
pub open spec fn first_row(rows: Seq<Row>, i: nat, left: nat) -> nat
    decreases left,
{
    if left == 0 || i == 0 || !rows[i - 1].wraps {
        i
    } else {
        first_row(rows, (i - 1) as nat, (left - 1) as nat)
    }
}

/// The text of rows `from..to`, all of them whole.
pub open spec fn rows_text(rows: Seq<Row>, from: nat, to: nat) -> Seq<char>
    decreases to - from,
{
    if from >= to {
        Seq::empty()
    } else {
        rows_text(rows, from, (to - 1) as nat) + cell_text(rows[to - 1].cells)
    }
}

/// The text of the line up to the cursor, which stands in the last row.
pub open spec fn line_text(rows: Seq<Row>, cursor_col: nat) -> Seq<char> {
    let last = (rows.len() - 1) as nat;
    let first = first_row(rows, last, MAX_WRAPPED_ROWS as nat);
    rows_text(rows, first, last) + cell_text(rows[last as int].cells.take(cursor_col as int))
}

/// What stands behind the last prompt arrow.
pub open spec fn behind_arrow(s: Seq<char>) -> Option<Seq<char>>
    decreases s.len(),
{
    if s.len() == 0 {
        None
    } else if s.last() == '\u{276F}' {
        Some(Seq::empty())
    } else {
        match behind_arrow(s.drop_last()) {
            Some(t) => Some(t.push(s.last())),
            None => None,
        }
    }
}

/// A text without the one space that begins it.
pub open spec fn without_space(s: Seq<char>) -> Seq<char> {
    if s.len() > 0 && s[0] == ' ' {
        s.drop_first()
    } else {
        s
    }
}

/// The cursor's column within its row.
pub open spec fn column_in(row: Row, col: nat) -> nat {
    if col < row.cells.len() {
        col
    } else {
        row.cells.len()
    }
}

/// The input on the grid: nothing where the line goes on below or behind the
/// cursor (a line that is edited in its middle), or where no prompt arrow stands
/// in front of it.
pub open spec fn input_on(rows: Seq<Row>, col: nat) -> Option<Seq<char>> {
    let row = rows.last();
    let cursor_col = column_in(row, col);
    if row.wraps || !is_blank(row.cells.skip(cursor_col as int)) {
        None
    } else {
        match behind_arrow(line_text(rows, cursor_col)) {
            Some(t) => Some(without_space(t)),
            None => None,
        }
    }
}

fn push_cells(out: &mut Vec<char>, cells: &Vec<GridCell>, to: usize)
    requires
        to <= cells@.len(),
    ensures
        final(out)@ == old(out)@ + cell_text(cells@.take(to as int)),
{
    let ghost start = out@;
    let mut i: usize = 0;
    assert(cells@.take(0) =~= Seq::empty());
    assert(start + Seq::<char>::empty() =~= start);
    while i < to
        invariant
            i <= to <= cells@.len(),
            out@ == start + cell_text(cells@.take(i as int)),
        decreases to - i,
    {
        assert(cells@.take(i + 1).drop_last() =~= cells@.take(i as int));
        assert(cells@.take(i + 1).last() == cells@[i as int]);
        if !cells[i].spacer {
            let ghost held = cell_text(cells@.take(i as int));
            out.push(cells[i].c);
            assert(out@ =~= start + held.push(cells@[i as int].c));
        }
        i += 1;
    }
}

fn blank_from(cells: &Vec<GridCell>, from: usize) -> (r: bool)
    requires
        from <= cells@.len(),
    ensures
        r == is_blank(cells@.skip(from as int)),
{
    let ghost rest = cells@.skip(from as int);
    let mut i: usize = from;
    while i < cells.len()
        invariant
            from <= i <= cells@.len(),
            rest == cells@.skip(from as int),
            forall|j: int|
                0 <= j < i - from ==> (#[trigger] rest[j]).spacer || unicode::whitespace(rest[j].c),
        decreases cells@.len() - i,
    {
        assert(rest[i - from] == cells@[i as int]);
        if !cells[i].spacer && !unicode::is_whitespace(cells[i].c) {
            return false;
        }
        i += 1;
    }
    true
}

proof fn lemma_arrow_at(s: Seq<char>, i: int)
    requires
        0 <= i < s.len(),
        s[i] == '\u{276F}',
        forall|j: int| i < j < s.len() ==> s[j] != '\u{276F}',
    ensures
        behind_arrow(s) == Some(s.skip(i + 1)),
    decreases s.len(),
{
    if i == s.len() - 1 {
        assert(s.skip(i + 1) =~= Seq::empty());
    } else {
        lemma_arrow_at(s.drop_last(), i);
        assert(s.drop_last().skip(i + 1).push(s.last()) =~= s.skip(i + 1));
    }
}

proof fn lemma_no_arrow(s: Seq<char>)
    requires
        forall|j: int| 0 <= j < s.len() ==> s[j] != '\u{276F}',
    ensures
        behind_arrow(s) is None,
    decreases s.len(),
{
    if s.len() > 0 {
        lemma_no_arrow(s.drop_last());
    }
}

pub open spec fn optional_text(s: Option<String>) -> Option<Seq<char>> {
    match s {
        Some(s) => Some(s@),
        None => None,
    }
}

/// The input on the grid. `rows` go from the topmost row of the grid down to the
/// cursor's.
pub fn nebula_input_from_raw_grid(rows: &Vec<GridRow>, cursor_column: usize) -> (r: Option<String>)
    requires
        rows@.len() > 0,
    ensures
        optional_text(r) == input_on(rows_value(rows@), cursor_column as nat),
{
    let ghost all = rows_value(rows@);
    let last: usize = rows.len() - 1;
    let row: &GridRow = &rows[last];
    assert(all.last() == row.value());
    let col: usize = if cursor_column < row.cells.len() {
        cursor_column
    } else {
        row.cells.len()
    };
    if row.wraps || !blank_from(&row.cells, col) {
        return None;
    }
    let mut first: usize = last;
    let mut left: usize = MAX_WRAPPED_ROWS;
    while first > 0 && left > 0 && rows[first - 1].wraps
        invariant
            first <= last < rows@.len(),
            all == rows_value(rows@),
            first_row(all, last as nat, MAX_WRAPPED_ROWS as nat) == first_row(
                all,
                first as nat,
                left as nat,
            ),
        decreases left,
    {
        assert(all[first - 1] == rows@[first - 1].value());
        first -= 1;
        left -= 1;
    }
    proof {
        if first > 0 {
            assert(all[first - 1] == rows@[first - 1].value());
        }
    }
    let mut out: Vec<char> = Vec::new();
    let mut i: usize = first;
    while i < last
        invariant
            first <= i <= last < rows@.len(),
            all == rows_value(rows@),
            out@ == rows_text(all, first as nat, i as nat),
        decreases last - i,
    {
        assert(all[i as int] == rows@[i as int].value());
        let len: usize = rows[i].cells.len();
        assert(rows@[i as int].cells@.take(len as int) =~= rows@[i as int].cells@);
        push_cells(&mut out, &rows[i].cells, len);
        i += 1;
    }
    push_cells(&mut out, &row.cells, col);
    assert(out@ == line_text(all, col as nat));
    let mut at: usize = out.len();
    while at > 0 && out[at - 1] != '\u{276F}'
        invariant
            at <= out@.len(),
            forall|j: int| at <= j < out@.len() ==> out@[j] != '\u{276F}',
        decreases at,
    {
        at -= 1;
    }
    if at == 0 {
        proof {
            lemma_no_arrow(out@);
        }
        return None;
    }
    proof {
        lemma_arrow_at(out@, at - 1);
    }
    let ghost tail = out@.skip(at as int);
    let from: usize = if at < out.len() && out[at] == ' ' {
        at + 1
    } else {
        at
    };
    let r = text::string_of_range(out.as_slice(), from, out.len());
    assert(r@ =~= without_space(tail));
    Some(r)
}

/// The columns at which prompt arrows stand in the first `n` cells.
pub open spec fn arrow_columns(cells: Seq<GridCell>, n: nat) -> Seq<usize>
    decreases n,
{
    if n == 0 || n > cells.len() {
        Seq::empty()
    } else {
        let c = cells[n - 1];
        let before = arrow_columns(cells, (n - 1) as nat);
        if !c.spacer && c.c == '\u{276F}' {
            before.push((n - 1) as usize)
        } else {
            before
        }
    }
}

/// `s` without the spaces that end it.
pub open spec fn without_end_spaces(s: Seq<char>) -> Seq<char>
    decreases s.len(),
{
    if s.len() > 0 && s.last() == ' ' {
        without_end_spaces(s.drop_last())
    } else {
        s
    }
}

/// A row as it is logged: the columns of its prompt arrows and its text.
pub struct RowPreview {
    pub arrows: Vec<usize>,
    pub text: String,
}

/// A row as it is logged.
pub fn nebula_raw_grid_row_preview(row: &GridRow) -> (r: RowPreview)
    ensures
        r.arrows@ == arrow_columns(row.cells@, row.cells@.len()),
        r.text@ == without_end_spaces(cell_text(row.cells@)),
{
    let cells: &Vec<GridCell> = &row.cells;
    let mut arrows: Vec<usize> = Vec::new();
    let mut i: usize = 0;
    while i < cells.len()
        invariant
            i <= cells@.len(),
            arrows@ == arrow_columns(cells@, i as nat),
        decreases cells@.len() - i,
    {
        if !cells[i].spacer && cells[i].c == '\u{276F}' {
            arrows.push(i);
        }
        i += 1;
    }
    let mut out: Vec<char> = Vec::new();
    let len: usize = cells.len();
    push_cells(&mut out, cells, len);
    assert(cells@.take(len as int) =~= cells@);
    assert(out@ =~= cell_text(cells@));
    let mut to: usize = out.len();
    assert(out@.take(to as int) =~= out@);
    while to > 0 && out[to - 1] == ' '
        invariant
            to <= out@.len(),
            without_end_spaces(out@) == without_end_spaces(out@.take(to as int)),
        decreases to,
    {
        assert(out@.take(to as int).drop_last() =~= out@.take(to - 1));
        to -= 1;
    }
    let text = text::string_of_range(out.as_slice(), 0, to);
    assert(text@ =~= out@.take(to as int));
    RowPreview { arrows, text }
}

/// What is read never holds a prompt arrow.
pub proof fn law_input_holds_no_arrow(s: Seq<char>)
    ensures
        behind_arrow(s) matches Some(t) ==> forall|i: int|
            0 <= i < t.len() ==> t[i] != '\u{276F}',
    decreases s.len(),
{
    if s.len() > 0 && s.last() != '\u{276F}' {
        law_input_holds_no_arrow(s.drop_last());
        if let Some(t) = behind_arrow(s.drop_last()) {
            assert forall|i: int| 0 <= i < t.push(s.last()).len() implies t.push(s.last())[i]
                != '\u{276F}' by {
                if i < t.len() {
                    assert(t.push(s.last())[i] == t[i]);
                }
            }
        }
    }
}

proof fn lemma_behind_arrow_of(before: Seq<char>, input: Seq<char>)
    requires
        forall|i: int| 0 <= i < input.len() ==> input[i] != '\u{276F}',
    ensures
        behind_arrow(before.push('\u{276F}') + input) == Some(input),
{
    let s = before.push('\u{276F}') + input;
    lemma_arrow_at(s, before.len() as int);
    assert(s.skip(before.len() as int + 1) =~= input);
}

/// What stands behind the prompt arrow and a space, up to the cursor, is what is
/// read, however many rows the line is wrapped over.
pub proof fn law_typed_input_is_read(rows: Seq<Row>, col: nat, before: Seq<char>, input: Seq<char>)
    requires
        rows.len() > 0,
        col <= rows.last().cells.len(),
        !rows.last().wraps,
        is_blank(rows.last().cells.skip(col as int)),
        line_text(rows, col) == before.push('\u{276F}') + seq![' '] + input,
        forall|i: int| 0 <= i < input.len() ==> input[i] != '\u{276F}',
    ensures
        input_on(rows, col) == Some(input),
{
    let spaced = seq![' '] + input;
    assert(line_text(rows, col) =~= before.push('\u{276F}') + spaced);
    lemma_behind_arrow_of(before, spaced);
    assert(without_space(spaced) =~= input);
}

} // verus!
