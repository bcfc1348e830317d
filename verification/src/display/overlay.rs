//! Texts that lie over the grid: the search bar, the link tooltip, the line
//! indicator, the size shown while resizing, and the input method's preview.

use vstd::prelude::*;

use crate::display::program;
use crate::display::width;
use crate::text;

verus! {

broadcast use vstd::string::group_string_axioms;

/// A direction along the grid.
#[derive(Debug, Clone, Copy, PartialEq, Eq, Structural)]
pub enum Direction {
    Left,
    Right,
}

/// The label of the search bar.
pub open spec fn label_of(direction: Direction) -> Seq<char> {
    match direction {
        Direction::Right => "Search: "@,
        Direction::Left => "Backward Search: "@,
    }
}

/// The label of the search bar.
pub fn search_label(direction: Direction) -> (r: &'static str)
    ensures
        r@ == label_of(direction),
{
    match direction {
        Direction::Right => "Search: ",
        Direction::Left => "Backward Search: ",
    }
}

/// How many columns are left for the query behind the label and in front of the
/// cursor; nothing where only the label is visible. Where the label fills the
/// bar, the query is not shortened.
pub open spec fn query_room(label_len: nat, max_width: usize) -> Option<usize> {
    if label_len > max_width {
        None
    } else if label_len == max_width {
        Some(usize::MAX)
    } else {
        Some((max_width - label_len - 1) as usize)
    }
}

/// How many columns are left for the query of a search in a direction.
pub fn search_room(direction: Direction, max_width: usize) -> (r: Option<usize>)
    ensures
        r == query_room(label_of(direction).len(), max_width),
{
    let label_len: usize = text::chars_of(search_label(direction)).len();
    if label_len > max_width {
        None
    } else if label_len == max_width {
        Some(usize::MAX)
    } else {
        Some(max_width - label_len - 1)
    }
}

/// The text of the search bar.
pub open spec fn bar_text(direction: Direction, query: Seq<char>, max_width: nat) -> Seq<char> {
    let label = label_of(direction);
    if label.len() > max_width {
        label.take(max_width as int)
    } else {
        label + query + " "@
    }
}

/// The text of the search bar: label, the query as it was shortened to
/// [`search_room`], and a place for the cursor.
pub fn format_search(shortened: &str, direction: Direction, max_width: usize) -> (r: String)
    ensures
        r@ == bar_text(direction, shortened@, max_width as nat),
{
    let label: &str = search_label(direction);
    let v = text::chars_of(label);
    if v.len() > max_width {
        let r = text::string_of_range(v.as_slice(), 0, max_width);
        assert(r@ =~= v@.take(max_width as int));
        return r;
    }
    let mut r = label.to_owned();
    r.append(shortened);
    r.append(" ");
    r
}

/// A text filled up with spaces to a number of characters.
pub open spec fn padded(s: Seq<char>, len: nat) -> Seq<char> {
    if s.len() >= len {
        s
    } else {
        s + Seq::new((len - s.len()) as nat, |i: int| ' ')
    }
}

/// A text filled up with spaces to a number of columns, so that a bar covers its
/// whole row.
pub fn pad_to(s: &str, num_cols: usize) -> (r: String)
    ensures
        r@ == padded(s@, num_cols as nat),
{
    let mut r = s.to_owned();
    let mut n: usize = text::chars_of(s).len();
    let ghost len = s@.len();
    assert(s@ =~= s@ + Seq::new(0, |i: int| ' '));
    while n < num_cols
        invariant
            len <= n,
            n <= num_cols || n == len,
            len == s@.len(),
            r@ == s@ + Seq::new((n - len) as nat, |i: int| ' '),
        decreases num_cols - n,
    {
        r.push(' ');
        n += 1;
        assert(r@ =~= s@ + Seq::new((n - len) as nat, |i: int| ' '));
    }
    r
}

/// A place on the grid.
#[derive(Debug, Clone, Copy, PartialEq, Eq, Structural)]
pub struct Cell {
    pub line: usize,
    pub column: usize,
}

/// The tooltip of a link.
pub struct LinkTooltip {
    pub label: String,
    pub at: Cell,
}

/// What opens a link.
pub open spec fn link_hint() -> Seq<char> {
    " · Ctrl+点击打开"@
}

/// `a` less `b`, but not below 0.
pub open spec fn less(a: nat, b: nat) -> nat {
    if b <= a {
        (a - b) as nat
    } else {
        0
    }
}

/// The text of a link's tooltip: where it leads, cut on the left to the room that
/// the hint leaves.
pub open spec fn tooltip_text(uri: Seq<char>, num_cols: nat) -> Seq<char> {
    let room = less(num_cols, width::width(link_hint()) + 1);
    width::cut_left(program::without_scheme(uri), room) + link_hint()
}

/// One row below the pointer, or above it on the last row.
pub open spec fn tooltip_line(line: nat, screen_lines: nat) -> nat {
    if line + 1 < screen_lines {
        line + 1
    } else {
        less(line, 1)
    }
}

/// The tooltip of a link next to the hovered cell: shifted left so that the whole
/// label stays on screen.
pub fn link_tooltip(uri: &str, anchor: Cell, num_cols: usize, screen_lines: usize) -> (r: LinkTooltip)
    ensures
        r.label@ == tooltip_text(uri@, num_cols as nat),
        r.at.line == tooltip_line(anchor.line as nat, screen_lines as nat),
        r.at.column == ({
            let most = less(num_cols as nat, width::width(r.label@));
            if anchor.column < most {
                anchor.column as nat
            } else {
                most
            }
        }),
        r.at.column + width::width(r.label@) <= num_cols || r.at.column == 0,
{
    let hint: &str = " · Ctrl+点击打开";
    let hint_width: u128 = width::total_width(text::chars_of(hint).as_slice());
    let room: usize = if hint_width < num_cols as u128 {
        (num_cols as u128 - hint_width - 1) as usize
    } else {
        0
    };
    let target = program::strip_file_scheme(uri);
    let mut label = width::fit_tail(target.as_str(), room);
    label.append(hint);
    let label_width: u128 = width::total_width(text::chars_of(label.as_str()).as_slice());
    let line: usize = if anchor.line < screen_lines && anchor.line + 1 < screen_lines {
        anchor.line + 1
    } else if anchor.line > 0 {
        anchor.line - 1
    } else {
        0
    };
    let most: usize = if label_width <= num_cols as u128 {
        (num_cols as u128 - label_width) as usize
    } else {
        0
    };
    let column: usize = if anchor.column < most {
        anchor.column
    } else {
        most
    };
    LinkTooltip { label, at: Cell { line, column } }
}

/// The position of a line in the history, and where it is written.
pub struct LineIndicator {
    pub text: String,
    pub column: usize,
    /// Whether it is drawn: not where it would obscure the cursor.
    pub visible: bool,
}

pub open spec fn indicator_text(line: nat, total_lines: nat) -> Seq<char> {
    "["@ + text::digits_of(line) + "/"@ + text::digits_of((total_lines - 1) as nat) + "]"@
}

/// The indicator of a line's position, in the top right corner.
pub fn line_indicator(
    line: usize,
    total_lines: usize,
    columns: usize,
    obstructed_column: Option<usize>,
) -> (r: LineIndicator)
    requires
        total_lines > 0,
    ensures
        r.text@ == indicator_text(line as nat, total_lines as nat),
        r.column == less(columns as nat, r.text@.len()),
        r.visible == (obstructed_column is None || obstructed_column->0 < r.column),
{
    let mut t = "[".to_owned();
    t.append(text::number_text(line as u64).as_str());
    t.append("/");
    t.append(text::number_text((total_lines - 1) as u64).as_str());
    t.append("]");
    let len: usize = text::chars_of(t.as_str()).len();
    let column: usize = if len <= columns {
        columns - len
    } else {
        0
    };
    let visible: bool = match obstructed_column {
        None => true,
        Some(c) => c < column,
    };
    LineIndicator { text: t, column, visible }
}

/// The size that is shown while the window is resized.
pub struct ResizeHud {
    pub text: String,
    pub at: Cell,
}

/// The size that is shown while the window is resized, in the middle of it.
pub fn resize_hud(cols: usize, rows: usize, columns: usize, screen_lines: usize) -> (r: ResizeHud)
    ensures
        r.text@ == text::digits_of(cols as nat) + " × "@ + text::digits_of(rows as nat),
        r.at.column == less(columns as nat, r.text@.len()) / 2,
        r.at.line == screen_lines / 2,
{
    let mut t = text::number_text(cols as u64);
    t.append(" × ");
    t.append(text::number_text(rows as u64).as_str());
    let len: usize = text::chars_of(t.as_str()).len();
    let free: usize = if len <= columns {
        columns - len
    } else {
        0
    };
    ResizeHud { text: t, at: Cell { line: screen_lines / 2, column: free / 2 } }
}

/// Input method state.
#[derive(Debug)]
pub struct Ime {
    /// Whether the input method is enabled.
    pub enabled: bool,
    /// What is being composed.
    pub preedit: Option<Preedit>,
}

/// A text that is being composed.
#[derive(Debug)]
pub struct Preedit {
    pub text: String,
    /// Byte offset for cursor start into the text. `None` means that the cursor
    /// is invisible.
    pub cursor_byte_offset: Option<(usize, usize)>,
    /// How many columns stand behind the start and the end of the cursor.
    pub cursor_end_offset: Option<(u128, u128)>,
}

/// What stands behind a byte offset.
pub open spec fn tail_at(s: Seq<char>, offset: int) -> Seq<char> {
    vstd::utf8::decode_utf8(vstd::utf8::encode_utf8(s).skip(offset))
}

pub open spec fn is_boundary(s: Seq<char>, offset: int) -> bool {
    vstd::utf8::is_char_boundary(vstd::utf8::encode_utf8(s), offset)
}

impl Default for Ime {
    fn default() -> (r: Ime)
        ensures
            !r.enabled,
            r.preedit is None,
    {
        Ime { enabled: false, preedit: None }
    }
}

impl Ime {
    /// Enables or disables the input method; disabling clears its state.
    pub fn set_enabled(&mut self, is_enabled: bool)
        ensures
            final(self).enabled == is_enabled,
            final(self).preedit == if is_enabled {
                old(self).preedit
            } else {
                None
            },
    {
        self.enabled = is_enabled;
        if !is_enabled {
            self.preedit = None;
        }
    }

    pub fn is_enabled(&self) -> (r: bool)
        ensures
            r == self.enabled,
    {
        self.enabled
    }

    pub fn set_preedit(&mut self, preedit: Option<Preedit>)
        ensures
            final(self).enabled == old(self).enabled,
            final(self).preedit == preedit,
    {
        self.preedit = preedit;
    }

    pub fn preedit(&self) -> (r: Option<&Preedit>)
        ensures
            match r {
                Some(p) => self.preedit == Some(*p),
                None => self.preedit is None,
            },
    {
        self.preedit.as_ref()
    }
}

fn columns_behind(s: &str, offset: usize) -> (r: u128)
    requires
        is_boundary(s@, offset as int),
    ensures
        r == width::label_width(tail_at(s@, offset as int)),
{
    let (_, tail) = s.split_at(offset);
    proof {
        let b = vstd::utf8::encode_utf8(s@);
        assert(b.subrange(offset as int, b.len() as int) =~= b.skip(offset as int));
        vstd::utf8::encode_utf8_decode_utf8(tail@);
    }
    width::label_columns(tail)
}

impl Preedit {
    /// A text that is being composed, with the columns behind its cursor.
    pub fn new(text: String, cursor_byte_offset: Option<(usize, usize)>) -> (r: Self)
        requires
            cursor_byte_offset matches Some((from, to)) ==> is_boundary(text@, from as int)
                && is_boundary(text@, to as int),
        ensures
            r.text@ == text@,
            r.cursor_byte_offset == cursor_byte_offset,
            match cursor_byte_offset {
                Some((from, to)) => r.cursor_end_offset == Some(
                    (
                        width::label_width(tail_at(text@, from as int)) as u128,
                        width::label_width(tail_at(text@, to as int)) as u128,
                    ),
                ),
                None => r.cursor_end_offset is None,
            },
    {
        let cursor_end_offset: Option<(u128, u128)> = match cursor_byte_offset {
            Some((from, to)) => Some(
                (columns_behind(text.as_str(), from), columns_behind(text.as_str(), to)),
            ),
            None => None,
        };
        Preedit { text, cursor_byte_offset, cursor_end_offset }
    }

    /// What is shown of the text in a row: from the cursor on, cut on its right,
    /// where what stands behind the cursor's start does not fit; else the whole
    /// text, cut on its left.
    pub fn visible_part(&self, num_cols: usize) -> (r: (String, Direction))
        requires
            self.cursor_byte_offset matches Some((from, _)) ==> is_boundary(
                self.text@,
                from as int,
            ),
        ensures
            match (self.cursor_byte_offset, self.cursor_end_offset) {
                (Some((from, _)), Some((start, _))) => if start > num_cols {
                    r.0@ == tail_at(self.text@, from as int) && r.1 == Direction::Right
                } else {
                    r.0@ == self.text@ && r.1 == Direction::Left
                },
                _ => r.0@ == self.text@ && r.1 == Direction::Left,
            },
    {
        if let Some((from, _)) = self.cursor_byte_offset {
            if let Some((start, _)) = self.cursor_end_offset {
                if start > num_cols as u128 {
                    let s: &str = self.text.as_str();
                    let (_, tail) = s.split_at(from);
                    proof {
                        let b = vstd::utf8::encode_utf8(s@);
                        assert(b.subrange(from as int, b.len() as int) =~= b.skip(from as int));
                        vstd::utf8::encode_utf8_decode_utf8(tail@);
                    }
                    return (tail.to_owned(), Direction::Right);
                }
            }
        }
        (self.text.clone(), Direction::Left)
    }
}

/// Where the input method's preview is drawn, in the columns of its row.
#[derive(Debug, Clone, Copy, PartialEq, Eq, Structural)]
pub struct ImeLayout {
    /// The first column of the text.
    pub start: usize,
    /// Its last column.
    pub end: usize,
    /// The cursor's column, where the cursor is visible.
    pub cursor: Option<usize>,
    /// The cursor's width, where several characters are changed at once: then it
    /// is a hollow block, else a beam.
    pub block_width: Option<u32>,
    /// The column at which the popup of the input method is anchored.
    pub popup: usize,
}

/// Where the cursor stands: counted back from the text's end.
pub open spec fn ime_cursor(end: int, behind: int) -> int {
    if end - behind + 1 < 0 {
        0
    } else {
        end - behind + 1
    }
}

/// Lays out the input method's preview of `visible_len` characters at a column:
/// shifted left so that it stays in its row.
pub fn ime_layout(
    column: usize,
    visible_len: usize,
    num_cols: usize,
    cursor_end_offset: Option<(u128, u128)>,
) -> (r: ImeLayout)
    requires
        num_cols > 0,
        column + visible_len > 0,
        column + visible_len <= usize::MAX,
        cursor_end_offset matches Some((start, end)) ==> end <= start <= i64::MAX && start - end
            <= u32::MAX,
    ensures
        r.end + 1 == if column + visible_len < num_cols {
            column + visible_len
        } else {
            num_cols as int
        },
        r.start == less((r.end + 1) as nat, visible_len as nat),
        match cursor_end_offset {
            None => r.cursor is None && r.block_width is None && r.popup == r.end,
            Some((start, end)) => r.cursor == Some(
                ime_cursor(r.end as int, start as int) as usize,
            ) && r.popup == r.cursor->0 && r.block_width == if start == end {
                None
            } else {
                Some((start - end) as u32)
            },
        },
{
    let end: usize = if column + visible_len < num_cols {
        column + visible_len
    } else {
        num_cols
    };
    let start: usize = if visible_len <= end {
        end - visible_len
    } else {
        0
    };
    match cursor_end_offset {
        None => ImeLayout {
            start,
            end: end - 1,
            cursor: None,
            block_width: None,
            popup: end - 1,
        },
        Some((from, to)) => {
            let at: usize = if from as u128 > end as u128 {
                0
            } else {
                (end as u128 - from) as usize
            };
            let width: u128 = from - to;
            ImeLayout {
                start,
                end: end - 1,
                cursor: Some(at),
                block_width: if width == 0 {
                    None
                } else {
                    Some(width as u32)
                },
                popup: at,
            }
        },
    }
}

/// The search bar's text fits its row with the cursor, where the query was
/// shortened to its room and the label leaves any.
pub proof fn law_search_bar_fits(direction: Direction, query: Seq<char>, max_width: nat)
    requires
        label_of(direction).len() < max_width,
        query.len() <= max_width - label_of(direction).len() - 1,
    ensures
        bar_text(direction, query, max_width).len() <= max_width,
{
    reveal_strlit(" ");
    assert(" "@.len() == 1);
}

} // verus!
