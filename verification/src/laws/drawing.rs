//! What is drawn of the side panel and of a pane.

use vstd::prelude::*;

use crate::display::overlay::Cell;
use crate::display::pane::NebulaInlineImage;
use crate::display::pane_view;
use crate::display::pane_view::{DrawnCell, PaneInput, PowerlineIcon};
use crate::display::side_panel::git;
use crate::display::side_panel::git::{GitState, Line};
use crate::display::side_panel::panel::{PanelHit, PanelState};
use crate::display::side_panel::tree::Row;
use crate::display::side_panel::view;
use crate::display::side_panel::view::{LsColors, Place};
use crate::display::theme::Skin;
use crate::text;
use crate::unicode;

verus! {

/// A text that has room is shown whole; one that has not shows its end, behind an
/// ellipsis, and fills the room. At least four characters have room.
pub proof fn law_long_texts_show_their_end(t: Seq<char>, max: nat, reserve: nat)
    ensures
        ({
            let room = if max >= reserve + 4 {
                max - reserve
            } else {
                4
            };
            let shown = view::clipped(t, max, reserve);
            &&& t.len() <= room ==> shown == t
            &&& t.len() > room ==> {
                &&& shown.len() == room
                &&& shown[0] == '…'
                &&& shown.skip(1) == t.skip(t.len() - (room - 1))
            }
        }),
{
    let shown = view::clipped(t, max, reserve);
    let room = view::clip_budget(max, reserve);
    if t.len() > room {
        assert(shown.skip(1) =~= t.skip(t.len() - (room - 1)));
    }
}

/// The rows that are seen are those from the scroll position on, as many as there is
/// room for.
pub proof fn law_rows_are_seen_from_the_scroll_on<T>(s: Seq<T>, scroll: nat, room: nat, i: int)
    ensures
        ({
            let seen = view::window(s, scroll, room);
            &&& seen.len() <= room
            &&& seen.len() < room ==> scroll + seen.len() == s.len() || (seen.len() == 0 && scroll
                >= s.len())
            &&& scroll + seen.len() <= s.len() || seen.len() == 0
            &&& 0 <= i < seen.len() ==> seen[i] == s[scroll + i]
        }),
{
}

/// The row that is marked is the first one seen with the path that is dragged, or
/// else selected.
pub proof fn law_marked_rows_have_the_path(p: PanelState, room: nat, path: Seq<char>)
    requires
        p.drag_file is Some ==> p.drag_file->0.path == path,
        p.drag_file is None ==> p.selected == Some(path),
        p.rows.len() <= usize::MAX,
    ensures
        match view::marked_row(p, room) {
            Some(i) => i < room && p.scroll + i < p.rows.len() && p.rows[(p.scroll + i) as int].path
                == path && forall|j: int|
                p.scroll <= j < p.scroll + i ==> (#[trigger] p.rows[j]).path != path,
            None => forall|j: int|
                p.scroll <= j < p.rows.len() && j < p.scroll + room ==> (#[trigger] p.rows[j]).path
                    != path,
        },
{
    let seen = view::window(p.rows, p.scroll, room);
    lemma_row_index(seen, path, 0);
    match view::marked_row(p, room) {
        Some(i) => {
            assert(seen[i as int] == p.rows[(p.scroll + i) as int]);
            assert forall|j: int| p.scroll <= j < p.scroll + i implies (#[trigger] p.rows[j]).path
                != path by {
                assert(seen[j - p.scroll] == p.rows[j]);
            }
        },
        None => {
            assert forall|j: int|
                p.scroll <= j < p.rows.len() && j < p.scroll + room implies (
            #[trigger] p.rows[j]).path != path by {
                assert(seen[j - p.scroll] == p.rows[j]);
            }
        },
    }
}

proof fn lemma_row_index(rows: Seq<Row>, path: Seq<char>, from: nat)
    requires
        from <= rows.len() <= usize::MAX,
    ensures
        match view::row_index(rows, path, from) {
            Some(i) => from <= i < rows.len() && rows[i as int].path == path && forall|j: int|
                from <= j < i ==> (#[trigger] rows[j]).path != path,
            None => forall|j: int| from <= j < rows.len() ==> (#[trigger] rows[j]).path != path,
        },
    decreases rows.len() - from,
{
    if from < rows.len() && rows[from as int].path != path {
        lemma_row_index(rows, path, from + 1);
    }
}

/// A row is lit under the mouse where there is one: of the files not the one that is
/// selected, which is lit already.
pub proof fn law_hovered_rows_are_lit(p: PanelState, room: nat, i: usize)
    ensures
        view::hovered_row(p, room) == Some(i) ==> p.hover == PanelHit::Row(i) && i < room,
        p.hover == PanelHit::Row(i) && i < room && p.view is Git ==> view::hovered_row(p, room)
            == Some(i),
        p.hover == PanelHit::Row(i) && i < room && p.view is Files && p.scroll + i < p.rows.len()
            ==> (view::hovered_row(p, room) == Some(i) <==> p.selected != Some(
            p.rows[(p.scroll + i) as int].path,
        )),
        p.hover == PanelHit::Row(i) && p.view is Files && p.scroll + i >= p.rows.len()
            ==> view::hovered_row(p, room) is None,
{
}

/// The extension of a name is what stands behind its last dot.
pub proof fn law_extensions_stand_behind_the_last_dot(stem: Seq<char>, ext: Seq<char>)
    requires
        !ext.contains('.'),
    ensures
        view::extension(stem + seq!['.'] + ext) == Some(ext),
        view::extension(ext) is None,
    decreases ext.len(),
{
    let s = stem + seq!['.'] + ext;
    if ext.len() == 0 {
        assert(s.last() == '.');
    } else {
        let e = ext.drop_last();
        assert(ext.contains(ext[ext.len() - 1]));
        assert forall|i: int| 0 <= i < e.len() implies e[i] != '.' by {
            assert(ext.contains(ext[i]));
        }
        law_extensions_stand_behind_the_last_dot(stem, e);
        assert(s.drop_last() =~= stem + seq!['.'] + e);
        assert(s.last() == ext.last());
        assert(e.push(ext.last()) =~= ext);
    }
}

/// Names of programs and scripts count as executable, in whatever case they are
/// written, and others do not.
pub proof fn law_programs_are_executable(name: Seq<char>, stem: Seq<char>, ext: Seq<char>)
    requires
        !ext.contains('.'),
    ensures
        unicode::lower_text(name) == stem + seq!['.'] + ext ==> (view::executable(name)
            <==> seq!["exe"@, "dll"@, "bat"@, "cmd"@, "ps1"@, "com"@, "msi"@, "sh"@].contains(ext)),
        unicode::lower_text(name) == ext ==> !view::executable(name),
{
    law_extensions_stand_behind_the_last_dot(stem, ext);
    let all = seq!["exe"@, "dll"@, "bat"@, "cmd"@, "ps1"@, "com"@, "msi"@, "sh"@];
    assert(all[0] == "exe"@ && all[1] == "dll"@ && all[2] == "bat"@ && all[3] == "cmd"@);
    assert(all[4] == "ps1"@ && all[5] == "com"@ && all[6] == "msi"@ && all[7] == "sh"@);
}

/// The changes are listed under their headings: those that are not staged first,
/// each with its mark and its path, in their order.
pub proof fn law_changes_are_listed_under_headings(g: GitState, i: int)
    ensures
        g.unstaged.len() == 0 && g.staged.len() == 0 ==> git::view_lines(g).len() == 1
            && git::view_lines(g)[0] is Header,
        g.unstaged.len() + g.staged.len() > 0 ==> {
            let lines = git::view_lines(g);
            let n = g.unstaged.len() as int;
            &&& lines.len() == g.unstaged.len() + g.staged.len() + 2
            &&& lines[0] is Header
            &&& lines[n + 1] is Header
            &&& 0 <= i < n ==> lines[i + 1] == Line::File(g.unstaged[i].0, g.unstaged[i].1)
            &&& 0 <= i < g.staged.len() ==> lines[n + 2 + i] == Line::File(
                g.staged[i].0,
                g.staged[i].1,
            )
        },
{
}

/// The headings count what is listed under them.
pub proof fn law_headings_count_the_changes(g: GitState)
    requires
        0 < g.unstaged.len() + g.staged.len(),
        g.unstaged.len() <= u64::MAX,
        g.staged.len() <= u64::MAX,
    ensures
        exists|a: Seq<char>, b: Seq<char>|
            git::view_lines(g)[0] == Line::Header("未暂存 ("@ + a + seq![')'])
                && git::view_lines(g)[g.unstaged.len() as int + 1] == Line::Header(
                "已暂存 ("@ + b + seq![')'],
            ) && #[trigger] text::number(a) == Some(g.unstaged.len() as u64)
                && #[trigger] text::number(b) == Some(g.staged.len() as u64),
{
    let (a, b) = (text::digits_of(g.unstaged.len()), text::digits_of(g.staged.len()));
    text::law_numbers_read_back(g.unstaged.len() as u64);
    text::law_numbers_read_back(g.staged.len() as u64);
    reveal_strlit(")");
    assert(")"@ =~= seq![')']);
    assert(text::number(a) == Some(g.unstaged.len() as u64) && text::number(b) == Some(
        g.staged.len() as u64,
    ));
}

/// Characters beyond ASCII take two columns of the panel, the others one.
pub proof fn law_panel_columns_add_up(a: Seq<char>, b: Seq<char>, c: char)
    ensures
        git::columns(a + b) == git::columns(a) + git::columns(b),
        git::columns(seq![c]) == if (c as u32) < 128 {
            1nat
        } else {
            2nat
        },
        git::columns(Seq::empty()) == 0,
    decreases b.len(),
{
    if b.len() == 0 {
        assert(a + b =~= a);
    } else {
        law_panel_columns_add_up(a, b.drop_last(), c);
        assert((a + b).drop_last() =~= a + b.drop_last());
    }
    assert(seq![c].drop_last() =~= Seq::empty());
    assert(git::columns(seq![c].drop_last()) == 0);
    assert(seq![c].last() == c);
}

/// A suggestion is drawn behind the cursor, in its row, where it is in view and
/// nothing is being composed; what does not fit is cut off.
pub proof fn law_suggestions_are_drawn_at_the_cursor(i: PaneInput, at: Cell, s: Seq<char>)
    requires
        i.cursor == Some(at),
    ensures
        s.len() > 0 && !i.composing && at.line < i.screen_lines && at.column < i.columns
            ==> pane_view::plan(i, s.len()).ghost_at == Some(at) && pane_view::plan(
            i,
            s.len(),
        ).ghost_columns == i.columns - at.column,
        s.len() == 0 || i.composing || at.line >= i.screen_lines || at.column >= i.columns
            ==> pane_view::plan(i, s.len()).ghost_at is None,
        pane_view::shown_ghost(s, i.columns as nat).is_prefix_of(s),
        pane_view::shown_ghost(s, i.columns as nat).len() == if s.len() < i.columns {
            s.len()
        } else {
            i.columns as nat
        },
{
    let g = pane_view::shown_ghost(s, i.columns as nat);
    assert(g =~= s.subrange(0, g.len() as int));
}

/// Nothing is suggested in full-screen programs, in vi mode or in a search.
pub proof fn law_suggestions_wait_for_the_prompt(i: PaneInput, n: nat)
    ensures
        pane_view::plan(i, n).suggests <==> !i.alt_screen && i.vi_cursor is None && i.search
            is None,
        pane_view::plan(i, n).search_bar <==> i.search is Some,
        pane_view::plan(i, n).search_cursor <==> i.search is Some && !i.composing,
        pane_view::plan(i, n).scrollbar <==> i.display_offset > 0 && i.total_lines > i.screen_lines,
        pane_view::plan(i, n).tooltip == i.has_hint,
        pane_view::plan(i, n).fills_margins <==> i.alt_screen && i.padded,
        !i.ime_enabled ==> pane_view::plan(i, n).ime_position is None,
        i.vi_cursor is None && i.search is None ==> pane_view::plan(i, n).indicator_line is None,
        i.vi_cursor is None && i.search is Some ==> pane_view::plan(i, n).indicator_line == Some(
            i.display_offset,
        ),
{
}

/// A message stands below the lines of the grid, and below the search bar.
pub proof fn law_messages_stand_at_the_bottom(i: PaneInput, n: nat)
    requires
        pane_view::is_pane(i),
    ensures
        !i.has_message ==> pane_view::plan(i, n).message_line is None,
        i.has_message && i.search is None ==> pane_view::plan(i, n).message_line == Some(
            i.screen_lines,
        ),
        i.has_message && i.search is Some ==> pane_view::plan(i, n).message_line == Some(
            (i.screen_lines + 1) as usize,
        ),
        i.vi_cursor is Some ==> pane_view::plan(i, n).indicator_line == Some(
            (i.screen_lines - 1 - i.vi_cursor->0.line) as usize,
        ),
{
}

/// Whether a cell holds the place of an icon that is in view.
pub open spec fn holds_icon(cell: DrawnCell, lines: nat) -> bool {
    (cell.c == '\u{E100}' || cell.c == '\u{E101}') && cell.at.line < lines
}

/// Each placeholder in view is drawn as its icon, where it stands; in the text it is
/// a space, and other cells are drawn as they are.
pub proof fn law_placeholders_become_icons(cells: Seq<DrawnCell>, lines: nat, cell: DrawnCell)
    ensures
        ({
            let icons = pane_view::icons_of(cells, lines);
            let held = cells.filter(|c: DrawnCell| holds_icon(c, lines));
            &&& icons.len() == held.len()
            &&& forall|i: int|
                0 <= i < icons.len() ==> {
                    &&& (#[trigger] icons[i]).at == held[i].at
                    &&& icons[i].icon is Folder <==> held[i].c == '\u{E100}'
                }
        }),
        cell.c == '\u{E100}' || cell.c == '\u{E101}' ==> pane_view::drawn(cell) == (DrawnCell {
            c: ' ',
            at: cell.at,
        }),
        cell.c != '\u{E100}' && cell.c != '\u{E101}' ==> pane_view::drawn(cell) == cell,
    decreases cells.len(),
{
    reveal(Seq::filter);
    if cells.len() > 0 {
        law_placeholders_become_icons(cells.drop_last(), lines, cell);
        assert(pane_view::icon_of(cells.last().c) is Some ==> (pane_view::icon_of(
            cells.last().c,
        ) == Some(PowerlineIcon::Folder) <==> cells.last().c == '\u{E100}'));
    } else {
        assert(cells.filter(|c: DrawnCell| holds_icon(c, lines)).len() == 0);
    }
}

/// An image is kept until all of its rows are scrolled out.
pub proof fn law_images_stay_while_seen(image: NebulaInlineImage, out: nat, row: nat)
    requires
        row < image.rows,
        image.abs_line + row >= out,
    ensures
        pane_view::is_kept(image, out),
{
}

/// The name of a row has the room that its depth leaves: three characters for each
/// level, and more where the rows have signs for opening them.
pub proof fn law_row_names_have_the_rest(
    row: Row,
    i: usize,
    filtering: bool,
    max: nat,
    sk: Skin,
    ls: LsColors,
)
    ensures
        ({
            let shown = view::row_texts(row, i, filtering, max, sk, ls);
            let signs = if filtering {
                4nat
            } else {
                6nat
            };
            &&& shown.last().text == view::clipped(row.name, max, 3 * row.depth + signs)
            &&& shown.last().place == Place::RowName(i)
            &&& shown.len() == if row.is_dir && !filtering {
                3nat
            } else {
                2nat
            }
            &&& row.is_dir ==> shown.last().ink == ls.dir
            &&& !row.is_dir && view::executable(row.name) ==> shown.last().ink == ls.executable
            &&& !row.is_dir && !view::executable(row.name) ==> shown.last().ink == sk.ink
        }),
{
    let shown = view::row_texts(row, i, filtering, max, sk, ls);
    assert(row.depth * 3 == 3 * row.depth);
    assert(shown.last().place == Place::RowName(i));
}

} // verus!
