//! The side panel, the tabs beside the text, and what is written over it.

use vstd::prelude::*;

use crate::display::overlay;
use crate::display::overlay::Direction;
use crate::display::program;
use crate::display::program::AiLogo;
use crate::display::settings;
use crate::display::settings::Settings;
use crate::display::side_panel::panel;
use crate::display::side_panel::panel::{PanelHit, PanelSpot, PanelState, PanelView};
use crate::display::state;
use crate::display::state::DisplayState;
use crate::display::tabs;
use crate::display::tabs::TabState;
use crate::display::theme::NebulaTheme;
use crate::display::width;
use crate::laws::words;
use crate::text;
use crate::unicode;

verus! {

/// The key of a view opens the panel with it, at the top and read anew; where that
/// view is open it closes the panel.
pub proof fn law_views_open_and_close(p: PanelState, view: PanelView)
    ensures
        p.open && p.view == view ==> panel::toggled(p, view) == (PanelState {
            open: false,
            selected: None,
            drag_file: None,
            ..p
        }),
        !(p.open && p.view == view) ==> panel::toggled(p, view) == (PanelState {
            open: true,
            view,
            scroll: 0,
            needs_refresh: true,
            ..p
        }),
{
}

/// An open panel is read again when its directory changes, when an operation ended,
/// when that is asked for, and every four seconds while nothing is searched for.
pub proof fn law_open_panels_are_refreshed(p: PanelState, cwd: Option<Seq<char>>, now: u64)
    requires
        p.open,
    ensures
        panel::wants_refresh(p, cwd, now) <==> {
            ||| cwd != p.root
            ||| p.op_done
            ||| p.needs_refresh
            ||| words::is_blank(p.search) && (p.last_refresh is None || now - p.last_refresh->0
                >= 4000)
        },
{
    words::lemma_blank(p.search);
}

/// A click on a directory shows or hides what is in it. Clicks on files, below the
/// rows, in the other view or while something is searched for expand nothing.
pub proof fn law_clicks_expand_directories(p: PanelState, index: nat)
    ensures
        ({
            let at = (p.scroll + index) as int;
            let opens = p.view is Files && words::is_blank(p.search) && at < p.rows.len()
                && p.rows[at].is_dir;
            let after = panel::clicked(p, index);
            &&& !opens ==> after == p
            &&& opens ==> after.rows_due && forall|path: Seq<char>| #[trigger]
                after.expanded.contains(path) <==> (p.expanded.contains(path) != (path
                    == p.rows[at].path))
        }),
{
    words::lemma_blank(p.search);
}

/// Scrolling goes by rows, and not past the first or the last that fill the panel.
/// The changes are listed under two headings.
pub proof fn law_scrolling_goes_by_rows(p: PanelState, delta: int, visible: nat)
    ensures
        ({
            let rows = if p.view is Files {
                p.rows.len() as int
            } else if p.git is Some {
                (p.git->0.unstaged.len() + p.git->0.staged.len() + 2) as int
            } else {
                0
            };
            let last = if rows > visible {
                rows - visible
            } else {
                0
            };
            let at = p.scroll + delta;
            let after = panel::scrolled(p, delta, visible).scroll;
            &&& 0 <= at <= last ==> after == at
            &&& at < 0 ==> after == 0
            &&& at > last ==> after == last
        }),
{
}

/// What is under the mouse in the panel: outside of it nothing, in its header the
/// halves, then the search box, and the rows that there is room for.
pub proof fn law_panel_parts_are_hit(spot: PanelSpot, max_rows: usize, row: usize)
    ensures
        !spot.in_panel ==> panel::hit_at(spot, max_rows) is Outside,
        spot.in_panel && spot.in_header && spot.in_left_half ==> panel::hit_at(spot, max_rows)
            is ViewFiles,
        spot.in_panel && spot.in_header && !spot.in_left_half ==> panel::hit_at(spot, max_rows)
            is ViewGit,
        spot.in_panel && !spot.in_header && spot.in_search ==> panel::hit_at(spot, max_rows)
            is Search,
        spot.in_panel && !spot.in_header && !spot.in_search && spot.row == Some(row) && row
            < max_rows ==> panel::hit_at(spot, max_rows) == PanelHit::Row(row),
        spot.in_panel && !spot.in_header && !spot.in_search && (spot.row is None || spot.row->0
            >= max_rows) ==> panel::hit_at(spot, max_rows) is Inside,
{
}

/// While a tab is dragged the others make way: each is drawn at the place that it
/// will have once the tab is dropped.
pub proof fn law_tabs_make_way<A>(s: Seq<A>, source: int, target: int, index: int)
    requires
        0 <= source < s.len(),
        0 <= target < s.len(),
        0 <= index < s.len(),
        index != source,
    ensures
        ({
            let at = index + tabs::makes_way(source, target, index);
            0 <= at < s.len() && s.remove(source).insert(target, s[source])[at] == s[index]
        }),
{
}

/// The sidebar has a tab for each label, and one where there are none; flags that
/// are missing are off, those too many are dropped, and the active tab is one of
/// those that there are.
pub proof fn law_tabs_follow_their_labels(
    t: TabState,
    labels: Seq<Seq<char>>,
    dots: Seq<bool>,
    running: Seq<bool>,
    logos: Seq<Option<AiLogo>>,
    active: nat,
    reorderable: bool,
    i: int,
)
    ensures
        ({
            let after = tabs::with_tabs(t, labels, dots, running, logos, active, reorderable);
            &&& labels.len() > 0 ==> after.labels == labels
            &&& labels.len() == 0 ==> after.labels == seq!["."@]
            &&& after.bells.len() == after.labels.len()
            &&& after.running.len() == after.labels.len()
            &&& after.logos.len() == after.labels.len()
            &&& 0 <= i < after.labels.len() ==> after.bells[i] == (i < dots.len() && dots[i])
                && after.running[i] == (i < running.len() && running[i]) && after.logos[i] == if i
                < logos.len() {
                logos[i]
            } else {
                None
            }
            &&& active < after.labels.len() ==> after.active == active
            &&& active >= after.labels.len() ==> after.active == after.labels.len() - 1
            &&& after.reorderable == reorderable
            &&& after.drag == if t.drag is Some && t.drag->0.source < after.labels.len() {
                t.drag
            } else {
                None
            }
            &&& after.rename == t.rename
        }),
{
}

/// The search bar shows what is searched for behind its label, with room for the
/// cursor; where even the label is too long, the front of it.
pub proof fn law_search_bars_show_the_query(query: Seq<char>, room: nat)
    ensures
        room >= 8 ==> overlay::bar_text(Direction::Right, query, room) == "Search: "@ + query
            + seq![' '],
        room >= 17 ==> overlay::bar_text(Direction::Left, query, room) == "Backward Search: "@
            + query + seq![' '],
        room < 8 ==> overlay::bar_text(Direction::Right, query, room).len() == room
            && overlay::bar_text(Direction::Right, query, room).is_prefix_of("Search: "@),
        room < 17 ==> overlay::bar_text(Direction::Left, query, room).len() == room
            && overlay::bar_text(Direction::Left, query, room).is_prefix_of("Backward Search: "@),
{
    reveal_strlit("Search: ");
    reveal_strlit("Backward Search: ");
    reveal_strlit(" ");
    assert(" "@ =~= seq![' ']);
    assert("Search: "@.len() == 8);
    assert("Backward Search: "@.len() == 17);
}

/// Texts are padded with spaces to a length, and never cut.
pub proof fn law_padding_adds_spaces(s: Seq<char>, len: nat)
    ensures
        s.is_prefix_of(overlay::padded(s, len)),
        overlay::padded(s, len).len() == if s.len() > len {
            s.len()
        } else {
            len
        },
        forall|i: int|
            s.len() <= i < overlay::padded(s, len).len() ==> #[trigger] overlay::padded(s, len)[i]
                == ' ',
{
    assert(s =~= overlay::padded(s, len).take(s.len() as int));
    assert(s =~= overlay::padded(s, len).subrange(0, s.len() as int));
}

/// Links are told without the scheme of files, in any case up to their end.
pub proof fn law_file_links_are_shown_as_paths(path: Seq<char>)
    ensures
        program::without_scheme("file:///"@ + path) == path,
        path.len() > 0 && path[0] != '/' ==> program::without_scheme("file://"@ + path) == path,
        !(exists|rest: Seq<char>| path == #[trigger] ("file://"@ + rest))
            ==> program::without_scheme(path) == path,
{
    let (a, b) = ("file:///"@, "file://"@);
    reveal_strlit("file:///");
    reveal_strlit("file://");
    assert(a.len() == 8 && b.len() == 7);
    assert(a =~= b.push('/'));
    words::law_beginnings_and_ends(a + path, a);
    assert((a + path).skip(8) =~= path);
    words::law_beginnings_and_ends(b + path, a);
    words::law_beginnings_and_ends(b + path, b);
    assert((b + path).skip(7) =~= path);
    if path.len() > 0 && path[0] != '/' {
        if text::starts_with(b + path, a) {
            assert((b + path).subrange(0, 8)[7] == a[7]);
            assert((b + path)[7] == path[0]);
            assert(false);
        }
    }
    words::law_beginnings_and_ends(path, a);
    words::law_beginnings_and_ends(path, b);
    if text::starts_with(path, a) {
        let rest = choose|rest: Seq<char>| path == #[trigger] (a + rest);
        assert(path =~= b + (seq!['/'] + rest));
    }
}

/// A tooltip stands in the line below its link, and in the last line above it; its
/// text ends in the hint, and leaves a column where there is room for more.
pub proof fn law_tooltips_stand_beside_their_link(
    line: nat,
    lines: nat,
    uri: Seq<char>,
    columns: nat,
)
    requires
        line < lines,
    ensures
        line + 1 < lines ==> overlay::tooltip_line(line, lines) == line + 1,
        line + 1 == lines && line > 0 ==> overlay::tooltip_line(line, lines) == line - 1,
        lines == 1 ==> overlay::tooltip_line(line, lines) == 0,
        text::ends_with(overlay::tooltip_text(uri, columns), " · Ctrl+点击打开"@),
        width::width(program::without_scheme(uri)) + width::width(" · Ctrl+点击打开"@) + 1 <= columns
            ==> overlay::tooltip_text(uri, columns) == program::without_scheme(uri)
            + " · Ctrl+点击打开"@,
{
    let t = overlay::tooltip_text(uri, columns);
    words::law_beginnings_and_ends(t, " · Ctrl+点击打开"@);
}

/// The line indicator counts from the line that is seen first to the last line.
pub proof fn law_indicators_count_lines(line: u64, total: u64)
    requires
        total > 0,
    ensures
        exists|a: Seq<char>, b: Seq<char>|
            overlay::indicator_text(line as nat, total as nat) == seq!['['] + a + seq!['/'] + b
                + seq![']'] && #[trigger] text::number(a) == Some(line) && #[trigger] text::number(
                b,
            ) == Some((total - 1) as u64),
{
    let a = text::digits_of(line as nat);
    let b = text::digits_of((total - 1) as nat);
    text::law_numbers_read_back(line);
    text::law_numbers_read_back((total - 1) as u64);
    reveal_strlit("[");
    reveal_strlit("/");
    reveal_strlit("]");
    assert("["@ =~= seq!['[']);
    assert("/"@ =~= seq!['/']);
    assert("]"@ =~= seq![']']);
    assert(text::number(a) == Some(line) && text::number(b) == Some((total - 1) as u64));
}

/// Whether a text is quotation marks alone.
pub open spec fn all_marks(s: Seq<char>) -> bool {
    forall|i: int| 0 <= i < s.len() ==> #[trigger] s[i] == '"'
}

/// The path of an image is what is set, without blanks around it and without the
/// quotation marks inside those; without a path there is no image.
pub proof fn law_image_paths_are_bare(
    lead: Seq<char>,
    front: Seq<char>,
    path: Seq<char>,
    back: Seq<char>,
    tail: Seq<char>,
)
    requires
        words::is_blank(lead),
        words::is_blank(tail),
        all_marks(front),
        all_marks(back),
        path.len() > 0 ==> path[0] != '"' && path.last() != '"',
        path.len() > 0 ==> !unicode::whitespace(path[0]) && !unicode::whitespace(path.last()),
    ensures
        settings::image_path(lead + front + path + back + tail) == if path.len() > 0 {
            Some(path)
        } else {
            None
        },
{
    words::law_white_space('"');
    let core = front + path + back;
    let s = lead + front + path + back + tail;
    let t = core + tail;
    assert(s =~= lead + t);
    assert forall|i: int| 0 <= i < front.len() implies !unicode::whitespace(
        #[trigger] front[i],
    ) by {
        assert(front[i] == '"');
    }
    if core.len() > 0 {
        if front.len() > 0 {
            assert(core[0] == front[0]);
        } else if path.len() > 0 {
            assert(core[0] == path[0]);
        } else {
            assert(core[0] == back[0]);
        }
        if back.len() > 0 {
            assert(core.last() == back[back.len() - 1]);
        } else if path.len() > 0 {
            assert(core.last() == path.last());
        } else {
            assert(core.last() == front[front.len() - 1]);
        }
        assert(t[0] == core[0]);
        words::lemma_trim_lead(lead, t);
        words::lemma_trim_tail(core, tail);
    } else {
        assert(t =~= tail);
        assert forall|i: int| 0 <= i < s.len() implies unicode::whitespace(#[trigger] s[i]) by {
            if i < lead.len() {
                assert(s[i] == lead[i]);
            } else {
                assert(s[i] == tail[i - lead.len()]);
            }
        }
        words::lemma_blank(s);
        assert(unicode::trimmed(s) =~= core);
    }
    assert(unicode::trimmed(s) == core);
    assert(core =~= front + (path + back));
    if path.len() > 0 {
        assert((path + back)[0] == path[0]);
        lemma_unmark_start(front, path + back);
        lemma_unmark_end(path, back);
    } else {
        assert forall|i: int| 0 <= i < core.len() implies #[trigger] core[i] == '"' by {
            if i < front.len() {
                assert(core[i] == front[i]);
            } else {
                assert(core[i] == back[i - front.len()]);
            }
        }
        lemma_unmark_start(core, Seq::empty());
        assert(core + Seq::empty() =~= core);
    }
}

proof fn lemma_unmark_start(marks: Seq<char>, s: Seq<char>)
    requires
        all_marks(marks),
        s.len() > 0 ==> s[0] != '"',
    ensures
        settings::unquoted_start(marks + s) == s,
    decreases marks.len(),
{
    if marks.len() == 0 {
        assert(marks + s =~= s);
    } else {
        assert(marks[0] == '"');
        let m = marks.drop_first();
        assert forall|i: int| 0 <= i < m.len() implies #[trigger] m[i] == '"' by {
            assert(marks[i + 1] == '"');
        }
        lemma_unmark_start(m, s);
        assert((marks + s).drop_first() =~= m + s);
    }
}

proof fn lemma_unmark_end(s: Seq<char>, marks: Seq<char>)
    requires
        all_marks(marks),
        s.len() > 0 ==> s.last() != '"',
    ensures
        settings::unquoted_end(s + marks) == s,
    decreases marks.len(),
{
    if marks.len() == 0 {
        assert(s + marks =~= s);
    } else {
        assert(marks[marks.len() - 1] == '"');
        let m = marks.drop_last();
        assert forall|i: int| 0 <= i < m.len() implies #[trigger] m[i] == '"' by {
            assert(marks[i] == '"');
        }
        lemma_unmark_end(s, m);
        assert((s + marks).drop_last() =~= s + m);
    }
}

/// What is typed into the search goes behind it, without control characters; the
/// list is read anew, from its top.
pub proof fn law_panel_searches_start_at_the_top(p: PanelState, s: Seq<char>)
    ensures
        panel::searching(p, s) == (PanelState { search: s, scroll: 0, rows_due: true, ..p }),
        (forall|i: int| 0 <= i < s.len() ==> !unicode::control(#[trigger] s[i])) ==> panel::printable(
            s,
        ) == s,
        forall|i: int|
            0 <= i < panel::printable(s).len() ==> !unicode::control(
                #[trigger] panel::printable(s)[i],
            ),
{
    let keep = |c: char| !unicode::control(c);
    if forall|i: int| 0 <= i < s.len() ==> !unicode::control(#[trigger] s[i]) {
        lemma_filter_all(s, keep);
    }
    assert forall|i: int| 0 <= i < panel::printable(s).len() implies !unicode::control(
        #[trigger] panel::printable(s)[i],
    ) by {
        s.lemma_filter_pred(keep, i);
    }
}

proof fn lemma_filter_all(s: Seq<char>, keep: spec_fn(char) -> bool)
    requires
        forall|i: int| 0 <= i < s.len() ==> keep(#[trigger] s[i]),
    ensures
        s.filter(keep) == s,
    decreases s.len(),
{
    reveal(Seq::filter);
    if s.len() > 0 {
        let front = s.drop_last();
        assert forall|i: int| 0 <= i < front.len() implies keep(#[trigger] front[i]) by {
            assert(keep(s[i]));
        }
        assert(keep(s[s.len() - 1]));
        lemma_filter_all(front, keep);
        assert(front.push(s.last()) =~= s);
    }
}

/// An operation starts only where there is a directory and none runs.
pub proof fn law_operations_need_a_directory(p: PanelState, args: Seq<Seq<char>>)
    ensures
        p.root is Some && !p.op_running ==> panel::spawned(p, args) == Some(args) && panel::started(
            p,
        ).op_running,
        p.root is None || p.op_running ==> panel::spawned(p, args) is None && panel::started(p)
            == p,
{
}

/// Keys go to a text field of the window where one is edited.
pub proof fn law_text_fields_take_the_keys(d: DisplayState)
    ensures
        state::edits_text(d) <==> d.tabs.rename is Some || d.side_panel.search_focus
            || d.side_panel.commit_focus,
{
}

/// The backgrounds follow each other, six of them, and each is another; a theme
/// brings its own, and what is reset goes back to the first theme without one.
pub proof fn law_backgrounds_follow_each_other(s: Settings, theme: NebulaTheme)
    requires
        s.background_index < 6,
    ensures
        settings::next_background(s).background_index == if s.background_index == 5 {
            0
        } else {
            s.background_index + 1
        },
        settings::next_background(s).background is Some,
        settings::next_background(s).background != settings::next_background(
            settings::next_background(s),
        ).background,
        settings::next_background(s).theme == s.theme,
        settings::next_background(s).unsaved && settings::next_background(s).dirty,
        settings::with_theme(s, theme).theme == theme,
        settings::with_theme(s, theme).background == Some(theme.chrome().term_bg),
        settings::with_theme(s, theme).unsaved && settings::with_theme(s, theme).dirty,
        settings::reset(s).theme is Nebula,
        settings::reset(s).background is None && settings::reset(s).background_image is None,
{
}

/// The query has the room that the label of the search bar leaves, less a column for
/// the cursor.
pub proof fn law_queries_have_the_rest(label: nat, room: usize)
    ensures
        label > room ==> overlay::query_room(label, room) is None,
        label < room ==> (overlay::query_room(label, room) matches Some(n) && label + n + 1 == room),
        label == room ==> overlay::query_room(label, room) == Some(usize::MAX),
{
}

/// The label of a link is as wide as its characters, those of no known width one
/// column each.
pub proof fn law_label_widths_add_up(a: Seq<char>, b: Seq<char>, c: char)
    ensures
        width::label_width(a + b) == width::label_width(a) + width::label_width(b),
        width::label_width(seq![c]) == match unicode::char_width(c) {
            Some(n) => n as nat,
            None => 1,
        },
        width::label_width(Seq::empty()) == 0,
    decreases b.len(),
{
    if b.len() == 0 {
        assert(a + b =~= a);
    } else {
        law_label_widths_add_up(a, b.drop_last(), c);
        assert((a + b).drop_last() =~= a + b.drop_last());
    }
    assert(seq![c].drop_last() =~= Seq::empty());
    assert(width::label_width(seq![c].drop_last()) == 0);
    assert(seq![c].last() == c);
}

/// A panel that is read again forgets what it knew of the files and the changes, and
/// when it was asked to; what is expanded and selected stays in the same directory.
pub proof fn law_refreshing_reads_everything(p: PanelState, cwd: Option<Seq<char>>, now: u64)
    ensures
        ({
            let after = panel::synced(p, cwd, now);
            &&& !panel::wants_refresh(p, cwd, now) ==> after == p
            &&& panel::wants_refresh(p, cwd, now) ==> {
                &&& after.root == cwd
                &&& after.search_index is None
                &&& after.rows_due
                &&& after.git is None
                &&& after.last_refresh == Some(now)
                &&& !after.op_done && !after.needs_refresh
                &&& after.search == p.search
                &&& cwd == p.root ==> after.expanded == p.expanded && after.selected == p.selected
                    && after.scroll == p.scroll
                &&& cwd != p.root ==> (forall|path: Seq<char>|
                    !#[trigger] after.expanded.contains(path)) && after.selected is None
                    && after.scroll == 0
            }
        }),
{
}

} // verus!
