//! The title bar, the tabs of the sidebar, and the rows of the palette.

use vstd::prelude::*;

use crate::display::chrome;
use crate::display::chrome::{ChromeSpot, ChromeView, Fill, ResizeDirection, Surface};
use crate::display::options::NebulaShell;
use crate::display::palette_view;
use crate::display::palette_view::Place;
use crate::display::program;
use crate::display::program::AiLogo;
use crate::display::side_panel::git;
use crate::display::tabs::{ChromeHit, TabState};
use crate::display::theme::NebulaTheme;
use crate::display::width;
use crate::laws::words;
use crate::text;
use crate::unicode;

verus! {

/// A window is resized on the sides that the mouse is at.
pub proof fn law_sides_are_resized(top: bool, bottom: bool, left: bool, right: bool)
    requires
        !(top && bottom),
        !(left && right),
    ensures
        ({
            let d = chrome::edge_of(top, bottom, left, right);
            let north = d == Some(ResizeDirection::North) || d == Some(ResizeDirection::NorthWest)
                || d == Some(ResizeDirection::NorthEast);
            let south = d == Some(ResizeDirection::South) || d == Some(ResizeDirection::SouthWest)
                || d == Some(ResizeDirection::SouthEast);
            let west = d == Some(ResizeDirection::West) || d == Some(ResizeDirection::NorthWest)
                || d == Some(ResizeDirection::SouthWest);
            let east = d == Some(ResizeDirection::East) || d == Some(ResizeDirection::NorthEast)
                || d == Some(ResizeDirection::SouthEast);
            north == top && south == bottom && west == left && east == right
        }),
{
}

/// What lies on top is hit: buttons over the close signs of tabs, those over the
/// tabs, and these over the title bar with its controls.
pub proof fn law_what_lies_on_top_is_hit(spot: ChromeSpot, i: usize)
    ensures
        spot.on_toggle ==> chrome::hit_at(spot) is SidebarToggle,
        !spot.on_toggle && spot.on_plus ==> chrome::hit_at(spot) is NewTab,
        !spot.on_toggle && !spot.on_plus && spot.close == Some(i) ==> chrome::hit_at(spot)
            == ChromeHit::TabClose(i),
        !spot.on_toggle && !spot.on_plus && spot.close is None && spot.tab == Some(i)
            ==> chrome::hit_at(spot) == ChromeHit::Tab(i),
        !spot.on_toggle && !spot.on_plus && spot.close is None && spot.tab is None && !spot.in_bar
            ==> chrome::hit_at(spot) is Outside,
        !spot.on_toggle && !spot.on_plus && spot.close is None && spot.tab is None && spot.in_bar
            && spot.control is Some ==> chrome::hit_at(spot) == spot.control->0,
{
}

/// Whether something is drawn on a surface.
pub open spec fn is_drawn(fills: Seq<Fill>, surface: Surface) -> bool {
    exists|k: int| 0 <= k < fills.len() && (#[trigger] fills[k]).surface == surface
}

proof fn lemma_drawn_concat(a: Seq<Fill>, b: Seq<Fill>, surface: Surface)
    ensures
        is_drawn(a + b, surface) == (is_drawn(a, surface) || is_drawn(b, surface)),
{
    let all = a + b;
    if is_drawn(a, surface) {
        let k = choose|k: int| 0 <= k < a.len() && (#[trigger] a[k]).surface == surface;
        assert(all[k].surface == surface);
    }
    if is_drawn(b, surface) {
        let k = choose|k: int| 0 <= k < b.len() && (#[trigger] b[k]).surface == surface;
        assert(all[a.len() + k].surface == surface);
    }
    if is_drawn(all, surface) {
        let k = choose|k: int| 0 <= k < all.len() && (#[trigger] all[k]).surface == surface;
        if k < a.len() {
            assert(a[k].surface == surface);
        } else {
            assert(b[k - a.len()].surface == surface);
        }
    }
}

/// A tab has a halo where it is the active one, and a mark where its bell rang and
/// the mouse is not on it; only the tab under the mouse has its close sign lit.
pub proof fn law_tabs_show_their_state(t: TabState, v: ChromeView, i: usize)
    ensures
        ({
            let drawn = chrome::tab_fills(t, v, i);
            let hovered = t.hover == ChromeHit::Tab(i) || t.hover == ChromeHit::TabClose(i);
            let rang = i < t.bells.len() && t.bells[i as int];
            &&& is_drawn(drawn, Surface::Tab(i))
            &&& is_drawn(drawn, Surface::TabHalo(i)) <==> i == t.active
            &&& is_drawn(drawn, Surface::TabClose(i)) <==> t.hover == ChromeHit::TabClose(i)
            &&& is_drawn(drawn, Surface::Mark(i)) <==> rang && !hovered
        }),
{
    lemma_tab(t, v, i, Surface::Tab(i));
    lemma_tab(t, v, i, Surface::TabHalo(i));
    lemma_tab(t, v, i, Surface::TabClose(i));
    lemma_tab(t, v, i, Surface::Mark(i));
}

proof fn lemma_tab(t: TabState, v: ChromeView, i: usize, surface: Surface)
    requires
        surface == Surface::Tab(i) || surface == Surface::TabHalo(i) || surface == Surface::TabClose(
            i,
        ) || surface == Surface::Mark(i),
    ensures
        is_drawn(chrome::tab_fills(t, v, i), surface) <==> match surface {
            Surface::Tab(_) => true,
            Surface::TabHalo(_) => i == t.active,
            Surface::TabClose(_) => t.hover == ChromeHit::TabClose(i),
            _ => chrome::flag(t.bells, i as int) && !chrome::tab_hovered(t.hover, i),
        },
{
    let p = v.theme.chrome();
    let sk = v.theme.overlay();
    let hovered = chrome::tab_hovered(t.hover, i);
    let body = if i == t.active {
        seq![
            chrome::fill(
                Surface::TabHalo(i),
                crate::display::side_panel::view::faded(p.edge_r, 40),
            ),
            chrome::fill(Surface::Tab(i), p.tab_bg_l),
            chrome::fill(Surface::Tab(i), crate::display::side_panel::view::faded(p.edge_r, 26)),
        ]
    } else {
        seq![chrome::fill(Surface::Tab(i), p.pill)]
    };
    let all = chrome::tab_fills(t, v, i);
    let lit = chrome::when(hovered, seq![chrome::fill(Surface::Tab(i), sk.hover)]);
    let close = chrome::when(
        t.hover == ChromeHit::TabClose(i),
        seq![chrome::fill(Surface::TabClose(i), sk.hover_strong)],
    );
    let n = body.len() + lit.len() + close.len();
    let rest = all.skip(n as int);
    assert(all =~= body + lit + close + rest);
    lemma_drawn_concat(body + lit + close, rest, surface);
    lemma_drawn_concat(body + lit, close, surface);
    lemma_drawn_concat(body, lit, surface);
    if i == t.active {
        assert(body[0].surface == Surface::TabHalo(i));
        assert(body[1].surface == Surface::Tab(i));
    } else {
        assert(body[0].surface == Surface::Tab(i));
    }
    if t.hover == ChromeHit::TabClose(i) {
        assert(close[0].surface == Surface::TabClose(i));
    }
    if !hovered && chrome::flag(t.bells, i as int) {
        assert(rest.len() == 2);
        assert(rest[0].surface == Surface::MarkGlow(i));
        assert(rest[1].surface == Surface::Mark(i));
    } else if !hovered && chrome::flag(t.running, i as int) {
        assert(rest =~= chrome::spinner_fills(i, v.millis, p.edge_r));
    } else {
        assert(rest.len() == 0);
    }
}

/// The dots of the spinner go round with the time, one place in a tenth of a second,
/// each place behind the other.
pub proof fn law_spinner_goes_round(millis: u32, k: int)
    requires
        millis + 100 <= u32::MAX,
        0 <= k <= 2,
    ensures
        chrome::spinner_step((millis + 100) as u32, k) == (chrome::spinner_step(millis, k) + 1)
            % 8,
        (chrome::spinner_step(millis, k) + k) % 8 == chrome::spinner_step(millis, 0),
        millis < 100 ==> chrome::spinner_step(millis, 0) == 0,
{
}

/// The name of a tab as it is seen: what is typed while it is edited, else its label.
pub open spec fn shown_name(t: TabState, i: usize) -> Seq<char> {
    match t.rename {
        Some((index, typed)) => if index == i {
            typed
        } else {
            t.labels[i as int]
        },
        None => t.labels[i as int],
    }
}

/// A row shows the label of its tab, or the name while that is edited; as much of it
/// as there is room for.
pub proof fn law_rows_show_their_label(t: TabState, v: ChromeView, i: usize, room: usize)
    requires
        i < t.labels.len(),
        room >= 1,
    ensures
        ({
            let name = shown_name(t, i);
            let text = chrome::tab_text(t, v, i, room);
            &&& width::width(name) <= room ==> text.label == name
            &&& text.label == width::cut_right(name, room as nat)
            &&& text.rename is Some <==> (t.rename matches Some((index, _)) && index == i)
            &&& text.close_ink is Some <==> t.hover == ChromeHit::Tab(i) || t.hover
                == ChromeHit::TabClose(i)
            &&& i < t.logos.len() ==> text.logo == t.logos[i as int]
        }),
{
}

/// The title is the label of the active tab.
pub proof fn law_title_is_the_active_label(t: TabState, room: usize)
    requires
        t.active < t.labels.len(),
        width::width(t.labels[t.active as int]) <= room,
        room >= 1,
    ensures
        chrome::title_text(t, room) == t.labels[t.active as int],
{
}

/// Each row of the palette stands in its place with its name; the selected one is
/// the strong one, and hints stand where there are any.
pub proof fn law_palette_rows_stand_in_order(
    rows: Seq<(Seq<char>, Seq<char>)>,
    selected: Option<usize>,
    t: NebulaTheme,
    i: usize,
)
    requires
        i < rows.len() <= usize::MAX,
    ensures
        exists|k: int|
            0 <= k < palette_view::row_texts(rows, selected, t).len() && (
            #[trigger] palette_view::row_texts(rows, selected, t)[k]).place == Place::Row(i)
                && palette_view::row_texts(rows, selected, t)[k].text == rows[i as int].0
                && palette_view::row_texts(rows, selected, t)[k].ink == (if selected == Some(i) {
                t.overlay().ink_strong
            } else {
                t.overlay().ink
            }),
        rows[i as int].1.len() > 0 ==> exists|k: int|
            0 <= k < palette_view::row_texts(rows, selected, t).len() && (
            #[trigger] palette_view::row_texts(rows, selected, t)[k]).place == Place::Hint(i)
                && palette_view::row_texts(rows, selected, t)[k].text == rows[i as int].1,
    decreases rows.len(),
{
    let all = palette_view::row_texts(rows, selected, t);
    let before = palette_view::row_texts(rows.drop_last(), selected, t);
    if i == rows.len() - 1 {
        assert(all[before.len() as int].place == Place::Row(i));
        if rows.last().1.len() > 0 {
            assert(all[before.len() as int + 1].place == Place::Hint(i));
        }
    } else {
        law_palette_rows_stand_in_order(rows.drop_last(), selected, t, i);
        let k = choose|k: int|
            0 <= k < before.len() && (#[trigger] before[k]).place == Place::Row(i) && before[k].text
                == rows[i as int].0 && before[k].ink == (if selected == Some(i) {
                t.overlay().ink_strong
            } else {
                t.overlay().ink
            });
        assert(all[k] == before[k]);
        if rows[i as int].1.len() > 0 {
            let l = choose|l: int|
                0 <= l < before.len() && (#[trigger] before[l]).place == Place::Hint(i)
                    && before[l].text == rows[i as int].1;
            assert(all[l] == before[l]);
        }
    }
}

/// The marks of changes are told apart by color: what is changed, renamed or copied
/// from what is new and from what is deleted. Other marks have none.
pub proof fn law_marks_are_told_apart(light: bool, mark: char)
    ensures
        git::mark_color('M', light) == git::mark_color('R', light),
        git::mark_color('M', light) == git::mark_color('C', light),
        git::mark_color('M', light) != git::mark_color('A', light),
        git::mark_color('M', light) != git::mark_color('D', light),
        git::mark_color('A', light) != git::mark_color('D', light),
        git::mark_color(mark, light) is Some <==> seq!['M', 'R', 'C', 'A', 'D'].contains(mark),
        git::mark_color(mark, true) is Some ==> git::mark_color(mark, true) != git::mark_color(
            mark,
            false,
        ),
{
    let all = seq!['M', 'R', 'C', 'A', 'D'];
    assert(all[0] == 'M' && all[1] == 'R' && all[2] == 'C' && all[3] == 'A' && all[4] == 'D');
}

/// Three assistants have logos, and no other program has one.
pub proof fn law_assistants_have_logos(name: Seq<char>, tool: Seq<char>)
    requires
        tool != "codex"@,
        tool != "opencode"@,
    ensures
        program::logo_of(name, tool) == Some(AiLogo::Claude) <==> name == tool,
        program::logo_of(name, tool) == Some(AiLogo::OpenAi) <==> name == "codex"@,
        program::logo_of(name, tool) == Some(AiLogo::OpenCode) <==> name == "opencode"@,
{
    reveal_strlit("codex");
    reveal_strlit("opencode");
    assert("codex"@.len() == 5 && "opencode"@.len() == 8);
}

/// Shells are known by their names, in whatever case, with blanks around them.
pub proof fn law_shells_are_known_by_name(lead: Seq<char>, name: Seq<char>, tail: Seq<char>)
    requires
        words::is_blank(lead),
        words::is_blank(tail),
        name.len() > 0,
        !unicode::whitespace(name[0]),
        !unicode::whitespace(name.last()),
    ensures
        ({
            let lower = text::ascii_lower(name);
            let known = NebulaShell::named(lead + name + tail);
            &&& known == Some(NebulaShell::PowerShell) <==> seq![
                "powershell"@,
                "pwsh"@,
                "ps"@,
            ].contains(lower)
            &&& known == Some(NebulaShell::Bash) <==> seq![
                "bash"@,
                "git-bash"@,
                "gitbash"@,
                "wsl"@,
            ].contains(lower)
        }),
{
    let t = name + tail;
    assert(lead + name + tail =~= lead + t);
    assert(t[0] == name[0]);
    words::lemma_trim_lead(lead, t);
    words::lemma_trim_tail(name, tail);
    let (a, b) = (
        seq!["powershell"@, "pwsh"@, "ps"@],
        seq!["bash"@, "git-bash"@, "gitbash"@, "wsl"@],
    );
    assert(a[0] == "powershell"@ && a[1] == "pwsh"@ && a[2] == "ps"@);
    assert(b[0] == "bash"@ && b[1] == "git-bash"@ && b[2] == "gitbash"@ && b[3] == "wsl"@);
    reveal_strlit("powershell");
    reveal_strlit("pwsh");
    reveal_strlit("ps");
    reveal_strlit("bash");
    reveal_strlit("git-bash");
    reveal_strlit("gitbash");
    reveal_strlit("wsl");
    assert("powershell"@.len() == 10 && "pwsh"@.len() == 4 && "ps"@.len() == 2);
    assert("bash"@.len() == 4 && "git-bash"@.len() == 8 && "gitbash"@.len() == 7 && "wsl"@.len()
        == 3);
    assert("bash"@[0] == 'b' && "pwsh"@[0] == 'p');
}

} // verus!
