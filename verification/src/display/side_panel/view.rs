//! What the drawer shows: its fills and its texts, each with the place where it
//! goes. Turning places into pixels is left to the caller.

use vstd::prelude::*;

use crate::display::color::{Rgb, Rgba};
use crate::display::side_panel::git;
use crate::display::side_panel::git::{GitInfo, GitLine, GitState, Line};
use crate::display::side_panel::panel::{PanelHit, PanelState, PanelView, SidePanel};
use crate::display::side_panel::tree;
use crate::display::side_panel::tree::{FileRow, Row};
use crate::display::theme;
use crate::display::theme::{NebulaTheme, Skin};
use crate::text;
use crate::unicode;

verus! {

/// A surface of the drawer.
#[derive(Debug, Clone, Copy, PartialEq, Eq, Structural)]
pub enum Surface {
    Panel,
    /// The halo around a header tab.
    TabHalo(PanelView),
    /// A header tab.
    Tab(PanelView),
    /// The wash under the hovered row.
    RowHover(usize),
    /// The halo around the marked row.
    RowHalo(usize),
    /// The marked row.
    Row(usize),
    /// The ring around the input box.
    InputRing,
    /// The input box: the filter, or the commit message.
    Input,
    /// The chip that follows the pointer in a drag.
    DragChip,
    /// The bar at the chip's left edge.
    DragBar,
    /// An action button of the Git view.
    Button(usize),
}

/// A surface and its color.
#[derive(Debug, Clone, Copy, PartialEq, Eq, Structural)]
pub struct Fill {
    pub surface: Surface,
    pub color: Rgba,
}

pub open spec fn fill(surface: Surface, color: Rgba) -> Fill {
    Fill { surface, color }
}

pub open spec fn tint(c: Rgb, a: u8) -> Rgba {
    Rgba { r: c.r, g: c.g, b: c.b, a }
}

pub open spec fn faded(c: Rgba, a: u8) -> Rgba {
    Rgba { r: c.r, g: c.g, b: c.b, a }
}

/// The floating-pill language: an accent halo, the tab color, and a soft accent
/// wash.
pub open spec fn pill(halo: Surface, body: Surface, theme: NebulaTheme) -> Seq<Fill> {
    let p = theme.chrome();
    seq![
        fill(halo, faded(p.edge_r, 40)),
        fill(body, p.tab_bg_l),
        fill(body, faded(p.edge_r, 26)),
    ]
}

/// The inactive header tab under the pointer.
pub open spec fn hovered_tab(p: PanelState) -> Option<PanelView> {
    match p.hover {
        PanelHit::ViewFiles => if p.view != PanelView::Files {
            Some(PanelView::Files)
        } else {
            None
        },
        PanelHit::ViewGit => if p.view != PanelView::Git {
            Some(PanelView::Git)
        } else {
            None
        },
        _ => None,
    }
}

/// The list row that gets the hover wash: never the selected one, selection
/// outranks hover.
pub open spec fn hovered_row(p: PanelState, max_rows: nat) -> Option<usize> {
    match p.hover {
        PanelHit::Row(i) => if i < max_rows && (p.view == PanelView::Git || (p.scroll + i
            < p.rows.len() && p.selected != Some(p.rows[(p.scroll + i) as int].path))) {
            Some(i)
        } else {
            None
        },
        _ => None,
    }
}

/// The path of the marked row: the dragged file before the selected one.
pub open spec fn marked_path(p: PanelState) -> Option<Seq<char>> {
    match p.drag_file {
        Some(d) => Some(d.path),
        None => p.selected,
    }
}

/// The rows in view.
pub open spec fn window<T>(s: Seq<T>, scroll: nat, max_rows: nat) -> Seq<T> {
    if scroll >= s.len() {
        Seq::empty()
    } else if s.len() - scroll <= max_rows {
        s.skip(scroll as int)
    } else {
        s.subrange(scroll as int, (scroll + max_rows) as int)
    }
}

/// The first row with a path, from `i` on.
pub open spec fn row_index(rows: Seq<Row>, path: Seq<char>, i: nat) -> Option<usize>
    decreases rows.len() - i,
{
    if i >= rows.len() {
        None
    } else if rows[i as int].path == path {
        Some(i as usize)
    } else {
        row_index(rows, path, i + 1)
    }
}

/// The marked row among the rows in view.
pub open spec fn marked_row(p: PanelState, max_rows: nat) -> Option<usize> {
    match marked_path(p) {
        Some(path) => row_index(window(p.rows, p.scroll, max_rows), path, 0),
        None => None,
    }
}

pub open spec fn hover_fills(p: PanelState, max_rows: nat, theme: NebulaTheme) -> Seq<Fill> {
    let sk = theme.overlay();
    (match hovered_tab(p) {
        Some(view) => seq![fill(Surface::Tab(view), sk.hover)],
        None => Seq::empty(),
    }) + (match hovered_row(p, max_rows) {
        Some(i) => seq![fill(Surface::RowHover(i), sk.hover)],
        None => Seq::empty(),
    })
}

/// The input box, with an accent ring while focused.
pub open spec fn input_fills(focused: bool, theme: NebulaTheme) -> Seq<Fill> {
    let sk = theme.overlay();
    (if focused {
        seq![fill(Surface::InputRing, tint(sk.accent, 200))]
    } else {
        Seq::empty()
    }) + seq![fill(Surface::Input, sk.input)]
}

pub open spec fn files_fills(p: PanelState, max_rows: nat, theme: NebulaTheme) -> Seq<Fill> {
    let sk = theme.overlay();
    input_fills(p.search_focus, theme) + (match marked_row(p, max_rows) {
        Some(i) => pill(Surface::RowHalo(i), Surface::Row(i), theme),
        None => Seq::empty(),
    }) + (if p.drag_file is Some && p.drag_file->0.active {
        seq![
            fill(Surface::DragChip, sk.accent_soft),
            fill(Surface::DragBar, tint(sk.accent, 190)),
        ]
    } else {
        Seq::empty()
    })
}

/// The Git view's strip: the commit-message input or the three action buttons;
/// outside a repository there is nothing to act on.
pub open spec fn git_fills(p: PanelState, hovered_button: Option<usize>, theme: NebulaTheme) -> Seq<
    Fill,
> {
    let sk = theme.overlay();
    if p.git is None {
        Seq::empty()
    } else if p.commit_focus {
        input_fills(true, theme)
    } else {
        seq![
            fill(Surface::Button(0), sk.input),
            fill(Surface::Button(1), sk.input),
            fill(Surface::Button(2), sk.input),
        ] + (match hovered_button {
            Some(i) => if p.hover == PanelHit::Search {
                seq![fill(Surface::Button(i), sk.hover)]
            } else {
                Seq::empty()
            },
            None => Seq::empty(),
        })
    }
}

/// The fills of the drawer, from back to front.
pub open spec fn fills(
    p: PanelState,
    max_rows: nat,
    hovered_button: Option<usize>,
    theme: NebulaTheme,
) -> Seq<Fill> {
    seq![fill(Surface::Panel, theme.chrome().panel)] + pill(
        Surface::TabHalo(p.view),
        Surface::Tab(p.view),
        theme,
    ) + hover_fills(p, max_rows, theme) + (match p.view {
        PanelView::Files => files_fills(p, max_rows, theme),
        PanelView::Git => git_fills(p, hovered_button, theme),
    })
}

fn push_fill(out: &mut Vec<Fill>, surface: Surface, color: Rgba)
    ensures
        final(out)@ == old(out)@ + seq![fill(surface, color)],
{
    out.push(Fill { surface, color });
    assert(out@ =~= old(out)@ + seq![fill(surface, color)]);
}

fn push_pill(out: &mut Vec<Fill>, halo: Surface, body: Surface, theme: NebulaTheme)
    ensures
        final(out)@ == old(out)@ + pill(halo, body, theme),
{
    let palette = theme.palette();
    let accent = palette.edge_r;
    push_fill(out, halo, Rgba::new(accent.r, accent.g, accent.b, 40));
    push_fill(out, body, palette.tab_bg_l);
    push_fill(out, body, Rgba::new(accent.r, accent.g, accent.b, 26));
    assert(out@ =~= old(out)@ + pill(halo, body, theme));
}

fn push_input(out: &mut Vec<Fill>, focused: bool, theme: NebulaTheme)
    ensures
        final(out)@ == old(out)@ + input_fills(focused, theme),
{
    let sk = theme.skin();
    if focused {
        push_fill(out, Surface::InputRing, Rgba::new(sk.accent.r, sk.accent.g, sk.accent.b, 200));
    }
    push_fill(out, Surface::Input, sk.input);
    assert(out@ =~= old(out)@ + input_fills(focused, theme));
}

fn path_is(path: &Option<String>, other: &str) -> (r: bool)
    ensures
        r == (tree::optional_text(*path) == Some(other@)),
{
    match path {
        Some(path) => text::str_eq(path.as_str(), other),
        None => false,
    }
}

/// The list row that gets the hover wash.
fn find_hovered_row(panel: &SidePanel, max_rows: usize) -> (r: Option<usize>)
    ensures
        r == hovered_row(panel.value(), max_rows as nat),
{
    match panel.hover {
        PanelHit::Row(i) => {
            if i >= max_rows {
                return None;
            }
            if panel.view == PanelView::Git {
                return Some(i);
            }
            let len: usize = panel.rows.len();
            assert(panel.value().rows.len() == len);
            if i >= len || panel.scroll >= len - i {
                return None;
            }
            let at: usize = panel.scroll + i;
            assert(panel.value().rows[at as int] == panel.rows@[at as int].value());
            if path_is(&panel.selected, panel.rows[at].path.as_str()) {
                None
            } else {
                Some(i)
            }
        },
        _ => None,
    }
}

/// How many rows are in view.
fn window_len(len: usize, scroll: usize, max_rows: usize) -> (r: usize)
    ensures
        r <= max_rows,
        scroll < len ==> scroll + r <= len,
        scroll >= len ==> r == 0,
        forall|s: Seq<Row>|
            s.len() == len ==> (#[trigger] window(s, scroll as nat, max_rows as nat)).len() == r,
        forall|s: Seq<Line>|
            s.len() == len ==> (#[trigger] window(s, scroll as nat, max_rows as nat)).len() == r,
{
    if scroll >= len {
        0
    } else if len - scroll <= max_rows {
        len - scroll
    } else {
        max_rows
    }
}

/// The marked row among the rows in view.
fn find_marked_row(panel: &SidePanel, max_rows: usize) -> (r: Option<usize>)
    ensures
        r == marked_row(panel.value(), max_rows as nat),
{
    let ghost p = panel.value();
    let path: &str = match &panel.drag_file {
        Some(d) => d.path.as_str(),
        None => match &panel.selected {
            Some(path) => path.as_str(),
            None => return None,
        },
    };
    let ghost shown = window(p.rows, p.scroll, max_rows as nat);
    assert(p.rows.len() == panel.rows@.len());
    let len: usize = panel.rows.len();
    let n: usize = window_len(len, panel.scroll, max_rows);
    let mut i: usize = 0;
    while i < n
        invariant
            i <= n,
            shown.len() == n,
            p == panel.value(),
            shown == window(p.rows, p.scroll, max_rows as nat),
            n > 0 ==> panel.scroll + n <= len,
            len == panel.rows@.len(),
            p.rows.len() == panel.rows@.len(),
            marked_path(p) == Some(path@),
            row_index(shown, path@, 0) == row_index(shown, path@, i as nat),
        decreases n - i,
    {
        let at: usize = panel.scroll + i;
        assert(p.rows[at as int] == panel.rows@[at as int].value());
        assert(shown[i as int] == p.rows[at as int]);
        if text::str_eq(panel.rows[at].path.as_str(), path) {
            return Some(i);
        }
        i += 1;
    }
    None
}

fn push_hover(out: &mut Vec<Fill>, panel: &SidePanel, max_rows: usize, theme: NebulaTheme)
    ensures
        final(out)@ == old(out)@ + hover_fills(panel.value(), max_rows as nat, theme),
{
    let sk = theme.skin();
    let tab: Option<PanelView> = match panel.hover {
        PanelHit::ViewFiles => if panel.view != PanelView::Files {
            Some(PanelView::Files)
        } else {
            None
        },
        PanelHit::ViewGit => if panel.view != PanelView::Git {
            Some(PanelView::Git)
        } else {
            None
        },
        _ => None,
    };
    if let Some(view) = tab {
        push_fill(out, Surface::Tab(view), sk.hover);
    }
    if let Some(i) = find_hovered_row(panel, max_rows) {
        push_fill(out, Surface::RowHover(i), sk.hover);
    }
    assert(out@ =~= old(out)@ + hover_fills(panel.value(), max_rows as nat, theme));
}

fn push_files_fills(out: &mut Vec<Fill>, panel: &SidePanel, max_rows: usize, theme: NebulaTheme)
    ensures
        final(out)@ == old(out)@ + files_fills(panel.value(), max_rows as nat, theme),
{
    let sk = theme.skin();
    push_input(out, panel.search_focus, theme);
    if let Some(i) = find_marked_row(panel, max_rows) {
        push_pill(out, Surface::RowHalo(i), Surface::Row(i), theme);
    }
    if let Some(drag) = &panel.drag_file {
        if drag.active {
            push_fill(out, Surface::DragChip, sk.accent_soft);
            push_fill(
                out,
                Surface::DragBar,
                Rgba::new(sk.accent.r, sk.accent.g, sk.accent.b, 190),
            );
        }
    }
    assert(out@ =~= old(out)@ + files_fills(panel.value(), max_rows as nat, theme));
}

fn push_git_fills(
    out: &mut Vec<Fill>,
    panel: &SidePanel,
    hovered_button: Option<usize>,
    theme: NebulaTheme,
)
    ensures
        final(out)@ == old(out)@ + git_fills(panel.value(), hovered_button, theme),
{
    let sk = theme.skin();
    if panel.git.is_some() {
        if panel.commit_focus {
            push_input(out, true, theme);
        } else {
            push_fill(out, Surface::Button(0), sk.input);
            push_fill(out, Surface::Button(1), sk.input);
            push_fill(out, Surface::Button(2), sk.input);
            if panel.hover == PanelHit::Search {
                if let Some(i) = hovered_button {
                    push_fill(out, Surface::Button(i), sk.hover);
                }
            }
        }
    }
    assert(out@ =~= old(out)@ + git_fills(panel.value(), hovered_button, theme));
}

/// The fills of the drawer, from back to front. `hovered_button` is the action
/// button under the pointer.
pub fn push_quads(
    panel: &SidePanel,
    max_rows: usize,
    hovered_button: Option<usize>,
    theme: NebulaTheme,
) -> (r: Vec<Fill>)
    ensures
        r@ == fills(panel.value(), max_rows as nat, hovered_button, theme),
{
    let mut out: Vec<Fill> = Vec::new();
    push_fill(&mut out, Surface::Panel, theme.palette().panel);
    push_pill(&mut out, Surface::TabHalo(panel.view), Surface::Tab(panel.view), theme);
    push_hover(&mut out, panel, max_rows, theme);
    if panel.view == PanelView::Files {
        push_files_fills(&mut out, panel, max_rows, theme);
    } else {
        push_git_fills(&mut out, panel, hovered_button, theme);
    }
    assert(out@ =~= fills(panel.value(), max_rows as nat, hovered_button, theme));
    out
}

/// A place for a text.
#[derive(Debug, Clone, Copy, PartialEq, Eq, Structural)]
pub enum Place {
    FilesIcon,
    FilesTab,
    GitIcon,
    GitTab,
    /// The line below the header.
    Summary,
    SearchIcon,
    Query,
    Chevron(usize),
    RowIcon(usize),
    RowName(usize),
    DragName,
    BranchIcon,
    Branch,
    Error,
    Ahead,
    Plus,
    Minus,
    CommitMessage,
    Button(usize),
    /// A section heading of the Git view.
    Heading(usize),
    /// The status mark of a changed file.
    Mark(usize),
    ChangedPath(usize),
}

/// A text of the drawer.
pub struct Label {
    pub place: Place,
    pub ink: Rgb,
    pub text: String,
}

/// A text of the drawer, as a value.
pub struct Text {
    pub place: Place,
    pub ink: Rgb,
    pub text: Seq<char>,
}

impl Label {
    pub open spec fn value(self) -> Text {
        Text { place: self.place, ink: self.ink, text: self.text@ }
    }
}

pub open spec fn label(place: Place, ink: Rgb, text: Seq<char>) -> Text {
    Text { place, ink, text }
}

pub open spec fn labels_value(v: Seq<Label>) -> Seq<Text> {
    v.map_values(|l: Label| l.value())
}

/// The terminal palette colors the tree rows share with `ls`.
#[derive(Debug, Clone, Copy, PartialEq, Eq, Structural)]
pub struct LsColors {
    pub dir: Rgb,
    pub executable: Rgb,
}

/// How many characters a text may take: at least 4.
pub open spec fn clip_budget(max_chars: nat, reserve: nat) -> nat {
    let budget = tree::less(max_chars, reserve);
    if budget < 4 {
        4
    } else {
        budget
    }
}

/// A text cut to a budget on the left: paths overflow on the left, keeping the
/// discriminating tail visible.
pub open spec fn clipped(t: Seq<char>, max_chars: nat, reserve: nat) -> Seq<char> {
    let budget = clip_budget(max_chars, reserve);
    if t.len() <= budget {
        t
    } else {
        seq!['…'] + t.skip(t.len() - (budget - 1))
    }
}

/// A text cut on the left to the panel's width. `reserve` frees columns already
/// eaten by icons and indent on that row.
pub fn clip_tail(t: &str, max_chars: usize, reserve: usize) -> (r: String)
    ensures
        r@ == clipped(t@, max_chars as nat, reserve as nat),
{
    let room: usize = if max_chars >= reserve {
        max_chars - reserve
    } else {
        0
    };
    let budget: usize = if room < 4 {
        4
    } else {
        room
    };
    let v = text::chars_of(t);
    if v.len() <= budget {
        return t.to_owned();
    }
    let mut r = String::new();
    r.push('…');
    let skip: usize = v.len() - (budget - 1);
    let tail = text::string_of_range(v.as_slice(), skip, v.len());
    r.append(tail.as_str());
    assert(r@ =~= clipped(t@, max_chars as nat, reserve as nat));
    r
}

/// What stands behind the last dot of a name.
pub open spec fn extension(s: Seq<char>) -> Option<Seq<char>>
    decreases s.len(),
{
    if s.len() == 0 {
        None
    } else if s.last() == '.' {
        Some(Seq::empty())
    } else {
        match extension(s.drop_last()) {
            Some(e) => Some(e.push(s.last())),
            None => None,
        }
    }
}

/// Executable extensions.
pub open spec fn runs(extension: Seq<char>) -> bool {
    extension == "exe"@ || extension == "dll"@ || extension == "bat"@ || extension == "cmd"@
        || extension == "ps1"@ || extension == "com"@ || extension == "msi"@ || extension == "sh"@
}

/// Whether a file is shown as an executable.
pub open spec fn executable(name: Seq<char>) -> bool {
    match extension(unicode::lower_text(name)) {
        Some(e) => runs(e),
        None => false,
    }
}

proof fn lemma_extension(s: Seq<char>, i: int)
    requires
        0 <= i < s.len(),
        s[i] == '.',
        forall|j: int| i < j < s.len() ==> s[j] != '.',
    ensures
        extension(s) == Some(s.skip(i + 1)),
    decreases s.len(),
{
    if i == s.len() - 1 {
        assert(s.skip(i + 1) =~= Seq::empty());
    } else {
        lemma_extension(s.drop_last(), i);
        assert(s.drop_last().skip(i + 1).push(s.last()) =~= s.skip(i + 1));
    }
}

proof fn lemma_no_extension(s: Seq<char>)
    requires
        forall|j: int| 0 <= j < s.len() ==> s[j] != '.',
    ensures
        extension(s) is None,
    decreases s.len(),
{
    if s.len() > 0 {
        lemma_no_extension(s.drop_last());
    }
}

/// Whether a file is shown as an executable, by its extension.
pub fn is_executable(name: &str) -> (r: bool)
    ensures
        r == executable(name@),
{
    let lower = text::chars_of(unicode::to_lowercase(name).as_str());
    let mut i: usize = lower.len();
    while i > 0 && lower[i - 1] != '.'
        invariant
            i <= lower@.len(),
            forall|j: int| i <= j < lower@.len() ==> lower@[j] != '.',
        decreases i,
    {
        i -= 1;
    }
    if i == 0 {
        proof {
            lemma_no_extension(lower@);
        }
        return false;
    }
    let e = text::string_of_range(lower.as_slice(), i, lower.len());
    proof {
        lemma_extension(lower@, i - 1);
        assert(e@ =~= lower@.skip(i as int));
    }
    let e: &str = e.as_str();
    text::str_eq(e, "exe") || text::str_eq(e, "dll") || text::str_eq(e, "bat") || text::str_eq(
        e,
        "cmd",
    ) || text::str_eq(e, "ps1") || text::str_eq(e, "com") || text::str_eq(e, "msi")
        || text::str_eq(e, "sh")
}

pub open spec fn header_texts(p: PanelState, sk: Skin) -> Seq<Text> {
    let (files_ink, git_ink) = match p.view {
        PanelView::Files => (sk.ink_strong, sk.ink_dim),
        PanelView::Git => (sk.ink_dim, sk.ink_strong),
    };
    seq![
        label(Place::FilesIcon, files_ink, "\u{ea83}"@),
        label(Place::FilesTab, files_ink, "文件"@),
        label(Place::GitIcon, git_ink, "\u{ea68}"@),
        label(Place::GitTab, git_ink, "Git"@),
    ]
}

/// The filter box: its hint, or the query with a caret while focused.
pub open spec fn query_text(p: PanelState, blink: bool, sk: Skin) -> Text {
    if p.search.len() == 0 && !p.search_focus {
        label(Place::Query, sk.ink_faint, "筛选文件…"@)
    } else if p.search_focus && blink {
        label(Place::Query, sk.ink_strong, p.search + "▏"@)
    } else {
        label(Place::Query, sk.ink_strong, p.search)
    }
}

/// The texts of a tree row: chevron (directories, outside of filtering), icon
/// and name. Directories and executables wear the colors that `ls` gives them.
pub open spec fn row_texts(
    row: Row,
    i: usize,
    filtering: bool,
    max_chars: nat,
    sk: Skin,
    ls: LsColors,
) -> Seq<Text> {
    let chevron = if row.expanded {
        "\u{eab4}"@
    } else {
        "\u{eab6}"@
    };
    let icon = if row.is_dir {
        if row.expanded {
            "\u{eaf7}"@
        } else {
            "\u{ea83}"@
        }
    } else {
        "\u{ea7b}"@
    };
    let (icon_ink, name_ink) = if row.is_dir {
        (ls.dir, ls.dir)
    } else if executable(row.name) {
        (ls.executable, ls.executable)
    } else {
        (sk.ink_dim, sk.ink)
    };
    let reserve = row.depth * 3 + if filtering {
        4nat
    } else {
        6nat
    };
    (if !filtering && row.is_dir {
        seq![label(Place::Chevron(i), sk.ink_faint, chevron)]
    } else {
        Seq::empty()
    }) + seq![
        label(Place::RowIcon(i), icon_ink, icon),
        label(Place::RowName(i), name_ink, clipped(row.name, max_chars, reserve)),
    ]
}

/// The texts of the first `n` rows in view.
pub open spec fn rows_texts(
    rows: Seq<Row>,
    n: nat,
    filtering: bool,
    max_chars: nat,
    sk: Skin,
    ls: LsColors,
) -> Seq<Text>
    decreases n,
{
    if n == 0 {
        Seq::empty()
    } else {
        rows_texts(rows, (n - 1) as nat, filtering, max_chars, sk, ls) + row_texts(
            rows[n - 1],
            (n - 1) as usize,
            filtering,
            max_chars,
            sk,
            ls,
        )
    }
}

/// Everything that is needed to write the drawer's texts besides its state.
pub struct Setting {
    /// How many characters fit into the panel.
    pub max_chars: usize,
    /// How many rows fit into the list.
    pub max_rows: usize,
    /// Whether the caret is in its visible phase.
    pub blink: bool,
    pub theme: NebulaTheme,
    pub ls: LsColors,
}

pub open spec fn files_texts(p: PanelState, s: Setting) -> Seq<Text> {
    let sk = s.theme.overlay();
    let summary = match p.root {
        Some(root) => clipped(root, s.max_chars as nat, 0),
        None => "（无目录）"@,
    };
    let shown = window(p.rows, p.scroll, s.max_rows as nat);
    seq![
        label(Place::Summary, sk.ink_dim, summary),
        label(Place::SearchIcon, sk.ink_faint, "\u{ea6d}"@),
        query_text(p, s.blink, sk),
    ] + rows_texts(
        shown,
        shown.len(),
        unicode::trimmed(p.search).len() > 0,
        s.max_chars as nat,
        sk,
        s.ls,
    ) + (if p.drag_file is Some && p.drag_file->0.active {
        seq![label(Place::DragName, sk.ink_strong, p.drag_file->0.name)]
    } else {
        Seq::empty()
    })
}

/// The branch line: the name, then the error of the last operation, or the
/// counts.
pub open spec fn branch_texts(p: PanelState, g: GitState, s: Setting) -> Seq<Text> {
    let sk = s.theme.overlay();
    let is_light = s.theme.chrome().is_light;
    let branch = clipped(
        if g.branch.len() == 0 {
            "(no branch)"@
        } else {
            g.branch
        },
        s.max_chars as nat,
        18,
    );
    let c_add = git::mark_color('A', is_light)->0;
    let c_del = git::mark_color('D', is_light)->0;
    seq![
        label(Place::BranchIcon, sk.ink_dim, "\u{ea68}"@),
        label(Place::Branch, sk.ink_strong, branch),
    ] + (if p.op_error.len() > 0 {
        seq![
            label(
                Place::Error,
                c_del,
                clipped(p.op_error, s.max_chars as nat, branch.len() + 4),
            ),
        ]
    } else {
        (if g.ahead > 0 {
            seq![
                label(Place::Ahead, sk.accent, "↑"@ + text::digits_of(g.ahead as nat) + " "@),
            ]
        } else {
            Seq::empty()
        }) + seq![
            label(Place::Plus, c_add, "+"@ + text::digits_of(g.plus as nat)),
            label(Place::Minus, c_del, "−"@ + text::digits_of(g.minus as nat)),
        ]
    })
}

pub open spec fn button_ink(enabled: bool, sk: Skin) -> Rgb {
    if enabled {
        sk.ink_strong
    } else {
        sk.ink_faint
    }
}

/// The action strip: the commit-message input while composing, else the action
/// buttons.
pub open spec fn strip_texts(p: PanelState, g: GitState, s: Setting) -> Seq<Text> {
    let sk = s.theme.overlay();
    if p.commit_focus {
        if p.commit_msg.len() == 0 {
            seq![
                label(
                    Place::CommitMessage,
                    sk.ink_faint,
                    "提交信息…  Enter 提交 · Esc 取消"@,
                ),
            ]
        } else {
            seq![
                label(
                    Place::CommitMessage,
                    sk.ink_strong,
                    p.commit_msg + if s.blink {
                        "▏"@
                    } else {
                        ""@
                    },
                ),
            ]
        }
    } else {
        let busy = p.op_running;
        seq![
            label(
                Place::Button(0),
                button_ink(git::can_stage(Some(g), busy), sk),
                if busy {
                    "…"@
                } else {
                    "暂存全部"@
                },
            ),
            label(Place::Button(1), button_ink(git::can_commit(Some(g), busy), sk), "提交"@),
            label(
                Place::Button(2),
                button_ink(git::can_push(Some(g), busy), sk),
                if g.ahead > 0 {
                    "推送 ↑"@ + text::digits_of(g.ahead as nat)
                } else {
                    "推送"@
                },
            ),
        ]
    }
}

pub open spec fn line_texts(line: Line, i: usize, s: Setting) -> Seq<Text> {
    let sk = s.theme.overlay();
    match line {
        Line::Header(t) => seq![label(Place::Heading(i), sk.ink_dim, t)],
        Line::File(mark, path) => seq![
            label(
                Place::Mark(i),
                match git::mark_color(mark, s.theme.chrome().is_light) {
                    Some(c) => c,
                    None => sk.ink_dim,
                },
                seq![mark],
            ),
            label(Place::ChangedPath(i), sk.ink, clipped(path, s.max_chars as nat, 3)),
        ],
    }
}

/// The texts of the first `n` lines in view.
pub open spec fn lines_texts(lines: Seq<Line>, n: nat, s: Setting) -> Seq<Text>
    decreases n,
{
    if n == 0 {
        Seq::empty()
    } else {
        lines_texts(lines, (n - 1) as nat, s) + line_texts(lines[n - 1], (n - 1) as usize, s)
    }
}

pub open spec fn git_texts(p: PanelState, s: Setting) -> Seq<Text> {
    match p.git {
        None => seq![label(Place::Summary, s.theme.overlay().ink_dim, "不在 git 仓库中"@)],
        Some(g) => {
            let shown = window(git::view_lines(g), p.scroll, s.max_rows as nat);
            branch_texts(p, g, s) + strip_texts(p, g, s) + lines_texts(shown, shown.len(), s)
        },
    }
}

/// The texts of the drawer, in the order in which they are drawn.
pub open spec fn texts(p: PanelState, s: Setting) -> Seq<Text> {
    header_texts(p, s.theme.overlay()) + match p.view {
        PanelView::Files => files_texts(p, s),
        PanelView::Git => git_texts(p, s),
    }
}

fn push_label(out: &mut Vec<Label>, place: Place, ink: Rgb, text: String)
    ensures
        labels_value(final(out)@) == labels_value(old(out)@) + seq![label(place, ink, text@)],
{
    let ghost before = labels_value(out@);
    out.push(Label { place, ink, text });
    assert(labels_value(out@) =~= before + seq![label(place, ink, text@)]);
}

fn push_header(out: &mut Vec<Label>, view: PanelView, sk: &Skin)
    ensures
        forall|p: PanelState|
            p.view == view ==> labels_value(final(out)@) == labels_value(old(out)@)
                + #[trigger] header_texts(p, *sk),
{
    let ghost before = labels_value(out@);
    let (files_ink, git_ink) = match view {
        PanelView::Files => (sk.ink_strong, sk.ink_dim),
        PanelView::Git => (sk.ink_dim, sk.ink_strong),
    };
    push_label(out, Place::FilesIcon, files_ink, "\u{ea83}".to_owned());
    push_label(out, Place::FilesTab, files_ink, "文件".to_owned());
    push_label(out, Place::GitIcon, git_ink, "\u{ea68}".to_owned());
    push_label(out, Place::GitTab, git_ink, "Git".to_owned());
    assert forall|p: PanelState| p.view == view implies labels_value(out@) == before
        + #[trigger] header_texts(p, *sk) by {
        assert(labels_value(out@) =~= before + header_texts(p, *sk));
    }
}

fn joined(a: &str, b: &str) -> (r: String)
    ensures
        r@ == a@ + b@,
{
    let mut r = a.to_owned();
    r.append(b);
    r
}

fn push_query(out: &mut Vec<Label>, panel: &SidePanel, blink: bool, sk: &Skin)
    ensures
        labels_value(final(out)@) == labels_value(old(out)@) + seq![
            query_text(panel.value(), blink, *sk),
        ],
{
    if panel.search.as_str().is_empty() && !panel.search_focus {
        push_label(out, Place::Query, sk.ink_faint, "筛选文件…".to_owned());
    } else if panel.search_focus && blink {
        push_label(out, Place::Query, sk.ink_strong, joined(panel.search.as_str(), "▏"));
    } else {
        push_label(out, Place::Query, sk.ink_strong, panel.search.clone());
    }
}

/// What `depth` levels of indent and an icon take of a row.
fn row_reserve(depth: usize, filtering: bool, max_chars: usize) -> (r: usize)
    ensures
        clip_budget(max_chars as nat, r as nat) == clip_budget(
            max_chars as nat,
            (depth * 3 + if filtering {
                4int
            } else {
                6int
            }) as nat,
        ),
{
    let icons: usize = if filtering {
        4
    } else {
        6
    };
    if depth > max_chars / 3 {
        max_chars
    } else if max_chars - depth * 3 < icons {
        max_chars
    } else {
        depth * 3 + icons
    }
}

fn push_row(
    out: &mut Vec<Label>,
    row: &FileRow,
    i: usize,
    filtering: bool,
    max_chars: usize,
    sk: &Skin,
    ls: LsColors,
)
    ensures
        labels_value(final(out)@) == labels_value(old(out)@) + row_texts(
            row.value(),
            i,
            filtering,
            max_chars as nat,
            *sk,
            ls,
        ),
{
    let ghost before = labels_value(out@);
    if !filtering && row.is_dir {
        let chevron: &str = if row.expanded {
            "\u{eab4}"
        } else {
            "\u{eab6}"
        };
        push_label(out, Place::Chevron(i), sk.ink_faint, chevron.to_owned());
    }
    let icon: &str = if row.is_dir {
        if row.expanded {
            "\u{eaf7}"
        } else {
            "\u{ea83}"
        }
    } else {
        "\u{ea7b}"
    };
    let (icon_ink, name_ink) = if row.is_dir {
        (ls.dir, ls.dir)
    } else if is_executable(row.name.as_str()) {
        (ls.executable, ls.executable)
    } else {
        (sk.ink_dim, sk.ink)
    };
    push_label(out, Place::RowIcon(i), icon_ink, icon.to_owned());
    let reserve: usize = row_reserve(row.depth, filtering, max_chars);
    let name = clip_tail(row.name.as_str(), max_chars, reserve);
    push_label(out, Place::RowName(i), name_ink, name);
    assert(labels_value(out@) =~= before + row_texts(
        row.value(),
        i,
        filtering,
        max_chars as nat,
        *sk,
        ls,
    ));
}

fn push_files(out: &mut Vec<Label>, panel: &SidePanel, s: &Setting)
    ensures
        labels_value(final(out)@) == labels_value(old(out)@) + files_texts(panel.value(), *s),
{
    let ghost p = panel.value();
    let ghost start = labels_value(out@);
    let sk = s.theme.skin();
    let summary: String = match &panel.root {
        Some(root) => clip_tail(root.as_str(), s.max_chars, 0),
        None => "（无目录）".to_owned(),
    };
    push_label(out, Place::Summary, sk.ink_dim, summary);
    push_label(out, Place::SearchIcon, sk.ink_faint, "\u{ea6d}".to_owned());
    push_query(out, panel, s.blink, &sk);
    let filtering: bool = !unicode::trim(panel.search.as_str()).as_str().is_empty();
    let ghost shown = window(p.rows, p.scroll, s.max_rows as nat);
    let ghost head = labels_value(out@);
    assert(p.rows.len() == panel.rows@.len());
    let len: usize = panel.rows.len();
    let n: usize = window_len(len, panel.scroll, s.max_rows);
    let mut i: usize = 0;
    assert(head + Seq::<Text>::empty() =~= head);
    while i < n
        invariant
            i <= n,
            p == panel.value(),
            shown == window(p.rows, p.scroll, s.max_rows as nat),
            shown.len() == n,
            n > 0 ==> panel.scroll + n <= len,
            len == panel.rows@.len(),
            p.rows.len() == panel.rows@.len(),
            labels_value(out@) == head + rows_texts(
                shown,
                i as nat,
                filtering,
                s.max_chars as nat,
                sk,
                s.ls,
            ),
        decreases n - i,
    {
        let at: usize = panel.scroll + i;
        assert(p.rows[at as int] == panel.rows@[at as int].value());
        assert(shown[i as int] == p.rows[at as int]);
        let ghost done = rows_texts(shown, i as nat, filtering, s.max_chars as nat, sk, s.ls);
        push_row(out, &panel.rows[at], i, filtering, s.max_chars, &sk, s.ls);
        i += 1;
        assert(labels_value(out@) =~= head + rows_texts(
            shown,
            i as nat,
            filtering,
            s.max_chars as nat,
            sk,
            s.ls,
        ));
    }
    if let Some(drag) = &panel.drag_file {
        if drag.active {
            push_label(out, Place::DragName, sk.ink_strong, drag.name.clone());
        }
    }
    assert(labels_value(out@) =~= start + files_texts(p, *s));
}

fn push_branch(out: &mut Vec<Label>, panel: &SidePanel, g: &GitInfo, s: &Setting)
    ensures
        labels_value(final(out)@) == labels_value(old(out)@) + branch_texts(
            panel.value(),
            g.value(),
            *s,
        ),
{
    let ghost start = labels_value(out@);
    let sk = s.theme.skin();
    let is_light: bool = s.theme.palette().is_light;
    push_label(out, Place::BranchIcon, sk.ink_dim, "\u{ea68}".to_owned());
    let name: &str = if g.branch.as_str().is_empty() {
        "(no branch)"
    } else {
        g.branch.as_str()
    };
    let branch = clip_tail(name, s.max_chars, 18);
    let width: usize = text::chars_of(branch.as_str()).len();
    push_label(out, Place::Branch, sk.ink_strong, branch);
    let c_add: Rgb = match git::status_color('A', is_light) {
        Some(c) => c,
        None => sk.ink_dim,
    };
    let c_del: Rgb = match git::status_color('D', is_light) {
        Some(c) => c,
        None => sk.ink_dim,
    };
    if let Some(err) = panel.op_error() {
        let reserve: usize = if width < usize::MAX - 4 {
            width + 4
        } else {
            usize::MAX
        };
        assert(clip_budget(s.max_chars as nat, reserve as nat) == clip_budget(
            s.max_chars as nat,
            (width + 4) as nat,
        ));
        push_label(out, Place::Error, c_del, clip_tail(err, s.max_chars, reserve));
    } else {
        let counts = git::git_counts(g);
        if g.ahead > 0 {
            push_label(out, Place::Ahead, sk.accent, counts.ahead);
        }
        push_label(out, Place::Plus, c_add, counts.plus);
        push_label(out, Place::Minus, c_del, counts.minus);
    }
    assert(labels_value(out@) =~= start + branch_texts(panel.value(), g.value(), *s));
}

fn ink_of(enabled: bool, sk: &Skin) -> (r: Rgb)
    ensures
        r == button_ink(enabled, *sk),
{
    if enabled {
        sk.ink_strong
    } else {
        sk.ink_faint
    }
}

fn push_strip(out: &mut Vec<Label>, panel: &SidePanel, g: &GitInfo, s: &Setting)
    ensures
        labels_value(final(out)@) == labels_value(old(out)@) + strip_texts(
            panel.value(),
            g.value(),
            *s,
        ),
{
    let ghost start = labels_value(out@);
    let sk = s.theme.skin();
    if panel.commit_focus {
        if panel.commit_msg.as_str().is_empty() {
            push_label(
                out,
                Place::CommitMessage,
                sk.ink_faint,
                "提交信息…  Enter 提交 · Esc 取消".to_owned(),
            );
        } else {
            let caret: &str = if s.blink {
                "▏"
            } else {
                ""
            };
            push_label(
                out,
                Place::CommitMessage,
                sk.ink_strong,
                joined(panel.commit_msg.as_str(), caret),
            );
        }
    } else {
        let b = git::git_buttons(g, panel.op_running);
        push_label(out, Place::Button(0), ink_of(b.stage.enabled, &sk), b.stage.label);
        push_label(out, Place::Button(1), ink_of(b.commit.enabled, &sk), b.commit.label);
        push_label(out, Place::Button(2), ink_of(b.push.enabled, &sk), b.push.label);
    }
    assert(labels_value(out@) =~= start + strip_texts(panel.value(), g.value(), *s));
}

fn push_line(out: &mut Vec<Label>, line: &GitLine, i: usize, s: &Setting)
    ensures
        labels_value(final(out)@) == labels_value(old(out)@) + line_texts(line.value(), i, *s),
{
    let ghost start = labels_value(out@);
    let sk = s.theme.skin();
    match line {
        GitLine::Header(t) => push_label(out, Place::Heading(i), sk.ink_dim, t.clone()),
        GitLine::File(mark, path) => {
            let ink: Rgb = match git::status_color(*mark, s.theme.palette().is_light) {
                Some(c) => c,
                None => sk.ink_dim,
            };
            let mut t = String::new();
            t.push(*mark);
            assert(t@ =~= seq![*mark]);
            push_label(out, Place::Mark(i), ink, t);
            push_label(
                out,
                Place::ChangedPath(i),
                sk.ink,
                clip_tail(path.as_str(), s.max_chars, 3),
            );
        },
    }
    assert(labels_value(out@) =~= start + line_texts(line.value(), i, *s));
}

fn push_git(out: &mut Vec<Label>, panel: &SidePanel, g: &GitInfo, s: &Setting)
    requires
        panel.git == Some(*g),
    ensures
        labels_value(final(out)@) == labels_value(old(out)@) + git_texts(panel.value(), *s),
{
    let ghost p = panel.value();
    let ghost start = labels_value(out@);
    push_branch(out, panel, g, s);
    push_strip(out, panel, g, s);
    let lines = git::git_lines(g);
    let ghost all = git::view_lines(g.value());
    let ghost shown = window(all, p.scroll, s.max_rows as nat);
    let ghost head = labels_value(out@);
    assert(all.len() == lines@.len());
    let len: usize = lines.len();
    let n: usize = window_len(len, panel.scroll, s.max_rows);
    let mut i: usize = 0;
    assert(head + Seq::<Text>::empty() =~= head);
    while i < n
        invariant
            i <= n,
            p == panel.value(),
            all == git::lines_value(lines@),
            shown == window(all, p.scroll, s.max_rows as nat),
            shown.len() == n,
            n > 0 ==> panel.scroll + n <= len,
            len == lines@.len(),
            labels_value(out@) == head + lines_texts(shown, i as nat, *s),
        decreases n - i,
    {
        let at: usize = panel.scroll + i;
        assert(all[at as int] == lines@[at as int].value());
        assert(shown[i as int] == all[at as int]);
        push_line(out, &lines[at], i, s);
        i += 1;
        assert(labels_value(out@) =~= head + lines_texts(shown, i as nat, *s));
    }
    assert(labels_value(out@) =~= start + git_texts(p, *s));
}

/// The texts of the drawer: header tabs, the summary line (the directory, or the
/// branch with its counts), the input box, then the visible rows.
pub fn draw_text(panel: &SidePanel, s: &Setting) -> (r: Vec<Label>)
    ensures
        labels_value(r@) == texts(panel.value(), *s),
{
    let ghost p = panel.value();
    let sk = s.theme.skin();
    let mut out: Vec<Label> = Vec::new();
    assert(labels_value(out@) =~= Seq::empty());
    push_header(&mut out, panel.view, &sk);
    assert(labels_value(out@) =~= header_texts(p, sk));
    match panel.view {
        PanelView::Files => push_files(&mut out, panel, s),
        PanelView::Git => match &panel.git {
            Some(g) => push_git(&mut out, panel, g, s),
            None => push_label(
                &mut out,
                Place::Summary,
                sk.ink_dim,
                "不在 git 仓库中".to_owned(),
            ),
        },
    }
    out
}

/// A clipped text keeps its tail and fits its budget.
pub proof fn law_clipped_texts_fit(t: Seq<char>, max_chars: nat, reserve: nat)
    ensures
        clipped(t, max_chars, reserve).len() <= clip_budget(max_chars, reserve),
        t.len() <= clip_budget(max_chars, reserve) ==> clipped(t, max_chars, reserve) == t,
        t.len() > 0 ==> clipped(t, max_chars, reserve).last() == t.last(),
{
}

/// Selection outranks hover: the selected row never gets the hover wash.
pub proof fn law_selection_outranks_hover(p: PanelState, max_rows: nat)
    requires
        p.view == PanelView::Files,
    ensures
        hovered_row(p, max_rows) matches Some(i) ==> i < max_rows && p.selected != Some(
            p.rows[(p.scroll + i) as int].path,
        ),
{
}

} // verus!
