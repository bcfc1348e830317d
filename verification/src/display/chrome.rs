//! The window's chrome: what the pointer hits on it, and what it shows. Turning
//! surfaces and places into pixels is left to the caller.

use vstd::prelude::*;

use crate::display::color::{Rgb, Rgba};
use crate::display::program::AiLogo;
use crate::display::side_panel::panel::PanelView;
use crate::display::side_panel::view;
use crate::display::tabs;
use crate::display::tabs::{ChromeHit, SplitNav, TabBar, TabState};
use crate::display::theme;
use crate::display::theme::{NebulaPalette, NebulaTheme, Skin};
use crate::display::width;
use crate::text;

verus! {

/// Where a pixel lies in the chrome's layout.
#[derive(Debug, Clone, Copy, PartialEq, Eq, Structural)]
pub struct ChromeSpot {
    pub on_toggle: bool,
    pub on_plus: bool,
    /// The first close button that holds the pixel.
    pub close: Option<usize>,
    /// The first tab row that holds the pixel.
    pub tab: Option<usize>,
    pub in_bar: bool,
    /// The first control of the top bar that holds the pixel.
    pub control: Option<ChromeHit>,
}

/// What a pixel hits. The sidebar comes before the top bar, and in the bar the
/// controls come before the rest, which drags the window.
pub open spec fn hit_at(spot: ChromeSpot) -> ChromeHit {
    if spot.on_toggle {
        ChromeHit::SidebarToggle
    } else if spot.on_plus {
        ChromeHit::NewTab
    } else if spot.close is Some {
        ChromeHit::TabClose(spot.close->0)
    } else if spot.tab is Some {
        ChromeHit::Tab(spot.tab->0)
    } else if spot.in_bar {
        match spot.control {
            Some(hit) => hit,
            None => ChromeHit::TitleBar,
        }
    } else {
        ChromeHit::Outside
    }
}

/// What a pixel hits, by where it lies in the layout.
pub fn chrome_hit_with_tabs(spot: ChromeSpot) -> (r: ChromeHit)
    ensures
        r == hit_at(spot),
{
    if spot.on_toggle {
        return ChromeHit::SidebarToggle;
    }
    if spot.on_plus {
        return ChromeHit::NewTab;
    }
    if let Some(i) = spot.close {
        return ChromeHit::TabClose(i);
    }
    if let Some(i) = spot.tab {
        return ChromeHit::Tab(i);
    }
    if spot.in_bar {
        return match spot.control {
            Some(hit) => hit,
            None => ChromeHit::TitleBar,
        };
    }
    ChromeHit::Outside
}

/// Direction of an interactive resize.
#[derive(Debug, Clone, Copy, PartialEq, Eq, Structural)]
pub enum ResizeDirection {
    North,
    NorthEast,
    East,
    SouthEast,
    South,
    SouthWest,
    West,
    NorthWest,
}

/// The direction in which a press on the borders resizes: corners first.
pub open spec fn edge_of(top: bool, bottom: bool, left: bool, right: bool) -> Option<
    ResizeDirection,
> {
    if top && left {
        Some(ResizeDirection::NorthWest)
    } else if top && right {
        Some(ResizeDirection::NorthEast)
    } else if bottom && left {
        Some(ResizeDirection::SouthWest)
    } else if bottom && right {
        Some(ResizeDirection::SouthEast)
    } else if top {
        Some(ResizeDirection::North)
    } else if bottom {
        Some(ResizeDirection::South)
    } else if left {
        Some(ResizeDirection::West)
    } else if right {
        Some(ResizeDirection::East)
    } else {
        None
    }
}

/// Resize direction of a pixel, by the window borders that it lies within.
pub fn resize_edge(top: bool, bottom: bool, left: bool, right: bool) -> (r: Option<ResizeDirection>)
    ensures
        r == edge_of(top, bottom, left, right),
{
    match (top, bottom, left, right) {
        (true, _, true, _) => Some(ResizeDirection::NorthWest),
        (true, _, _, true) => Some(ResizeDirection::NorthEast),
        (_, true, true, _) => Some(ResizeDirection::SouthWest),
        (_, true, _, true) => Some(ResizeDirection::SouthEast),
        (true, _, _, _) => Some(ResizeDirection::North),
        (_, true, _, _) => Some(ResizeDirection::South),
        (_, _, true, _) => Some(ResizeDirection::West),
        (_, _, _, true) => Some(ResizeDirection::East),
        _ => None,
    }
}

/// A surface of the chrome.
#[derive(Debug, Clone, Copy, PartialEq, Eq, Structural)]
pub enum Surface {
    /// The ambient glow in the lower left corner.
    GlowLeft,
    /// The ambient glow in the upper right corner.
    GlowRight,
    /// The wide band along an edge of the window: top, bottom, left, right.
    BorderBand(SplitNav),
    /// The thin line along an edge of the window.
    BorderLine(SplitNav),
    TitleBar,
    ToggleHover,
    ToggleFrame,
    ToggleCutout,
    ToggleBar,
    SettingsHover,
    Sidebar,
    /// The half of the terminal area that a dragged tab would dock into.
    Dock(SplitNav),
    /// That half without its border.
    DockInner(SplitNav),
    TabHalo(usize),
    Tab(usize),
    TabClose(usize),
    /// The glow around the mark of an unseen result.
    MarkGlow(usize),
    Mark(usize),
    /// A dot of the spinner of a tab, at one of eight steps of its orbit.
    Spinner(usize, u32),
    NewTab,
    Control(ChromeHit),
    UnderlineLeft,
    UnderlineRight,
}

/// A surface and its colors: from the first to the second, where they differ.
#[derive(Debug, Clone, Copy, PartialEq, Eq, Structural)]
pub struct Fill {
    pub surface: Surface,
    pub color: Rgba,
    pub color_to: Rgba,
}

pub open spec fn fill(surface: Surface, color: Rgba) -> Fill {
    Fill { surface, color, color_to: color }
}

pub open spec fn gradient(surface: Surface, color: Rgba, color_to: Rgba) -> Fill {
    Fill { surface, color, color_to }
}

pub open spec fn when(b: bool, s: Seq<Fill>) -> Seq<Fill> {
    if b {
        s
    } else {
        Seq::empty()
    }
}

/// What the chrome shows besides the tabs.
#[derive(Debug, Clone, Copy, PartialEq, Eq, Structural)]
pub struct ChromeView {
    pub theme: NebulaTheme,
    /// The window's background.
    pub background: Rgb,
    pub settings_open: bool,
    pub settings_hovered: bool,
    /// Whether the sidebar is in view, possibly while it slides.
    pub sidebar_visible: bool,
    /// How many tab rows are laid out; none while the sidebar is folded.
    pub rows: usize,
    /// The view of the side panel, where it is open.
    pub panel: Option<PanelView>,
    /// Milliseconds of the current second, which drive the spinners.
    pub millis: u32,
    /// Whether the caret is in its visible phase.
    pub blink: bool,
}

/// The ambient lights: skipped where they have no alpha.
pub open spec fn glow_fills(p: NebulaPalette) -> Seq<Fill> {
    when(p.glow_l.a > 0, seq![fill(Surface::GlowLeft, p.glow_l)]) + when(
        p.glow_r.a > 0,
        seq![fill(Surface::GlowRight, p.glow_r)],
    )
}

/// The window border, in the window's background: the edge reads as one
/// cohesive surface.
pub open spec fn border_fills(background: Rgb) -> Seq<Fill> {
    let c = view::tint(background, 255);
    seq![
        fill(Surface::BorderBand(SplitNav::Up), c),
        fill(Surface::BorderBand(SplitNav::Down), c),
        fill(Surface::BorderBand(SplitNav::Left), c),
        fill(Surface::BorderBand(SplitNav::Right), c),
        fill(Surface::BorderLine(SplitNav::Up), c),
        fill(Surface::BorderLine(SplitNav::Down), c),
        fill(Surface::BorderLine(SplitNav::Left), c),
        fill(Surface::BorderLine(SplitNav::Right), c),
    ]
}

/// The top bar with the sidebar toggle and the settings button.
pub open spec fn bar_fills(t: TabState, v: ChromeView) -> Seq<Fill> {
    let p = v.theme.chrome();
    let sk = v.theme.overlay();
    let hovered = t.hover == ChromeHit::SidebarToggle;
    let line = view::tint(
        if hovered {
            sk.icon_hover
        } else {
            sk.icon
        },
        185,
    );
    seq![fill(Surface::TitleBar, p.panel)] + when(
        hovered,
        seq![fill(Surface::ToggleHover, sk.hover_strong)],
    ) + seq![
        fill(Surface::ToggleFrame, line),
        fill(Surface::ToggleCutout, view::faded(p.panel, 255)),
        fill(Surface::ToggleBar, line),
    ] + when(v.settings_hovered, seq![fill(Surface::SettingsHover, sk.hover_strong)])
}

/// The side on which an active drag would dock.
pub open spec fn dock_side(t: TabState) -> Option<SplitNav> {
    match t.drag {
        Some(d) => if d.active {
            d.dock
        } else {
            None
        },
        None => None,
    }
}

/// The sidebar's panel, and the half that a dragged tab would dock into.
pub open spec fn panel_fills(t: TabState, v: ChromeView) -> Seq<Fill> {
    let wash = view::tint(Rgb { r: 120, g: 200, b: 230 }, 32);
    let inner = view::tint(Rgb { r: 120, g: 200, b: 230 }, 18);
    when(v.sidebar_visible, seq![fill(Surface::Sidebar, v.theme.chrome().panel)]) + (
    match dock_side(t) {
        Some(nav) => seq![fill(Surface::Dock(nav), wash), fill(Surface::DockInner(nav), inner)],
        None => Seq::empty(),
    })
}

pub open spec fn flag(s: Seq<bool>, i: int) -> bool {
    0 <= i < s.len() && s[i]
}

/// The step of a spinner's dot: one revolution takes eight steps of 100 ms, and
/// the tail dots follow the head.
pub open spec fn spinner_step(millis: u32, k: int) -> u32 {
    (((millis as int / 100) % 8 + 8 - k) % 8) as u32
}

/// Three orbiting dots, head bright and tail dim.
pub open spec fn spinner_fills(i: usize, millis: u32, accent: Rgba) -> Seq<Fill> {
    seq![
        fill(Surface::Spinner(i, spinner_step(millis, 0)), view::faded(accent, 225)),
        fill(Surface::Spinner(i, spinner_step(millis, 1)), view::faded(accent, 140)),
        fill(Surface::Spinner(i, spinner_step(millis, 2)), view::faded(accent, 70)),
    ]
}

/// Whether the pointer is on a tab or on its close button.
pub open spec fn tab_hovered(hover: ChromeHit, i: usize) -> bool {
    hover == ChromeHit::Tab(i) || hover == ChromeHit::TabClose(i)
}

/// A tab: the active one wears an accent halo and wash. Where the pointer is
/// elsewhere, an unseen result earns a dot, and a running command a spinner.
pub open spec fn tab_fills(t: TabState, v: ChromeView, i: usize) -> Seq<Fill> {
    let p = v.theme.chrome();
    let sk = v.theme.overlay();
    let hovered = tab_hovered(t.hover, i);
    let body = if i == t.active {
        seq![
            fill(Surface::TabHalo(i), view::faded(p.edge_r, 40)),
            fill(Surface::Tab(i), p.tab_bg_l),
            fill(Surface::Tab(i), view::faded(p.edge_r, 26)),
        ]
    } else {
        seq![fill(Surface::Tab(i), p.pill)]
    };
    let mark = view::tint(Rgb { r: 82, g: 168, b: 255 }, 230);
    let glow = view::tint(Rgb { r: 82, g: 168, b: 255 }, 80);
    body + when(hovered, seq![fill(Surface::Tab(i), sk.hover)]) + when(
        t.hover == ChromeHit::TabClose(i),
        seq![fill(Surface::TabClose(i), sk.hover_strong)],
    ) + when(
        !hovered,
        if flag(t.bells, i as int) {
            seq![fill(Surface::MarkGlow(i), glow), fill(Surface::Mark(i), mark)]
        } else if flag(t.running, i as int) {
            spinner_fills(i, v.millis, p.edge_r)
        } else {
            Seq::empty()
        },
    )
}

/// The first `n` tabs.
pub open spec fn tabs_fills(t: TabState, v: ChromeView, n: nat) -> Seq<Fill>
    decreases n,
{
    if n == 0 {
        Seq::empty()
    } else {
        tabs_fills(t, v, (n - 1) as nat) + tab_fills(t, v, (n - 1) as usize)
    }
}

pub open spec fn control_fill(hover: ChromeHit, hit: ChromeHit, sk: Skin) -> Seq<Fill> {
    let c = if hit == ChromeHit::Close {
        view::tint(Rgb { r: 240, g: 80, b: 104 }, 96)
    } else {
        sk.hover_strong
    };
    when(hover == hit, seq![fill(Surface::Control(hit), c)])
}

/// The new-tab pill and the hovered control of the top bar.
pub open spec fn control_fills(t: TabState, v: ChromeView) -> Seq<Fill> {
    let sk = v.theme.overlay();
    seq![fill(Surface::NewTab, v.theme.chrome().pill)] + when(
        t.hover == ChromeHit::NewTab,
        seq![fill(Surface::NewTab, sk.hover_strong)],
    ) + control_fill(t.hover, ChromeHit::PanelFiles, sk) + control_fill(
        t.hover,
        ChromeHit::PanelGit,
        sk,
    ) + control_fill(t.hover, ChromeHit::Minimize, sk) + control_fill(
        t.hover,
        ChromeHit::Maximize,
        sk,
    ) + control_fill(t.hover, ChromeHit::Close, sk)
}

/// The mean of two channels.
pub open spec fn mean(a: u8, b: u8) -> u8 {
    ((a + b) / 2) as u8
}

/// The accent light beneath the title bar: it fades in from the left, through
/// the mean of both edge colors, to the right.
pub open spec fn underline_fills(p: NebulaPalette) -> Seq<Fill> {
    let middle = Rgba {
        r: mean(p.edge_l.r, p.edge_r.r),
        g: mean(p.edge_l.g, p.edge_r.g),
        b: mean(p.edge_l.b, p.edge_r.b),
        a: 48,
    };
    seq![
        gradient(Surface::UnderlineLeft, view::faded(p.edge_l, 0), middle),
        gradient(Surface::UnderlineRight, middle, view::faded(p.edge_r, 18)),
    ]
}

/// The fills of the chrome, from back to front.
pub open spec fn fills(t: TabState, v: ChromeView) -> Seq<Fill> {
    glow_fills(v.theme.chrome()) + border_fills(v.background) + bar_fills(t, v) + panel_fills(
        t,
        v,
    ) + tabs_fills(t, v, v.rows as nat) + control_fills(t, v) + underline_fills(v.theme.chrome())
}

fn push(out: &mut Vec<Fill>, surface: Surface, color: Rgba)
    ensures
        final(out)@ == old(out)@ + seq![fill(surface, color)],
{
    out.push(Fill { surface, color, color_to: color });
    assert(out@ =~= old(out)@ + seq![fill(surface, color)]);
}

fn push_glows(out: &mut Vec<Fill>, p: &NebulaPalette)
    ensures
        final(out)@ == old(out)@ + glow_fills(*p),
{
    if p.glow_l.a > 0 {
        push(out, Surface::GlowLeft, p.glow_l);
    }
    if p.glow_r.a > 0 {
        push(out, Surface::GlowRight, p.glow_r);
    }
    assert(out@ =~= old(out)@ + glow_fills(*p));
}

fn push_borders(out: &mut Vec<Fill>, background: Rgb)
    ensures
        final(out)@ == old(out)@ + border_fills(background),
{
    let c = Rgba::new(background.r, background.g, background.b, 255);
    push(out, Surface::BorderBand(SplitNav::Up), c);
    push(out, Surface::BorderBand(SplitNav::Down), c);
    push(out, Surface::BorderBand(SplitNav::Left), c);
    push(out, Surface::BorderBand(SplitNav::Right), c);
    push(out, Surface::BorderLine(SplitNav::Up), c);
    push(out, Surface::BorderLine(SplitNav::Down), c);
    push(out, Surface::BorderLine(SplitNav::Left), c);
    push(out, Surface::BorderLine(SplitNav::Right), c);
    assert(out@ =~= old(out)@ + border_fills(background));
}

fn push_bar(out: &mut Vec<Fill>, hover: ChromeHit, v: &ChromeView)
    ensures
        forall|t: TabState|
            t.hover == hover ==> final(out)@ == old(out)@ + #[trigger] bar_fills(t, *v),
{
    let p = v.theme.palette();
    let sk = v.theme.skin();
    let hovered: bool = hover == ChromeHit::SidebarToggle;
    let icon = if hovered {
        sk.icon_hover
    } else {
        sk.icon
    };
    let line = Rgba::new(icon.r, icon.g, icon.b, 185);
    push(out, Surface::TitleBar, p.panel);
    if hovered {
        push(out, Surface::ToggleHover, sk.hover_strong);
    }
    push(out, Surface::ToggleFrame, line);
    push(out, Surface::ToggleCutout, Rgba::new(p.panel.r, p.panel.g, p.panel.b, 255));
    push(out, Surface::ToggleBar, line);
    if v.settings_hovered {
        push(out, Surface::SettingsHover, sk.hover_strong);
    }
    assert forall|t: TabState| t.hover == hover implies out@ == old(out)@ + #[trigger] bar_fills(
        t,
        *v,
    ) by {
        assert(out@ =~= old(out)@ + bar_fills(t, *v));
    }
}

fn push_panel(out: &mut Vec<Fill>, t: &TabBar, v: &ChromeView)
    ensures
        final(out)@ == old(out)@ + panel_fills(t.value(), *v),
{
    if v.sidebar_visible {
        push(out, Surface::Sidebar, v.theme.palette().panel);
    }
    if let Some(d) = t.drag {
        if d.active {
            if let Some(nav) = d.dock {
                push(out, Surface::Dock(nav), Rgba::new(120, 200, 230, 32));
                push(out, Surface::DockInner(nav), Rgba::new(120, 200, 230, 18));
            }
        }
    }
    assert(out@ =~= old(out)@ + panel_fills(t.value(), *v));
}

fn dot_step(millis: u32, k: u32) -> (r: u32)
    requires
        k < 8,
    ensures
        r == spinner_step(millis, k as int),
{
    let phase: u32 = (millis / 100) % 8;
    (phase + 8 - k) % 8
}

fn push_spinner(out: &mut Vec<Fill>, i: usize, millis: u32, accent: Rgba)
    ensures
        final(out)@ == old(out)@ + spinner_fills(i, millis, accent),
{
    push(
        out,
        Surface::Spinner(i, dot_step(millis, 0)),
        Rgba::new(accent.r, accent.g, accent.b, 225),
    );
    push(
        out,
        Surface::Spinner(i, dot_step(millis, 1)),
        Rgba::new(accent.r, accent.g, accent.b, 140),
    );
    push(
        out,
        Surface::Spinner(i, dot_step(millis, 2)),
        Rgba::new(accent.r, accent.g, accent.b, 70),
    );
    assert(out@ =~= old(out)@ + spinner_fills(i, millis, accent));
}

fn is_set(v: &Vec<bool>, i: usize) -> (r: bool)
    ensures
        r == flag(v@, i as int),
{
    i < v.len() && v[i]
}

fn push_tab(out: &mut Vec<Fill>, t: &TabBar, v: &ChromeView, i: usize)
    ensures
        final(out)@ == old(out)@ + tab_fills(t.value(), *v, i),
{
    let p = v.theme.palette();
    let sk = v.theme.skin();
    let closing: bool = t.hover == ChromeHit::TabClose(i);
    let hovered: bool = t.hover == ChromeHit::Tab(i) || closing;
    if i == t.active {
        let a = p.edge_r;
        push(out, Surface::TabHalo(i), Rgba::new(a.r, a.g, a.b, 40));
        push(out, Surface::Tab(i), p.tab_bg_l);
        push(out, Surface::Tab(i), Rgba::new(a.r, a.g, a.b, 26));
    } else {
        push(out, Surface::Tab(i), p.pill);
    }
    if hovered {
        push(out, Surface::Tab(i), sk.hover);
    }
    if closing {
        push(out, Surface::TabClose(i), sk.hover_strong);
    }
    if !hovered {
        if is_set(&t.bells, i) {
            push(out, Surface::MarkGlow(i), Rgba::new(82, 168, 255, 80));
            push(out, Surface::Mark(i), Rgba::new(82, 168, 255, 230));
        } else if is_set(&t.running, i) {
            push_spinner(out, i, v.millis, p.edge_r);
        }
    }
    assert(out@ =~= old(out)@ + tab_fills(t.value(), *v, i));
}

fn push_tabs(out: &mut Vec<Fill>, t: &TabBar, v: &ChromeView)
    ensures
        final(out)@ == old(out)@ + tabs_fills(t.value(), *v, v.rows as nat),
{
    let ghost start = out@;
    let mut i: usize = 0;
    assert(start + Seq::<Fill>::empty() =~= start);
    while i < v.rows
        invariant
            i <= v.rows,
            out@ == start + tabs_fills(t.value(), *v, i as nat),
        decreases v.rows - i,
    {
        push_tab(out, t, v, i);
        i += 1;
        assert(out@ =~= start + tabs_fills(t.value(), *v, i as nat));
    }
}

fn push_control(out: &mut Vec<Fill>, hover: ChromeHit, hit: ChromeHit, sk: &Skin)
    ensures
        final(out)@ == old(out)@ + control_fill(hover, hit, *sk),
{
    if hover == hit {
        let c = if hit == ChromeHit::Close {
            Rgba::new(240, 80, 104, 96)
        } else {
            sk.hover_strong
        };
        push(out, Surface::Control(hit), c);
    }
    assert(out@ =~= old(out)@ + control_fill(hover, hit, *sk));
}

fn push_controls(out: &mut Vec<Fill>, t: &TabBar, v: &ChromeView)
    ensures
        final(out)@ == old(out)@ + control_fills(t.value(), *v),
{
    let sk = v.theme.skin();
    push(out, Surface::NewTab, v.theme.palette().pill);
    if t.hover == ChromeHit::NewTab {
        push(out, Surface::NewTab, sk.hover_strong);
    }
    push_control(out, t.hover, ChromeHit::PanelFiles, &sk);
    push_control(out, t.hover, ChromeHit::PanelGit, &sk);
    push_control(out, t.hover, ChromeHit::Minimize, &sk);
    push_control(out, t.hover, ChromeHit::Maximize, &sk);
    push_control(out, t.hover, ChromeHit::Close, &sk);
    assert(out@ =~= old(out)@ + control_fills(t.value(), *v));
}

fn mean_of(a: u8, b: u8) -> (r: u8)
    ensures
        r == mean(a, b),
{
    ((a as u16 + b as u16) / 2) as u8
}

fn push_underline(out: &mut Vec<Fill>, p: &NebulaPalette)
    ensures
        final(out)@ == old(out)@ + underline_fills(*p),
{
    let l = p.edge_l;
    let r = p.edge_r;
    let middle = Rgba::new(mean_of(l.r, r.r), mean_of(l.g, r.g), mean_of(l.b, r.b), 48);
    out.push(
        Fill {
            surface: Surface::UnderlineLeft,
            color: Rgba::new(l.r, l.g, l.b, 0),
            color_to: middle,
        },
    );
    out.push(
        Fill {
            surface: Surface::UnderlineRight,
            color: middle,
            color_to: Rgba::new(r.r, r.g, r.b, 18),
        },
    );
    assert(out@ =~= old(out)@ + underline_fills(*p));
}

/// The fills of the chrome, from back to front: ambient light, window border,
/// title bar, sidebar, tabs and controls.
pub fn draw_chrome(t: &TabBar, v: &ChromeView) -> (r: Vec<Fill>)
    ensures
        r@ == fills(t.value(), *v),
{
    let p = v.theme.palette();
    let mut out: Vec<Fill> = Vec::new();
    push_glows(&mut out, &p);
    push_borders(&mut out, v.background);
    push_bar(&mut out, t.hover, v);
    push_panel(&mut out, t, v);
    push_tabs(&mut out, t, v);
    push_controls(&mut out, t, v);
    push_underline(&mut out, &p);
    assert(bar_fills(t.value(), *v).len() >= 0);
    assert(out@ =~= fills(t.value(), *v));
    out
}

/// The ink and the glyph of a control of the top bar.
pub struct ControlLabel {
    pub hit: ChromeHit,
    pub ink: Rgb,
    pub icon: &'static str,
}

/// The glyph of a control of the top bar.
pub open spec fn control_icon(hit: ChromeHit) -> Seq<char> {
    match hit {
        ChromeHit::Minimize => "\u{eaba}"@,
        ChromeHit::Maximize => "\u{eab9}"@,
        ChromeHit::Close => "\u{eab8}"@,
        ChromeHit::PanelFiles => "\u{ea83}"@,
        ChromeHit::PanelGit => "\u{ea68}"@,
        _ => ""@,
    }
}

/// The ink of a control: the toggles of the side panel light up in the accent
/// while their view is open.
pub open spec fn control_ink(hover: ChromeHit, hit: ChromeHit, v: ChromeView) -> Rgb {
    let sk = v.theme.overlay();
    if (hit == ChromeHit::PanelFiles && v.panel == Some(PanelView::Files)) || (hit
        == ChromeHit::PanelGit && v.panel == Some(PanelView::Git)) {
        sk.accent
    } else if hover == hit {
        sk.icon_hover
    } else {
        sk.icon
    }
}

/// The glyph and the ink of a control of the top bar.
pub fn control_label(hover: ChromeHit, hit: ChromeHit, v: &ChromeView) -> (r: ControlLabel)
    ensures
        r.hit == hit,
        r.ink == control_ink(hover, hit, *v),
        r.icon@ == control_icon(hit),
{
    let sk = v.theme.skin();
    let icon: &'static str = match hit {
        ChromeHit::Minimize => "\u{eaba}",
        ChromeHit::Maximize => "\u{eab9}",
        ChromeHit::Close => "\u{eab8}",
        ChromeHit::PanelFiles => "\u{ea83}",
        ChromeHit::PanelGit => "\u{ea68}",
        _ => "",
    };
    let active: bool = match v.panel {
        Some(PanelView::Files) => hit == ChromeHit::PanelFiles,
        Some(PanelView::Git) => hit == ChromeHit::PanelGit,
        None => false,
    };
    let ink = if active {
        sk.accent
    } else if hover == hit {
        sk.icon_hover
    } else {
        sk.icon
    };
    ControlLabel { hit, ink, icon }
}

/// The rename box of a tab.
#[derive(Debug, Clone, Copy, PartialEq, Eq, Structural)]
pub struct RenameBox {
    /// Whether the whole name is selected.
    pub select_all: bool,
    /// How many columns the shown name takes.
    pub text_columns: u128,
    /// At which column the caret stands.
    pub caret_columns: u128,
    /// Whether the caret is drawn.
    pub caret_visible: bool,
}

/// The texts of a tab row.
pub struct TabLabel {
    pub label: String,
    pub ink: Rgb,
    pub logo: Option<AiLogo>,
    /// The box around the name, while it is edited.
    pub rename: Option<RenameBox>,
    /// The ink of the close button, while the pointer is on the row.
    pub close_ink: Option<Rgb>,
}

/// The texts of a tab row, as a value.
pub struct TabText {
    pub label: Seq<char>,
    pub ink: Rgb,
    pub logo: Option<AiLogo>,
    pub rename: Option<RenameBox>,
    pub close_ink: Option<Rgb>,
}

impl TabLabel {
    pub open spec fn value(self) -> TabText {
        TabText {
            label: self.label@,
            ink: self.ink,
            logo: self.logo,
            rename: self.rename,
            close_ink: self.close_ink,
        }
    }
}

/// The edit buffer, where tab `i` is being renamed.
pub open spec fn renaming(t: TabState, i: usize) -> Option<Seq<char>> {
    match t.rename {
        Some((index, buf)) => if index == i {
            Some(buf)
        } else {
            None
        },
        None => None,
    }
}

/// What a tab row reads: the edit buffer while it is renamed, else its label.
pub open spec fn row_name(t: TabState, i: usize) -> Seq<char> {
    match renaming(t, i) {
        Some(buf) => buf,
        None => if i < t.labels.len() {
            t.labels[i as int]
        } else {
            "."@
        },
    }
}

/// How many columns the characters of a name box take.
pub open spec fn name_columns(s: Seq<char>) -> nat {
    tabs::columns_before(s, s.len())
}

/// The box around a name, by what is shown of it.
pub open spec fn rename_box(t: TabState, shown: Seq<char>, blink: bool) -> RenameBox {
    let caret = if t.rename_caret < shown.len() {
        t.rename_caret
    } else {
        shown.len()
    };
    RenameBox {
        select_all: t.rename_select_all,
        text_columns: name_columns(shown) as u128,
        caret_columns: tabs::columns_before(shown, caret) as u128,
        caret_visible: !t.rename_select_all && blink,
    }
}

/// A part of a rename box. Its columns count from the first one of the name.
#[derive(Debug, Clone, Copy, PartialEq, Eq, Structural)]
pub enum RenamePart {
    /// The whole box.
    Base,
    /// The whole box again: all but a hairline of it is then covered.
    Ring,
    /// The box without a hairline at each side.
    Inner,
    /// The selected name.
    Selection { columns: u128 },
    Caret { column: u128 },
}

/// A part of a rename box, and what fills it.
#[derive(Debug, Clone, Copy, PartialEq, Eq, Structural)]
pub struct RenameFill {
    pub part: RenamePart,
    pub color: Rgba,
}

/// The accent of a palette's right edge, as opaque as told.
pub open spec fn edge_color(p: NebulaPalette, a: u8) -> Rgba {
    Rgba { r: p.edge_r.r, g: p.edge_r.g, b: p.edge_r.b, a }
}

/// The white of a rename box.
pub open spec fn box_white() -> Rgba {
    Rgba { r: 255, g: 255, b: 255, a: 250 }
}

/// What fills a rename box, from the bottom up: a white box with an accent ring,
/// then the selection in blue where the whole name is selected, else the caret in
/// accent while it is visible.
pub open spec fn fills_of(b: RenameBox, p: NebulaPalette) -> Seq<RenameFill> {
    let box_fills = seq![
        RenameFill { part: RenamePart::Base, color: box_white() },
        RenameFill { part: RenamePart::Ring, color: edge_color(p, 120) },
        RenameFill { part: RenamePart::Inner, color: box_white() },
    ];
    if b.select_all {
        box_fills.push(
            RenameFill {
                part: RenamePart::Selection { columns: b.text_columns },
                color: Rgba { r: 38, g: 120, b: 220, a: 235 },
            },
        )
    } else if b.caret_visible {
        box_fills.push(
            RenameFill {
                part: RenamePart::Caret { column: b.caret_columns },
                color: edge_color(p, 255),
            },
        )
    } else {
        box_fills
    }
}

/// What fills a rename box, from the bottom up. It is drawn under the name.
pub fn rename_fills(b: &RenameBox, theme: NebulaTheme) -> (r: Vec<RenameFill>)
    ensures
        r@ == fills_of(*b, theme.chrome()),
{
    let accent: Rgba = theme.palette().edge_r;
    let white: Rgba = Rgba::new(255, 255, 255, 250);
    let mut r: Vec<RenameFill> = Vec::new();
    r.push(RenameFill { part: RenamePart::Base, color: white });
    r.push(
        RenameFill {
            part: RenamePart::Ring,
            color: Rgba::new(accent.r, accent.g, accent.b, 120),
        },
    );
    r.push(RenameFill { part: RenamePart::Inner, color: white });
    if b.select_all {
        r.push(
            RenameFill {
                part: RenamePart::Selection { columns: b.text_columns },
                color: Rgba::new(38, 120, 220, 235),
            },
        );
    } else if b.caret_visible {
        r.push(
            RenameFill {
                part: RenamePart::Caret { column: b.caret_columns },
                color: Rgba::new(accent.r, accent.g, accent.b, 255),
            },
        );
    }
    assert(r@ =~= fills_of(*b, theme.chrome()));
    r
}

/// The column of a name at which the input method's window is anchored: the
/// caret's, or the first one where the whole name is selected.
pub fn rename_anchor(b: &RenameBox) -> (r: u128)
    ensures
        r == if b.select_all {
            0
        } else {
            b.caret_columns
        },
{
    if b.select_all {
        0
    } else {
        b.caret_columns
    }
}

/// The texts of tab row `i`, which has room for `max_cols` columns.
pub open spec fn tab_text(t: TabState, v: ChromeView, i: usize, max_cols: usize) -> TabText {
    let sk = v.theme.overlay();
    let hovered = tab_hovered(t.hover, i);
    let shown = width::cut_right(
        row_name(t, i),
        if max_cols == 0 {
            1
        } else {
            max_cols as nat
        },
    );
    TabText {
        label: shown,
        ink: if renaming(t, i) is Some {
            if t.rename_select_all {
                Rgb { r: 255, g: 255, b: 255 }
            } else {
                Rgb { r: 0, g: 0, b: 0 }
            }
        } else if i == t.active || hovered {
            sk.ink_strong
        } else {
            sk.ink
        },
        logo: if i < t.logos.len() {
            t.logos[i as int]
        } else {
            None
        },
        rename: if renaming(t, i) is Some {
            Some(rename_box(t, shown, v.blink))
        } else {
            None
        },
        close_ink: if hovered {
            Some(
                if t.hover == ChromeHit::TabClose(i) {
                    sk.icon_hover
                } else {
                    sk.icon
                },
            )
        } else {
            None
        },
    }
}

/// The first `n` columns of a box, as many as there are.
fn count_columns(s: &[char], n: usize) -> (r: u128)
    requires
        n <= s@.len(),
    ensures
        r == tabs::columns_before(s@, n as nat),
{
    let mut total: u128 = 0;
    let mut i: usize = 0;
    while i < n
        invariant
            i <= n <= s@.len(),
            total == tabs::columns_before(s@, i as nat),
            total <= 255 * i,
        decreases n - i,
    {
        total += tabs::box_column_count(s[i]) as u128;
        i += 1;
    }
    total
}

/// The texts of tab row `i`, which has room for `max_cols` columns.
pub fn tab_label(t: &TabBar, v: &ChromeView, i: usize, max_cols: usize) -> (r: TabLabel)
    ensures
        r.value() == tab_text(t.value(), *v, i, max_cols),
{
    let ghost s = t.value();
    let sk = v.theme.skin();
    let closing: bool = t.hover == ChromeHit::TabClose(i);
    let hovered: bool = t.hover == ChromeHit::Tab(i) || closing;
    assert(s.labels.len() == t.labels@.len());
    let mut editing: bool = false;
    let mut name: &str = ".";
    if i < t.labels.len() {
        assert(s.labels[i as int] == t.labels@[i as int]@);
        name = t.labels[i].as_str();
    }
    if let Some((index, buf)) = &t.rename {
        if *index == i {
            editing = true;
            name = buf.as_str();
        }
    }
    let cols: usize = if max_cols == 0 {
        1
    } else {
        max_cols
    };
    let label = width::truncate_tab_label(name, cols);
    let rename: Option<RenameBox> = if editing {
        let shown = text::chars_of(label.as_str());
        let caret: usize = if t.rename_caret < shown.len() {
            t.rename_caret
        } else {
            shown.len()
        };
        Some(
            RenameBox {
                select_all: t.rename_select_all,
                text_columns: count_columns(shown.as_slice(), shown.len()),
                caret_columns: count_columns(shown.as_slice(), caret),
                caret_visible: !t.rename_select_all && v.blink,
            },
        )
    } else {
        None
    };
    let ink = if editing {
        if t.rename_select_all {
            Rgb::new(255, 255, 255)
        } else {
            Rgb::new(0, 0, 0)
        }
    } else if i == t.active || hovered {
        sk.ink_strong
    } else {
        sk.ink
    };
    let logo: Option<AiLogo> = if i < t.logos.len() {
        t.logos[i]
    } else {
        None
    };
    let close_ink: Option<Rgb> = if hovered {
        Some(
            if closing {
                sk.icon_hover
            } else {
                sk.icon
            },
        )
    } else {
        None
    };
    TabLabel { label, ink, logo, rename, close_ink }
}

/// Whether the texts of the sidebar are drawn: not while it is folded, nor under
/// the settings panel. Otherwise the title bar names the active tab.
pub fn shows_sidebar_text(v: &ChromeView) -> (r: bool)
    ensures
        r == (v.sidebar_visible && v.rows > 0 && !v.settings_open),
{
    v.sidebar_visible && v.rows > 0 && !v.settings_open
}

/// The name of the active tab, cut to a number of columns.
pub open spec fn title_text(t: TabState, max_cols: usize) -> Seq<char> {
    width::cut_right(
        if t.active < t.labels.len() {
            t.labels[t.active as int]
        } else {
            "."@
        },
        if max_cols == 0 {
            1
        } else {
            max_cols as nat
        },
    )
}

/// The name of the active tab, for the title bar.
pub fn active_title(t: &TabBar, max_cols: usize) -> (r: String)
    ensures
        r@ == title_text(t.value(), max_cols),
{
    assert(t.value().labels.len() == t.labels@.len());
    assert(t.active < t.labels@.len() ==> t.value().labels[t.active as int]
        == t.labels@[t.active as int]@);
    let name: &str = if t.active < t.labels.len() {
        t.labels[t.active].as_str()
    } else {
        "."
    };
    width::truncate_tab_label(
        name,
        if max_cols == 0 {
            1
        } else {
            max_cols
        },
    )
}

/// Where a text of the chrome stands.
#[derive(Debug, Clone, Copy, PartialEq, Eq, Structural)]
pub enum LabelSpot {
    Settings,
    NewTab,
    Control(ChromeHit),
    /// The head of the sidebar.
    Caption,
    Tab(usize),
    TabClose(usize),
    /// The middle of the top bar.
    Title,
}

/// A text or glyph of the chrome.
pub struct ChromeLabel {
    pub spot: LabelSpot,
    pub text: String,
    pub ink: Rgb,
}

/// A text or glyph of the chrome, as a value.
#[verifier::ext_equal]
pub struct ChromeText {
    pub spot: LabelSpot,
    pub text: Seq<char>,
    pub ink: Rgb,
}

impl ChromeLabel {
    pub open spec fn value(self) -> ChromeText {
        ChromeText { spot: self.spot, text: self.text@, ink: self.ink }
    }
}

pub open spec fn label_values(v: Seq<ChromeLabel>) -> Seq<ChromeText> {
    v.map_values(|l: ChromeLabel| l.value())
}

pub open spec fn icon_ink(hovered: bool, theme: NebulaTheme) -> Rgb {
    if hovered {
        theme.overlay().icon_hover
    } else {
        theme.overlay().icon
    }
}

/// The glyphs of the buttons. The settings panel veils the one for new tabs.
pub open spec fn button_texts(t: TabState, v: ChromeView) -> Seq<ChromeText> {
    let settings = ChromeText {
        spot: LabelSpot::Settings,
        text: "\u{eb51}"@,
        ink: icon_ink(v.settings_hovered, v.theme),
    };
    let new_tab = ChromeText {
        spot: LabelSpot::NewTab,
        text: "\u{ea60}"@,
        ink: icon_ink(t.hover == ChromeHit::NewTab, v.theme),
    };
    seq![settings] + if v.settings_open {
        Seq::empty()
    } else {
        seq![new_tab]
    }
}

pub open spec fn control_text(t: TabState, v: ChromeView, hit: ChromeHit) -> ChromeText {
    ChromeText {
        spot: LabelSpot::Control(hit),
        text: control_icon(hit),
        ink: control_ink(t.hover, hit, v),
    }
}

/// The glyphs of the controls of the top bar.
pub open spec fn control_texts(t: TabState, v: ChromeView) -> Seq<ChromeText> {
    seq![
        control_text(t, v, ChromeHit::PanelFiles),
        control_text(t, v, ChromeHit::PanelGit),
        control_text(t, v, ChromeHit::Minimize),
        control_text(t, v, ChromeHit::Maximize),
        control_text(t, v, ChromeHit::Close),
    ]
}

/// How many columns row `i` has; the rows behind the last have none.
pub open spec fn columns_at(columns: Seq<usize>, i: int) -> usize {
    if i < columns.len() {
        columns[i]
    } else {
        0
    }
}

/// The label of tab row `i`, and its close glyph where the pointer is on the row.
pub open spec fn row_texts(t: TabState, v: ChromeView, i: usize, max_cols: usize) -> Seq<ChromeText> {
    let row = tab_text(t, v, i, max_cols);
    seq![ChromeText { spot: LabelSpot::Tab(i), text: row.label, ink: row.ink }] + match row.close_ink {
        Some(ink) => seq![ChromeText { spot: LabelSpot::TabClose(i), text: "\u{ea76}"@, ink }],
        None => Seq::empty(),
    }
}

/// The texts of the first `n` tab rows.
pub open spec fn rows_texts(t: TabState, v: ChromeView, columns: Seq<usize>, n: nat) -> Seq<ChromeText>
    decreases n,
{
    if n == 0 {
        Seq::empty()
    } else {
        rows_texts(t, v, columns, (n - 1) as nat) + row_texts(
            t,
            v,
            (n - 1) as usize,
            columns_at(columns, n - 1),
        )
    }
}

/// The texts of the sidebar under its caption or, where it shows none, the name
/// of the active tab in the top bar.
pub open spec fn tab_texts(
    t: TabState,
    v: ChromeView,
    columns: Seq<usize>,
    title_columns: usize,
) -> Seq<ChromeText> {
    if v.sidebar_visible && v.rows > 0 && !v.settings_open {
        seq![
            ChromeText { spot: LabelSpot::Caption, text: "TABS"@, ink: v.theme.overlay().ink_dim },
        ] + rows_texts(t, v, columns, v.rows as nat)
    } else {
        seq![
            ChromeText {
                spot: LabelSpot::Title,
                text: title_text(t, title_columns),
                ink: v.theme.overlay().ink_strong,
            },
        ]
    }
}

/// All texts of the chrome, in the order in which they are drawn.
pub open spec fn chrome_texts(
    t: TabState,
    v: ChromeView,
    columns: Seq<usize>,
    title_columns: usize,
) -> Seq<ChromeText> {
    button_texts(t, v) + control_texts(t, v) + tab_texts(t, v, columns, title_columns)
}

fn push_text(out: &mut Vec<ChromeLabel>, spot: LabelSpot, text: String, ink: Rgb)
    ensures
        label_values(final(out)@) == label_values(old(out)@).push(
            ChromeText { spot, text: text@, ink },
        ),
{
    out.push(ChromeLabel { spot, text, ink });
    assert(label_values(out@) =~= label_values(old(out)@).push(ChromeText { spot, text: text@, ink }));
}

fn push_control_text(out: &mut Vec<ChromeLabel>, t: &TabBar, v: &ChromeView, hit: ChromeHit)
    ensures
        label_values(final(out)@) == label_values(old(out)@).push(control_text(t.value(), *v, hit)),
{
    let label = control_label(t.hover, hit, v);
    push_text(out, LabelSpot::Control(hit), label.icon.to_owned(), label.ink);
}

fn push_row_texts(out: &mut Vec<ChromeLabel>, t: &TabBar, v: &ChromeView, i: usize, max_cols: usize)
    ensures
        label_values(final(out)@) == label_values(old(out)@) + row_texts(
            t.value(),
            *v,
            i,
            max_cols,
        ),
{
    let ghost start = label_values(out@);
    let row = tab_label(t, v, i, max_cols);
    push_text(out, LabelSpot::Tab(i), row.label, row.ink);
    if let Some(ink) = row.close_ink {
        push_text(out, LabelSpot::TabClose(i), "\u{ea76}".to_owned(), ink);
    }
    assert(label_values(out@) =~= start + row_texts(t.value(), *v, i, max_cols));
}

/// The texts and glyphs of the chrome. `columns` tells how many columns each tab
/// row has for its label, `title_columns` how many the top bar has for a name.
pub fn draw_chrome_text(
    t: &TabBar,
    v: &ChromeView,
    columns: &Vec<usize>,
    title_columns: usize,
) -> (r: Vec<ChromeLabel>)
    ensures
        label_values(r@) == chrome_texts(t.value(), *v, columns@, title_columns),
{
    let sk = v.theme.skin();
    let mut out: Vec<ChromeLabel> = Vec::new();
    assert(label_values(out@) =~= Seq::empty());
    push_text(
        &mut out,
        LabelSpot::Settings,
        "\u{eb51}".to_owned(),
        if v.settings_hovered {
            sk.icon_hover
        } else {
            sk.icon
        },
    );
    if !v.settings_open {
        push_text(
            &mut out,
            LabelSpot::NewTab,
            "\u{ea60}".to_owned(),
            if t.hover == ChromeHit::NewTab {
                sk.icon_hover
            } else {
                sk.icon
            },
        );
    }
    assert(label_values(out@) =~= button_texts(t.value(), *v));
    push_control_text(&mut out, t, v, ChromeHit::PanelFiles);
    push_control_text(&mut out, t, v, ChromeHit::PanelGit);
    push_control_text(&mut out, t, v, ChromeHit::Minimize);
    push_control_text(&mut out, t, v, ChromeHit::Maximize);
    push_control_text(&mut out, t, v, ChromeHit::Close);
    let ghost front = button_texts(t.value(), *v) + control_texts(t.value(), *v);
    assert(label_values(out@) =~= front);
    if shows_sidebar_text(v) {
        push_text(&mut out, LabelSpot::Caption, "TABS".to_owned(), sk.ink_dim);
        let ghost head = label_values(out@);
        let mut i: usize = 0;
        assert(head + Seq::<ChromeText>::empty() =~= head);
        while i < v.rows
            invariant
                i <= v.rows,
                label_values(out@) == head + rows_texts(t.value(), *v, columns@, i as nat),
            decreases v.rows - i,
        {
            let max_cols: usize = if i < columns.len() {
                columns[i]
            } else {
                0
            };
            push_row_texts(&mut out, t, v, i, max_cols);
            i += 1;
            assert(label_values(out@) =~= head + rows_texts(t.value(), *v, columns@, i as nat));
        }
        assert(label_values(out@) =~= front + tab_texts(t.value(), *v, columns@, title_columns));
    } else {
        let title = active_title(t, title_columns);
        push_text(&mut out, LabelSpot::Title, title, sk.ink_strong);
        assert(label_values(out@) =~= front + tab_texts(t.value(), *v, columns@, title_columns));
    }
    out
}

/// Whether the texts of the drawer are drawn: not under the settings panel, whose
/// glass they would pierce.
pub fn shows_panel_text(v: &ChromeView, panel_visible: bool) -> (r: bool)
    ensures
        r == (panel_visible && !v.settings_open),
{
    panel_visible && !v.settings_open
}

/// Under the settings panel only the buttons of the top bar and the name of the
/// active tab are written.
pub proof fn law_settings_veil_the_texts(
    t: TabState,
    v: ChromeView,
    columns: Seq<usize>,
    title_columns: usize,
)
    requires
        v.settings_open,
    ensures
        chrome_texts(t, v, columns, title_columns).len() == 7,
        chrome_texts(t, v, columns, title_columns).last().spot == LabelSpot::Title,
{
}

/// Every pixel of the title bar that is not on a control drags the window.
pub proof fn law_title_bar_drags(spot: ChromeSpot)
    requires
        spot.in_bar,
        !spot.on_toggle,
        !spot.on_plus,
        spot.close is None,
        spot.tab is None,
        spot.control is None,
    ensures
        hit_at(spot) == ChromeHit::TitleBar,
{
}

/// A pixel on a border always resizes, and one on two borders resizes both.
pub proof fn law_corners_resize_both_ways(top: bool, bottom: bool, left: bool, right: bool)
    ensures
        edge_of(top, bottom, left, right) is Some <==> (top || bottom || left || right),
        (top || bottom) && (left || right) ==> {
            let d = edge_of(top, bottom, left, right)->0;
            d == ResizeDirection::NorthWest || d == ResizeDirection::NorthEast || d
                == ResizeDirection::SouthWest || d == ResizeDirection::SouthEast
        },
{
}

/// The spinner comes round once in 800 ms, and its dots never coincide.
pub proof fn law_spinner_comes_round(millis: u32)
    requires
        millis + 800 <= u32::MAX,
    ensures
        spinner_step((millis + 800) as u32, 0) == spinner_step(millis, 0),
        spinner_step(millis, 0) != spinner_step(millis, 1),
        spinner_step(millis, 1) != spinner_step(millis, 2),
        spinner_step(millis, 0) != spinner_step(millis, 2),
        spinner_step(millis, 0) < 8,
{
}

/// A rename box shows its selection or its caret, and never both: the selection
/// exactly while the whole name is selected, the caret only in its bright phase.
pub proof fn law_selection_hides_the_caret(
    t: TabState,
    shown: Seq<char>,
    blink: bool,
    p: NebulaPalette,
)
    ensures
        ({
            let fills = fills_of(rename_box(t, shown, blink), p);
            &&& fills.len() == if t.rename_select_all || blink {
                4nat
            } else {
                3nat
            }
            &&& fills[3].part is Selection && fills.len() == 4 <==> t.rename_select_all
            &&& fills[3].part is Caret && fills.len() == 4 ==> blink
        }),
{
}

} // verus!
