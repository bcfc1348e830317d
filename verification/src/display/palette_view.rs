//! What is shown of the command palette: its fills from back to front, and its
//! texts. Where they go in pixels is the renderer's business.

use crate::display::color::{Rgb, Rgba};
use crate::display::command_palette;
use crate::display::command_palette::{CommandPalette, PaletteState};
use crate::display::theme;
use crate::display::theme::NebulaTheme;
use vstd::prelude::*;

verus! {

/// How many rows are drawn before the list scrolls.
pub const MAX_ROWS: usize = 8;

/// A surface of the palette.
#[derive(Debug, Clone, Copy, PartialEq, Eq, Structural)]
pub enum Surface {
    /// Dims the whole window.
    Veil,
    Glow,
    Edge,
    Panel,
    Input,
    /// The pill behind the selected row.
    Row(usize),
}

/// A surface and its colors: it shades from the first to the second.
#[derive(Debug, Clone, Copy, PartialEq, Eq, Structural)]
pub struct Fill {
    pub surface: Surface,
    pub color: Rgba,
    pub color_to: Rgba,
}

pub open spec fn fill(surface: Surface, color: Rgba, color_to: Rgba) -> Fill {
    Fill { surface, color, color_to }
}

/// The visible row that is selected, where any is shown.
pub open spec fn selected_row(p: PaletteState) -> Option<usize> {
    if p.filtered.len() == 0 {
        None
    } else {
        Some((p.selected - p.window_start(MAX_ROWS)) as usize)
    }
}

/// The fills of an open palette, from back to front.
pub open spec fn fills(p: PaletteState, t: NebulaTheme) -> Seq<Fill> {
    let c = t.chrome();
    let sk = t.overlay();
    if !p.open {
        Seq::empty()
    } else {
        seq![
            fill(Surface::Veil, theme::rgba(0, 0, 0, 150), theme::rgba(0, 0, 0, 150)),
            fill(Surface::Glow, c.edge_glow_l, c.edge_glow_l),
            fill(Surface::Edge, c.tab_stroke_l, c.edge_r),
            fill(Surface::Panel, c.panel, sk.panel_grad_to),
            fill(Surface::Input, sk.input, sk.input),
        ] + match selected_row(p) {
            Some(row) => seq![fill(Surface::Row(row), c.tab_bg_l, c.tab_bg_r)],
            None => Seq::empty(),
        }
    }
}

/// The fills of the palette, from back to front; none while it is closed.
pub fn push_quads(model: &CommandPalette, t: NebulaTheme) -> (r: Vec<Fill>)
    requires
        model.state().rows_exist(),
    ensures
        r@ == fills(model.state(), t),
{
    let mut out: Vec<Fill> = Vec::new();
    if !model.is_open() {
        return out;
    }
    let c = t.palette();
    let sk = t.skin();
    let veil = Rgba::new(0, 0, 0, 150);
    out.push(Fill { surface: Surface::Veil, color: veil, color_to: veil });
    out.push(
        Fill { surface: Surface::Glow, color: c.edge_glow_l, color_to: c.edge_glow_l },
    );
    out.push(Fill { surface: Surface::Edge, color: c.tab_stroke_l, color_to: c.edge_r });
    out.push(Fill { surface: Surface::Panel, color: c.panel, color_to: sk.panel_grad_to });
    out.push(Fill { surface: Surface::Input, color: sk.input, color_to: sk.input });
    let (_, selected) = model.visible(MAX_ROWS);
    if let Some(row) = selected {
        out.push(Fill { surface: Surface::Row(row), color: c.tab_bg_l, color_to: c.tab_bg_r });
    }
    assert(out@ =~= fills(model.state(), t));
    out
}

/// A place for a text.
#[derive(Debug, Clone, Copy, PartialEq, Eq, Structural)]
pub enum Place {
    Query,
    /// The first line of the list, where nothing is listed.
    Notice,
    Row(usize),
    /// At the right end of a row.
    Hint(usize),
}

/// A text of the palette.
pub struct Label {
    pub place: Place,
    pub ink: Rgb,
    pub text: String,
}

/// A text of the palette, as a value.
pub struct Text {
    pub place: Place,
    pub ink: Rgb,
    pub text: Seq<char>,
}

impl Label {
    pub open spec fn value(self) -> Text {
        Text { place: self.place, ink: self.ink, text: self.text@ }
    }
}

pub open spec fn text(place: Place, ink: Rgb, text: Seq<char>) -> Text {
    Text { place, ink, text }
}

pub open spec fn labels_value(v: Seq<Label>) -> Seq<Text> {
    v.map_values(|l: Label| l.value())
}

/// The query with its caret, or what tells how to use the palette.
pub open spec fn query_text(p: PaletteState, t: NebulaTheme) -> Text {
    if p.query.len() == 0 {
        text(
            Place::Query,
            t.overlay().ink_faint,
            "输入命令进行搜索…    Esc 关闭 · ↑↓ 选择 · Enter 执行"@,
        )
    } else {
        text(Place::Query, t.overlay().ink_strong, p.query + "▏"@)
    }
}

/// The texts of rows: each with its hint, where it has one.
pub open spec fn row_texts(
    rows: Seq<(Seq<char>, Seq<char>)>,
    selected: Option<usize>,
    t: NebulaTheme,
) -> Seq<Text>
    decreases rows.len(),
{
    if rows.len() == 0 {
        Seq::empty()
    } else {
        let i = (rows.len() - 1) as usize;
        let (name, hint) = rows.last();
        let ink = if selected == Some(i) {
            t.overlay().ink_strong
        } else {
            t.overlay().ink
        };
        let before = row_texts(rows.drop_last(), selected, t).push(text(Place::Row(i), ink, name));
        if hint.len() == 0 {
            before
        } else {
            before.push(text(Place::Hint(i), t.overlay().ink_dim, hint))
        }
    }
}

/// The rows that are shown.
pub open spec fn shown_rows(p: PaletteState) -> Seq<(Seq<char>, Seq<char>)> {
    p.window(MAX_ROWS).map_values(|i: usize| p.row_text(i))
}

/// The texts of an open palette.
pub open spec fn texts(p: PaletteState, t: NebulaTheme) -> Seq<Text> {
    if !p.open {
        Seq::empty()
    } else if p.filtered.len() == 0 {
        seq![query_text(p, t), text(Place::Notice, t.overlay().ink_dim, "无匹配命令"@)]
    } else {
        seq![query_text(p, t)] + row_texts(shown_rows(p), selected_row(p), t)
    }
}

fn push_label(out: &mut Vec<Label>, place: Place, ink: Rgb, name: String)
    ensures
        labels_value(final(out)@) == labels_value(old(out)@).push(text(place, ink, name@)),
{
    let ghost before = out@;
    out.push(Label { place, ink, text: name });
    assert(labels_value(out@) =~= labels_value(before).push(text(place, ink, name@)));
}

/// The texts of the palette; none while it is closed.
pub fn draw_text(model: &CommandPalette, t: NebulaTheme) -> (r: Vec<Label>)
    requires
        model.state().rows_exist(),
    ensures
        labels_value(r@) == texts(model.state(), t),
{
    let ghost p = model.state();
    let mut out: Vec<Label> = Vec::new();
    assert(labels_value(out@) =~= Seq::empty());
    if !model.is_open() {
        return out;
    }
    let sk = t.skin();
    if model.query().is_empty() {
        push_label(
            &mut out,
            Place::Query,
            sk.ink_faint,
            "输入命令进行搜索…    Esc 关闭 · ↑↓ 选择 · Enter 执行".to_owned(),
        );
    } else {
        let mut shown = model.query().to_owned();
        shown.append("▏");
        push_label(&mut out, Place::Query, sk.ink_strong, shown);
    }
    assert(labels_value(out@) =~= seq![query_text(p, t)]);
    if model.is_empty() {
        push_label(&mut out, Place::Notice, sk.ink_dim, "无匹配命令".to_owned());
        assert(labels_value(out@) =~= texts(p, t));
        return out;
    }
    let (rows, selected) = model.visible(MAX_ROWS);
    let ghost all = shown_rows(p);
    assert(all.take(0) =~= Seq::empty());
    assert(labels_value(out@) =~= seq![query_text(p, t)] + row_texts(all.take(0), selected, t));
    let mut i: usize = 0;
    while i < rows.len()
        invariant
            i <= rows@.len(),
            p == model.state(),
            all == rows@.map_values(|p: (String, String)| command_palette::pair_value(p)),
            sk == t.overlay(),
            labels_value(out@) == seq![query_text(p, t)] + row_texts(
                all.take(i as int),
                selected,
                t,
            ),
        decreases rows@.len() - i,
    {
        let ghost before = labels_value(out@);
        let ghost done = row_texts(all.take(i as int), selected, t);
        assert(all.take(i + 1).drop_last() =~= all.take(i as int));
        assert(all.take(i + 1).last() == command_palette::pair_value(rows@[i as int]));
        let ink = match selected {
            Some(s) => if s == i {
                sk.ink_strong
            } else {
                sk.ink
            },
            None => sk.ink,
        };
        push_label(&mut out, Place::Row(i), ink, rows[i].0.clone());
        if !rows[i].1.as_str().is_empty() {
            push_label(&mut out, Place::Hint(i), sk.ink_dim, rows[i].1.clone());
        }
        assert(labels_value(out@) =~= seq![query_text(p, t)] + row_texts(
            all.take(i + 1),
            selected,
            t,
        ));
        i += 1;
    }
    assert(all.take(i as int) =~= all);
    out
}

/// A closed palette shows nothing, and an open one always shows its query.
pub proof fn law_only_open_palettes_are_drawn(p: PaletteState, t: NebulaTheme)
    ensures
        fills(p, t).len() > 0 <==> p.open,
        texts(p, t).len() > 0 <==> p.open,
        p.open ==> texts(p, t)[0] == query_text(p, t),
{
}

} // verus!
