//! Confirmation of destructive actions: a centered modal that owns the keyboard.

use vstd::prelude::*;

use crate::display::color::{Rgb, Rgba};
use crate::display::side_panel::view;
use crate::display::theme;
use crate::display::theme::NebulaTheme;
use crate::text;

verus! {

/// A destructive action awaiting user confirmation.
#[derive(Debug)]
pub enum NebulaConfirm {
    /// Close one pane whose shell still has a busy child process.
    ClosePane { pane_id: u64, process: String },
    /// Close a whole tab (by displayed index) with a busy process inside.
    CloseTab { index: usize, process: String },
    /// Close the window while some pane still runs `process`.
    CloseWindow { process: String },
    /// Paste text that contains newlines (would execute in most shells).
    Paste { text: String, bracketed: bool, lines: usize },
}

/// The texts of the modal.
pub struct ConfirmText {
    pub title: String,
    pub body: String,
    pub primary_label: &'static str,
    pub cancel_label: &'static str,
    /// Whether the action destroys something.
    pub danger: bool,
}

pub open spec fn title_of(c: NebulaConfirm) -> Seq<char> {
    match c {
        NebulaConfirm::ClosePane { .. } => "关闭此分栏？"@,
        NebulaConfirm::CloseTab { .. } => "关闭此标签页？"@,
        NebulaConfirm::CloseWindow { .. } => "关闭整个窗口？"@,
        NebulaConfirm::Paste { lines, .. } => "粘贴 "@ + text::digits_of(lines as nat)
            + " 行文本？"@,
    }
}

pub open spec fn body_of(c: NebulaConfirm) -> Seq<char> {
    match c {
        NebulaConfirm::ClosePane { process, .. } => process@ + " 仍在运行，关闭会中止它。"@,
        NebulaConfirm::CloseTab { process, .. } => process@ + " 仍在运行，关闭会中止它。"@,
        NebulaConfirm::CloseWindow { process } => process@ + " 仍在运行，关闭会中止它。"@,
        NebulaConfirm::Paste { .. } => "多行粘贴会被 shell 逐行执行，请确认来源可信。"@,
    }
}

fn busy_text(process: &str) -> (r: String)
    ensures
        r@ == process@ + " 仍在运行，关闭会中止它。"@,
{
    let mut r = process.to_owned();
    r.append(" 仍在运行，关闭会中止它。");
    r
}

/// The texts of the modal.
pub fn confirm_text(c: &NebulaConfirm) -> (r: ConfirmText)
    ensures
        r.title@ == title_of(*c),
        r.body@ == body_of(*c),
        r.danger == !(c is Paste),
        r.primary_label@ == if c is Paste {
            "粘贴 Enter"@
        } else {
            "关闭 Enter"@
        },
        r.cancel_label@ == "取消 Esc"@,
{
    match c {
        NebulaConfirm::ClosePane { process, .. } => ConfirmText {
            title: "关闭此分栏？".to_owned(),
            body: busy_text(process.as_str()),
            primary_label: "关闭 Enter",
            cancel_label: "取消 Esc",
            danger: true,
        },
        NebulaConfirm::CloseTab { process, .. } => ConfirmText {
            title: "关闭此标签页？".to_owned(),
            body: busy_text(process.as_str()),
            primary_label: "关闭 Enter",
            cancel_label: "取消 Esc",
            danger: true,
        },
        NebulaConfirm::CloseWindow { process } => ConfirmText {
            title: "关闭整个窗口？".to_owned(),
            body: busy_text(process.as_str()),
            primary_label: "关闭 Enter",
            cancel_label: "取消 Esc",
            danger: true,
        },
        NebulaConfirm::Paste { lines, .. } => {
            let mut title = "粘贴 ".to_owned();
            title.append(text::number_text(*lines as u64).as_str());
            title.append(" 行文本？");
            ConfirmText {
                title,
                body: "多行粘贴会被 shell 逐行执行，请确认来源可信。".to_owned(),
                primary_label: "粘贴 Enter",
                cancel_label: "取消 Esc",
                danger: false,
            }
        },
    }
}

/// A surface of the modal.
#[derive(Debug, Clone, Copy, PartialEq, Eq, Structural)]
pub enum Surface {
    /// Dims the whole window.
    Veil,
    Edge,
    Card,
    CancelEdge,
    Cancel,
    Primary,
}

/// A surface and its color.
#[derive(Debug, Clone, Copy, PartialEq, Eq, Structural)]
pub struct Fill {
    pub surface: Surface,
    pub color: Rgba,
}

pub open spec fn fill(surface: Surface, color: Rgba) -> Fill {
    Fill { surface, color }
}

/// The fills of the modal, from back to front. The primary button is the single
/// loud element: red where something is destroyed, in the accent otherwise.
pub open spec fn fills(danger: bool, theme: NebulaTheme) -> Seq<Fill> {
    let sk = theme.overlay();
    seq![
        fill(Surface::Veil, Rgba { r: 0, g: 0, b: 0, a: 118 }),
        fill(Surface::Edge, sk.hairline),
        fill(Surface::Card, sk.panel),
        fill(Surface::CancelEdge, sk.hairline),
        fill(Surface::Cancel, sk.panel),
        fill(Surface::Cancel, sk.surface),
        fill(
            Surface::Primary,
            if danger {
                sk.danger
            } else {
                view::tint(sk.accent, 255)
            },
        ),
    ]
}

/// The inks of the modal.
#[derive(Debug, Clone, Copy, PartialEq, Eq, Structural)]
pub struct ConfirmInks {
    pub title: Rgb,
    pub body: Rgb,
    pub cancel: Rgb,
    pub primary: Rgb,
}

/// The modal as it is drawn.
pub struct ConfirmModal {
    pub text: ConfirmText,
    pub fills: Vec<Fill>,
    pub inks: ConfirmInks,
}

/// The modal for a pending confirmation.
pub fn draw_confirm_modal(c: &NebulaConfirm, theme: NebulaTheme) -> (r: ConfirmModal)
    ensures
        r.text.title@ == title_of(*c),
        r.text.body@ == body_of(*c),
        r.text.danger == !(c is Paste),
        r.text.primary_label@ == if c is Paste {
            "粘贴 Enter"@
        } else {
            "关闭 Enter"@
        },
        r.text.cancel_label@ == "取消 Esc"@,
        r.fills@ == fills(!(c is Paste), theme),
        r.inks.title == theme.overlay().ink,
        r.inks.body == theme.overlay().ink_dim,
        r.inks.cancel == theme.overlay().ink,
        r.inks.primary == if c is Paste {
            theme.overlay().ink_on_accent
        } else {
            theme::rgb(255, 244, 246)
        },
{
    let sk = theme.skin();
    let text = confirm_text(c);
    let primary = if text.danger {
        sk.danger
    } else {
        Rgba::new(sk.accent.r, sk.accent.g, sk.accent.b, 255)
    };
    let mut out: Vec<Fill> = Vec::new();
    out.push(Fill { surface: Surface::Veil, color: Rgba::new(0, 0, 0, 118) });
    out.push(Fill { surface: Surface::Edge, color: sk.hairline });
    out.push(Fill { surface: Surface::Card, color: sk.panel });
    out.push(Fill { surface: Surface::CancelEdge, color: sk.hairline });
    out.push(Fill { surface: Surface::Cancel, color: sk.panel });
    out.push(Fill { surface: Surface::Cancel, color: sk.surface });
    out.push(Fill { surface: Surface::Primary, color: primary });
    assert(out@ =~= fills(text.danger, theme));
    let inks = ConfirmInks {
        title: sk.ink,
        body: sk.ink_dim,
        cancel: sk.ink,
        primary: if text.danger {
            Rgb::new(255, 244, 246)
        } else {
            sk.ink_on_accent
        },
    };
    ConfirmModal { text, fills: out, inks }
}

} // verus!
