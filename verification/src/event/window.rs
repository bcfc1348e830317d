//! What window events change: focus, occlusion, the blinking cursor, and the text
//! that an input method commits.

use crate::display::overlay::{Ime, Preedit};
use crate::display::pane;
use crate::display::pane::NebulaPaneState;
use crate::display::side_panel::panel;
use crate::display::side_panel::panel::{PanelState, SidePanel};
use crate::display::tabs;
use crate::display::tabs::{TabBar, TabState};
use crate::event::paste;
use crate::event::paste::{InputFocus, Paste, TextTarget};
use crate::text;
use vstd::prelude::*;

verus! {

/// Sizes below this many pixels are not taken: a minimized window reports them.
pub const MIN_WINDOW_PIXELS: u32 = 100;

/// Events of a window, as far as it matters whether they are handled.
#[derive(Debug, Clone, Copy, PartialEq, Eq, Structural)]
pub enum WindowEventKind {
    RedrawRequested,
    KeyboardInput { is_synthetic: bool },
    ActivationTokenDone,
    DoubleTapGesture,
    TouchpadPressure,
    RotationGesture,
    CursorEntered,
    PinchGesture,
    AxisMotion,
    PanGesture,
    HoveredFileCancelled,
    Destroyed,
    ThemeChanged,
    HoveredFile,
    Moved,
    /// Any other event.
    Other,
}

/// Whether nothing depends on an event.
pub open spec fn is_irrelevant(event: WindowEventKind) -> bool {
    match event {
        WindowEventKind::KeyboardInput { is_synthetic } => is_synthetic,
        WindowEventKind::RedrawRequested | WindowEventKind::Other => false,
        _ => true,
    }
}

/// What to do about an event of a window.
#[derive(Debug, Clone, Copy, PartialEq, Eq, Structural)]
pub enum WindowEventStep {
    Ignore,
    Handle,
    HandleAndDraw,
}

pub open spec fn window_event_step(event: WindowEventKind, is_known: bool) -> WindowEventStep {
    if is_irrelevant(event) || !is_known {
        WindowEventStep::Ignore
    } else if event == WindowEventKind::RedrawRequested {
        WindowEventStep::HandleAndDraw
    } else {
        WindowEventStep::Handle
    }
}

/// Checks if an event is irrelevant and can be skipped.
pub fn skip_window_event(event: &WindowEventKind) -> (r: bool)
    ensures
        r == is_irrelevant(*event),
{
    match event {
        WindowEventKind::KeyboardInput { is_synthetic } => *is_synthetic,
        WindowEventKind::ActivationTokenDone
        | WindowEventKind::DoubleTapGesture
        | WindowEventKind::TouchpadPressure
        | WindowEventKind::RotationGesture
        | WindowEventKind::CursorEntered
        | WindowEventKind::PinchGesture
        | WindowEventKind::AxisMotion
        | WindowEventKind::PanGesture
        | WindowEventKind::HoveredFileCancelled
        | WindowEventKind::Destroyed
        | WindowEventKind::ThemeChanged
        | WindowEventKind::HoveredFile
        | WindowEventKind::Moved => true,
        WindowEventKind::RedrawRequested | WindowEventKind::Other => false,
    }
}

/// Decides about an event of a window; `is_known` tells whether the window is one
/// of ours.
pub fn window_event(event: &WindowEventKind, is_known: bool) -> (r: WindowEventStep)
    ensures
        r == window_event_step(*event, is_known),
{
    if skip_window_event(event) || !is_known {
        return WindowEventStep::Ignore;
    }
    match event {
        WindowEventKind::RedrawRequested => WindowEventStep::HandleAndDraw,
        _ => WindowEventStep::Handle,
    }
}

/// A window of ours is drawn at each request, and at no other event.
pub proof fn law_redraws_are_drawn(event: WindowEventKind)
    ensures
        window_event_step(event, true) == WindowEventStep::HandleAndDraw <==> event
            == WindowEventKind::RedrawRequested,
{
}

/// Flags of a window.
#[derive(Debug, Clone, Copy, PartialEq, Eq, Structural)]
pub struct WindowFlags {
    /// Whether something has to be drawn.
    pub dirty: bool,
    /// Whether the window is covered.
    pub occluded: bool,
    /// Whether a frame may be drawn now.
    pub has_frame: bool,
    pub is_focused: bool,
    /// Whether the window stays when its shell exits.
    pub hold: bool,
    /// Whether the cursor is in the dark half of its blinking.
    pub cursor_hidden: bool,
    /// Whether the cursor stopped to blink because nothing happened.
    pub blink_timed_out: bool,
    pub mouse_visible: bool,
    /// Whether the hint under the mouse has to be looked up again.
    pub hint_highlight_dirty: bool,
}

/// What decides whether the cursor blinks.
#[derive(Debug, Clone, Copy, PartialEq, Eq, Structural)]
pub struct BlinkSources {
    /// What the configured cursor style demands, if anything.
    pub style: Option<bool>,
    /// Whether vi mode has a style of its own, and what that demands.
    pub has_vi_style: bool,
    pub vi_style: Option<bool>,
    pub vi_mode: bool,
    /// What the terminal's cursor does.
    pub terminal: bool,
    /// Whether the terminal shows its cursor.
    pub shows_cursor: bool,
    /// Whether an input method composes a text.
    pub composing: bool,
    /// After how many milliseconds the cursor stops to blink; never if zero.
    pub timeout: u64,
}

/// Whether the cursor blinks: as its style demands, or else as the terminal does,
/// but never while it is not shown or a text is composed.
pub open spec fn blinks(b: BlinkSources) -> bool {
    let demand = if b.vi_mode && b.has_vi_style {
        b.vi_style
    } else {
        b.style
    };
    &&& match demand {
        Some(on) => on,
        None => b.terminal,
    }
    &&& b.vi_mode || b.shows_cursor
    &&& !b.composing
}

/// What the timers of the cursor have to do. Both are stopped before.
#[derive(Debug, Clone, Copy, PartialEq, Eq, Structural)]
pub enum BlinkStep {
    Stop,
    /// Blink, and stop after a while, if at all.
    Start { timeout: Option<u64> },
}

pub open spec fn blink_step(w: WindowFlags, b: BlinkSources) -> BlinkStep {
    if blinks(b) && w.is_focused {
        BlinkStep::Start {
            timeout: if b.timeout == 0 {
                None
            } else {
                Some(b.timeout)
            },
        }
    } else {
        BlinkStep::Stop
    }
}

pub open spec fn blinking_updated(w: WindowFlags, b: BlinkSources) -> WindowFlags {
    if blinks(b) && w.is_focused {
        WindowFlags { blink_timed_out: false, ..w }
    } else {
        WindowFlags { blink_timed_out: false, cursor_hidden: false, dirty: true, ..w }
    }
}

/// What typing asks of the timers of the cursor.
#[derive(Debug, Clone, Copy, PartialEq, Eq, Structural)]
pub enum TypingStep {
    /// Start the blinking anew.
    Restart,
    /// Stop both timers, and start them as told.
    Update(BlinkStep),
    Keep,
}

pub open spec fn typing_step(w: WindowFlags, b: BlinkSources, blinking: bool) -> TypingStep {
    if blinking {
        TypingStep::Restart
    } else if w.blink_timed_out {
        TypingStep::Update(blink_step(w, b))
    } else {
        TypingStep::Keep
    }
}

/// The flags with the mouse hidden, where that is wanted.
pub open spec fn mouse_hidden(w: WindowFlags, hide: bool) -> WindowFlags {
    if hide && w.mouse_visible {
        WindowFlags { mouse_visible: false, hint_highlight_dirty: true, ..w }
    } else {
        w
    }
}

pub open spec fn typing_started(w: WindowFlags, b: BlinkSources, blinking: bool, hide: bool) ->
    WindowFlags {
    mouse_hidden(
        if blinking {
            WindowFlags { cursor_hidden: false, dirty: w.dirty || w.cursor_hidden, ..w }
        } else if w.blink_timed_out {
            blinking_updated(w, b)
        } else {
            w
        },
        hide,
    )
}

impl WindowFlags {
    /// The cursor's blink timer went off. It may go off together with the
    /// timeout, which then counts.
    pub fn blink_cursor(&mut self)
        ensures
            *final(self) == (if old(self).blink_timed_out {
                *old(self)
            } else {
                WindowFlags { cursor_hidden: !old(self).cursor_hidden, dirty: true, ..*old(self) }
            }),
    {
        if !self.blink_timed_out {
            self.cursor_hidden = !self.cursor_hidden;
            self.dirty = true;
        }
    }

    /// The cursor blinked long enough. The blink timer has to be stopped.
    pub fn blink_cursor_timeout(&mut self)
        ensures
            *final(self) == (WindowFlags {
                blink_timed_out: true,
                cursor_hidden: false,
                dirty: true,
                ..*old(self)
            }),
    {
        self.blink_timed_out = true;
        self.cursor_hidden = false;
        self.dirty = true;
    }

    /// Updates the cursor blinking state.
    pub fn update_cursor_blinking(&mut self, b: &BlinkSources) -> (r: BlinkStep)
        ensures
            r == blink_step(*old(self), *b),
            *final(self) == blinking_updated(*old(self), *b),
    {
        let demand: Option<bool> = if b.vi_mode && b.has_vi_style {
            b.vi_style
        } else {
            b.style
        };
        let on: bool = match demand {
            Some(on) => on,
            None => b.terminal,
        };
        let blinking: bool = on && (b.vi_mode || b.shows_cursor) && !b.composing;
        self.blink_timed_out = false;
        if blinking && self.is_focused {
            let timeout: Option<u64> = if b.timeout == 0 {
                None
            } else {
                Some(b.timeout)
            };
            BlinkStep::Start { timeout }
        } else {
            self.cursor_hidden = false;
            self.dirty = true;
            BlinkStep::Stop
        }
    }

    /// The user started to type: the cursor is shown, and the mouse hides.
    /// `blinking` tells whether the blink timer ran.
    pub fn on_typing_start(&mut self, b: &BlinkSources, blinking: bool, hide: bool) -> (r:
        TypingStep)
        ensures
            r == typing_step(*old(self), *b, blinking),
            *final(self) == typing_started(*old(self), *b, blinking, hide),
    {
        let r = if blinking {
            if self.cursor_hidden {
                self.cursor_hidden = false;
                self.dirty = true;
            }
            TypingStep::Restart
        } else if self.blink_timed_out {
            TypingStep::Update(self.update_cursor_blinking(b))
        } else {
            TypingStep::Keep
        };
        if hide && self.mouse_visible {
            self.mouse_visible = false;
            self.hint_highlight_dirty = true;
        }
        r
    }

    /// The user asked to close the window, so there is no need to hold it.
    pub fn close_requested(&mut self)
        ensures
            *final(self) == (WindowFlags { hold: false, ..*old(self) }),
    {
        self.hold = false;
    }

    /// The window was covered or shown. It is drawn anew when it is shown.
    pub fn occlusion_changed(&mut self, occluded: bool)
        ensures
            *final(self) == (WindowFlags {
                occluded,
                dirty: old(self).dirty || !occluded,
                ..*old(self)
            }),
    {
        self.occluded = occluded;
        if !occluded {
            self.dirty = true;
        }
    }

    /// The focus changed. A window that gets it is drawn at once; one that loses
    /// it ends all text editing in its chrome. The cursor's blinking and the
    /// input method follow.
    pub fn focus_changed(
        &mut self,
        is_focused: bool,
        bar: &mut TabBar,
        side: &mut SidePanel,
        b: &BlinkSources,
    ) -> (r: BlinkStep)
        requires
            old(side).wf(),
        ensures
            r == blink_step(focus_flags(*old(self), is_focused), *b),
            *final(self) == blinking_updated(focus_flags(*old(self), is_focused), *b),
            final(bar).value() == (if is_focused {
                old(bar).value()
            } else {
                unrenamed(old(bar).value())
            }),
            final(side).value() == (if is_focused {
                old(side).value()
            } else {
                PanelState { search_focus: false, commit_focus: false, ..old(side).value() }
            }),
            final(side).wf(),
    {
        self.is_focused = is_focused;
        self.dirty = true;
        if is_focused {
            self.occluded = false;
            self.has_frame = true;
        } else {
            if bar.rename.is_some() {
                bar.rename = None;
                bar.rename_select_all = false;
            }
            side.unfocus();
        }
        self.update_cursor_blinking(b)
    }
}

/// The flags right after the focus changed.
pub open spec fn focus_flags(w: WindowFlags, is_focused: bool) -> WindowFlags {
    if is_focused {
        WindowFlags { is_focused, dirty: true, occluded: false, has_frame: true, ..w }
    } else {
        WindowFlags { is_focused, dirty: true, ..w }
    }
}

/// The sidebar with no rename going on.
pub open spec fn unrenamed(t: TabState) -> TabState {
    if t.rename is Some {
        TabState { rename: None, rename_select_all: false, ..t }
    } else {
        t
    }
}

/// Whether a size is taken.
pub fn takes_size(width: u32, height: u32) -> (r: bool)
    ensures
        r == (width >= MIN_WINDOW_PIXELS && height >= MIN_WINDOW_PIXELS),
{
    width >= MIN_WINDOW_PIXELS && height >= MIN_WINDOW_PIXELS
}

/// What takes a committed text.
pub open spec fn target_of(t: TabState, p: PanelState, s: Seq<char>) -> TextTarget {
    if t.rename is Some {
        TextTarget::TabRename
    } else if p.search_focus {
        TextTarget::PanelSearch
    } else if p.commit_focus {
        TextTarget::CommitMessage
    } else {
        TextTarget::Shell { bracketed: s.len() > 1 }
    }
}

/// Takes a text that an input method committed. Printable characters come this
/// way, so an open box has to take them, or they would land in the shell behind
/// it. Returns what has to be pasted, if the shell takes the text.
pub fn ime_commit(
    text: &str,
    bar: &mut TabBar,
    side: &mut SidePanel,
    pane: &mut NebulaPaneState,
    bracketed_mode: bool,
    focus: InputFocus,
) -> (r: Option<Paste>)
    requires
        old(side).wf(),
    ensures
        ({
            let target = target_of(old(bar).value(), old(side).value(), text@);
            &&& final(bar).value() == (if target == TextTarget::TabRename {
                tabs::inserted(old(bar).value(), text@)
            } else {
                old(bar).value()
            })
            &&& final(side).value() == (match target {
                TextTarget::PanelSearch => panel::searching(
                    old(side).value(),
                    old(side).search@ + panel::printable(text@),
                ),
                TextTarget::CommitMessage => PanelState {
                    commit_msg: old(side).commit_msg@ + panel::printable(text@),
                    ..old(side).value()
                },
                _ => old(side).value(),
            })
            &&& match target {
                TextTarget::Shell { bracketed } => r matches Some(p) && is_answered(
                    p,
                    focus,
                    text@,
                    bracketed,
                    bracketed_mode,
                    old(pane).value(),
                    final(pane).value(),
                ),
                _ => r is None && final(pane).value() == old(pane).value(),
            }
        }),
        final(side).wf(),
{
    match paste::ime_target(bar.rename.is_some(), side.search_focus, side.commit_focus, text) {
        TextTarget::TabRename => {
            bar.tab_rename_insert(text);
            None
        },
        TextTarget::PanelSearch => {
            side.search_input(text);
            None
        },
        TextTarget::CommitMessage => {
            side.commit_input(text);
            None
        },
        TextTarget::Shell { bracketed } => Some(
            pane.paste(text, bracketed, bracketed_mode, focus),
        ),
    }
}

/// Whether a paste was answered as it has to be.
pub open spec fn is_answered(
    r: Paste,
    focus: InputFocus,
    s: Seq<char>,
    bracketed: bool,
    bracketed_mode: bool,
    before: pane::PaneState,
    after: pane::PaneState,
) -> bool {
    if paste::needs_confirmation(focus, s) {
        &&& after == before
        &&& paste::asks(r, s, bracketed)
    } else {
        paste::is_pasted(r, focus, s, bracketed, bracketed_mode, before, after)
    }
}

/// Whether two composed texts are the same, cursor included.
pub open spec fn same_preedit(a: Option<Preedit>, b: Option<Preedit>) -> bool {
    match (a, b) {
        (Some(x), Some(y)) => x.text@ == y.text@ && x.cursor_byte_offset == y.cursor_byte_offset
            && x.cursor_end_offset == y.cursor_end_offset,
        (None, None) => true,
        _ => false,
    }
}

fn same_offsets(a: &Option<(usize, usize)>, b: &Option<(usize, usize)>) -> (r: bool)
    ensures
        r == (*a == *b),
{
    match (a, b) {
        (Some((p, q)), Some((s, t))) => *p == *s && *q == *t,
        (None, None) => true,
        _ => false,
    }
}

fn same_columns(a: &Option<(u128, u128)>, b: &Option<(u128, u128)>) -> (r: bool)
    ensures
        r == (*a == *b),
{
    match (a, b) {
        (Some((p, q)), Some((s, t))) => *p == *s && *q == *t,
        (None, None) => true,
        _ => false,
    }
}

impl Ime {
    /// Takes the text that is being composed. Returns whether it changed.
    pub fn compose(&mut self, preedit: Option<Preedit>) -> (r: bool)
        ensures
            r == !same_preedit(old(self).preedit, preedit),
            final(self).enabled == old(self).enabled,
            same_preedit(final(self).preedit, preedit),
    {
        let same: bool = match (&self.preedit, &preedit) {
            (Some(x), Some(y)) => text::str_eq(x.text.as_str(), y.text.as_str()) && same_offsets(
                &x.cursor_byte_offset,
                &y.cursor_byte_offset,
            ) && same_columns(&x.cursor_end_offset, &y.cursor_end_offset),
            (None, None) => true,
            _ => false,
        };
        if same {
            return false;
        }
        self.set_preedit(preedit);
        true
    }
}

/// A cursor that does not blink is always shown.
pub proof fn law_still_cursors_are_shown(w: WindowFlags, b: BlinkSources)
    requires
        blink_step(w, b) is Stop,
    ensures
        !blinking_updated(w, b).cursor_hidden,
        blinking_updated(w, b).dirty,
{
}

/// A cursor never blinks in a window without focus.
pub proof fn law_unfocused_cursors_rest(w: WindowFlags, b: BlinkSources)
    ensures
        blink_step(focus_flags(w, false), b) is Stop,
{
}

/// While one types the cursor is shown, if it was blinking.
pub proof fn law_typing_shows_the_cursor(w: WindowFlags, b: BlinkSources, hide: bool)
    ensures
        !typing_started(w, b, true, hide).cursor_hidden,
        w.cursor_hidden ==> typing_started(w, b, true, hide).dirty,
{
}

/// A focus change leaves the window to be drawn, and one that gains it can be
/// drawn at once, whatever was reported before.
pub proof fn law_focus_changes_are_drawn(w: WindowFlags, is_focused: bool)
    ensures
        focus_flags(w, is_focused).dirty,
        is_focused ==> !focus_flags(w, is_focused).occluded && focus_flags(w, is_focused).has_frame,
{
}

} // verus!
