//! What a window does about each event that reaches it: what changes at once, and
//! what is left to be done.

use crate::display::overlay;
use crate::display::overlay::{Ime, Preedit};
use crate::display::tabs::ChromeHit;
use crate::display::width;
use crate::event::window;
use crate::event::window::{BlinkSources, BlinkStep, WindowFlags};
use vstd::prelude::*;

verus! {

/// An event of a window or of its terminal, as far as it decides what to do.
#[derive(Debug)]
pub enum HandledEvent {
    SearchNext,
    Scroll(i32),
    BlinkCursor,
    BlinkCursorTimeout,
    /// A message, and whether it is shown already.
    Message { queued: bool },
    /// The terminal reports its title, directory, an image, a command's start or
    /// end, a notification or the bell.
    PaneReport,
    ResetTitle,
    ClipboardStore,
    ClipboardLoad,
    ColorRequest,
    TextAreaSizeRequest,
    PtyWrite,
    MouseCursorDirty,
    CursorBlinkingChange,
    CloseRequested,
    ScaleFactorChanged,
    Resized { width: u32, height: u32 },
    KeyboardInput { is_synthetic: bool, pressed: bool },
    ModifiersChanged,
    MouseInput,
    CursorMoved,
    MouseWheel,
    Touch,
    Focused(bool),
    Occluded(bool),
    DroppedFile,
    CursorLeft,
    ImeCommit,
    /// The text that is being composed, and its cursor in bytes.
    ImePreedit(String, Option<(usize, usize)>),
    ImeEnabled,
    ImeDisabled,
    /// An event that is handled elsewhere, or not at all.
    Other,
}

/// What is left to be done about an event.
#[derive(Debug, Clone, Copy, PartialEq, Eq, Structural)]
pub enum EventStep {
    Rest,
    GotoMatch,
    Scroll(i32),
    StopBlinkTimer,
    PushMessage,
    /// The report goes to its pane.
    Pane,
    SetDefaultTitle,
    StoreClipboard,
    /// The clipboard's text is written to the terminal.
    LoadClipboard,
    AnswerColor,
    AnswerSize,
    WritePty,
    ResetMouseCursor,
    /// The timers of the cursor follow.
    Blink(BlinkStep),
    CloseWindow,
    Rescale,
    Resize { width: u32, height: u32 },
    Key,
    Modifiers,
    MouseButton,
    MouseMoved,
    MouseWheel,
    Touch,
    FocusChanged(bool),
    PasteFile,
    /// The text is committed, and then the cursor's blinking is updated.
    CommitText,
}

/// What events read and change of a window.
#[derive(Debug, Clone, Copy, PartialEq, Eq, Structural)]
pub struct EventState {
    pub flags: WindowFlags,
    /// Whether the pointer is over the text.
    pub inside_text_area: bool,
    /// What of the chrome the pointer is over.
    pub hover: ChromeHit,
    /// Whether the pointer is over something in the settings.
    pub settings_hovered: bool,
    /// Whether a hint is highlighted under the pointer.
    pub hint_lit: bool,
    /// Whether the display has to be laid out anew.
    pub update_pending: bool,
    /// Whether the pointer hides while one types.
    pub hide_when_typing: bool,
    /// Whether the window's title was set from outside and stays.
    pub preserve_title: bool,
    /// Whether the terminal may set the window's title.
    pub dynamic_title: bool,
}

/// How many columns stand behind a byte offset of a text.
#[verifier::opaque]
pub open spec fn columns_from(s: Seq<char>, offset: usize) -> u128 {
    width::label_width(overlay::tail_at(s, offset as int)) as u128
}

/// Whether the cursor of a composed text lies between its characters. That of an
/// empty text does not count.
pub open spec fn has_cursor(s: Seq<char>, cursor: Option<(usize, usize)>) -> bool {
    s.len() > 0 ==> match cursor {
        Some((from, to)) => overlay::is_boundary(s, from as int) && overlay::is_boundary(
            s,
            to as int,
        ),
        None => true,
    }
}

/// Whether `p` is what is composed, where a text and its cursor are reported. An
/// empty text counts as none.
pub open spec fn is_composed(
    p: Option<Preedit>,
    s: Seq<char>,
    cursor: Option<(usize, usize)>,
) -> bool {
    if s.len() == 0 {
        p is None
    } else {
        &&& p matches Some(q)
        &&& q.text@ == s
        &&& q.cursor_byte_offset == cursor
        &&& q.cursor_end_offset == match cursor {
            Some((from, to)) => Some((columns_from(s, from), columns_from(s, to))),
            None => None,
        }
    }
}

/// What decides about the blinking, where something is composed or not.
pub open spec fn blink_sources(b: BlinkSources, composing: bool) -> BlinkSources {
    BlinkSources { composing, ..b }
}

/// The window that has to be drawn.
pub open spec fn dirtied(s: EventState) -> EventState {
    EventState { flags: WindowFlags { dirty: true, ..s.flags }, ..s }
}

/// The window after the pointer left it.
pub open spec fn left(s: EventState) -> EventState {
    EventState {
        inside_text_area: false,
        hover: ChromeHit::Outside,
        settings_hovered: false,
        update_pending: s.update_pending || s.hover != ChromeHit::Outside || s.settings_hovered,
        flags: WindowFlags { dirty: s.flags.dirty || s.hint_lit, ..s.flags },
        ..s
    }
}

/// The flags of a window after an event, but for what the cursor's blinking and
/// the pointer's leaving change.
pub open spec fn flags_after(s: EventState, event: HandledEvent) -> WindowFlags {
    let w = s.flags;
    match event {
        HandledEvent::BlinkCursor => if w.blink_timed_out {
            w
        } else {
            WindowFlags { cursor_hidden: !w.cursor_hidden, dirty: true, ..w }
        },
        HandledEvent::BlinkCursorTimeout => WindowFlags {
            blink_timed_out: true,
            cursor_hidden: false,
            dirty: true,
            ..w
        },
        HandledEvent::CloseRequested => WindowFlags { hold: false, ..w },
        HandledEvent::KeyboardInput { is_synthetic, pressed } => WindowFlags {
            mouse_visible: w.mouse_visible && !(!is_synthetic && pressed && s.hide_when_typing),
            ..w
        },
        HandledEvent::MouseInput
        | HandledEvent::CursorMoved
        | HandledEvent::MouseWheel => WindowFlags { mouse_visible: true, ..w },
        HandledEvent::Occluded(occluded) => WindowFlags {
            occluded,
            dirty: w.dirty || !occluded,
            ..w
        },
        HandledEvent::ImeCommit
        | HandledEvent::ImeEnabled
        | HandledEvent::ImeDisabled => WindowFlags { dirty: true, ..w },
        _ => w,
    }
}

/// The window after an event, but for what the cursor's blinking changes.
pub open spec fn plainly_handled(s: EventState, event: HandledEvent) -> EventState {
    match event {
        HandledEvent::CursorLeft => left(s),
        HandledEvent::Message { queued } => EventState {
            update_pending: s.update_pending || !queued,
            ..s
        },
        _ => EventState { flags: flags_after(s, event), ..s },
    }
}

/// The window after an event. `composed` is what was composed before it.
pub open spec fn handled(
    s: EventState,
    composed: Option<Preedit>,
    event: HandledEvent,
    b: BlinkSources,
) -> EventState {
    match event {
        HandledEvent::CursorBlinkingChange => EventState {
            flags: window::blinking_updated(s.flags, blink_sources(b, composed is Some)),
            ..s
        },
        HandledEvent::ImePreedit(text, cursor) => if is_composed(composed, text@, cursor) {
            s
        } else {
            dirtied(
                EventState {
                    flags: window::blinking_updated(
                        s.flags,
                        blink_sources(b, text@.len() > 0),
                    ),
                    ..s
                },
            )
        },
        _ => plainly_handled(s, event),
    }
}

/// What is left to be done about an event, but for the cursor's blinking.
pub open spec fn plain_step_of(s: EventState, event: HandledEvent) -> EventStep {
    match event {
        HandledEvent::SearchNext => EventStep::GotoMatch,
        HandledEvent::Scroll(delta) => EventStep::Scroll(delta),
        HandledEvent::BlinkCursorTimeout => EventStep::StopBlinkTimer,
        HandledEvent::Message { queued } => if queued {
            EventStep::Rest
        } else {
            EventStep::PushMessage
        },
        HandledEvent::PaneReport => EventStep::Pane,
        HandledEvent::ResetTitle => if !s.preserve_title && s.dynamic_title {
            EventStep::SetDefaultTitle
        } else {
            EventStep::Rest
        },
        HandledEvent::ClipboardStore => if s.flags.is_focused {
            EventStep::StoreClipboard
        } else {
            EventStep::Rest
        },
        HandledEvent::ClipboardLoad => if s.flags.is_focused {
            EventStep::LoadClipboard
        } else {
            EventStep::Rest
        },
        HandledEvent::ColorRequest => EventStep::AnswerColor,
        HandledEvent::TextAreaSizeRequest => EventStep::AnswerSize,
        HandledEvent::PtyWrite => EventStep::WritePty,
        HandledEvent::MouseCursorDirty => EventStep::ResetMouseCursor,
        HandledEvent::CloseRequested => EventStep::CloseWindow,
        HandledEvent::ScaleFactorChanged => EventStep::Rescale,
        HandledEvent::Resized { width, height } => if width >= window::MIN_WINDOW_PIXELS && height
            >= window::MIN_WINDOW_PIXELS {
            EventStep::Resize { width, height }
        } else {
            EventStep::Rest
        },
        HandledEvent::KeyboardInput { is_synthetic, pressed: _ } => if is_synthetic {
            EventStep::Rest
        } else {
            EventStep::Key
        },
        HandledEvent::ModifiersChanged => EventStep::Modifiers,
        HandledEvent::MouseInput => EventStep::MouseButton,
        HandledEvent::CursorMoved => EventStep::MouseMoved,
        HandledEvent::MouseWheel => EventStep::MouseWheel,
        HandledEvent::Touch => EventStep::Touch,
        HandledEvent::Focused(is_focused) => EventStep::FocusChanged(is_focused),
        HandledEvent::DroppedFile => EventStep::PasteFile,
        HandledEvent::ImeCommit => EventStep::CommitText,
        _ => EventStep::Rest,
    }
}

/// What is left to be done about an event. `composed` is what was composed before
/// it.
pub open spec fn step_of(
    s: EventState,
    composed: Option<Preedit>,
    event: HandledEvent,
    b: BlinkSources,
) -> EventStep {
    match event {
        HandledEvent::CursorBlinkingChange => EventStep::Blink(
            window::blink_step(s.flags, blink_sources(b, composed is Some)),
        ),
        HandledEvent::ImePreedit(text, cursor) => if is_composed(composed, text@, cursor) {
            EventStep::Rest
        } else {
            EventStep::Blink(window::blink_step(s.flags, blink_sources(b, text@.len() > 0)))
        },
        _ => plain_step_of(s, event),
    }
}

/// Takes a text that is being composed, and its cursor. An empty one counts as
/// none. Returns what the cursor's timers have to do, if the text changed.
fn preedit_changed(
    s: &mut EventState,
    ime: &mut Ime,
    text: &String,
    cursor: Option<(usize, usize)>,
    b: &BlinkSources,
) -> (r: Option<BlinkStep>)
    requires
        has_cursor(text@, cursor),
    ensures
        final(ime).enabled == old(ime).enabled,
        is_composed(final(ime).preedit, text@, cursor),
        is_composed(old(ime).preedit, text@, cursor) ==> r is None && *final(s) == *old(s),
        !is_composed(old(ime).preedit, text@, cursor) ==> r == Some(
            window::blink_step(old(s).flags, blink_sources(*b, text@.len() > 0)),
        ) && *final(s) == dirtied(
            EventState {
                flags: window::blinking_updated(
                    old(s).flags,
                    blink_sources(*b, text@.len() > 0),
                ),
                ..*old(s)
            },
        ),
{
    reveal(columns_from);
    let empty: bool = text.as_str().unicode_len() == 0;
    let preedit: Option<Preedit> = if empty {
        None
    } else {
        Some(Preedit::new(text.clone(), cursor))
    };
    assert(is_composed(preedit, text@, cursor));
    if ime.compose(preedit) {
        let r = s.flags.update_cursor_blinking(&BlinkSources { composing: !empty, ..*b });
        s.flags.dirty = true;
        Some(r)
    } else {
        None
    }
}

/// What is left to be done about an event, but for the cursor's blinking.
fn plain_step(s: &EventState, event: &HandledEvent) -> (r: EventStep)
    ensures
        r == plain_step_of(*s, *event),
{
    match event {
        HandledEvent::SearchNext => EventStep::GotoMatch,
        HandledEvent::Scroll(delta) => EventStep::Scroll(*delta),
        HandledEvent::BlinkCursorTimeout => EventStep::StopBlinkTimer,
        HandledEvent::Message { queued } => if *queued {
            EventStep::Rest
        } else {
            EventStep::PushMessage
        },
        HandledEvent::PaneReport => EventStep::Pane,
        HandledEvent::ResetTitle => if !s.preserve_title && s.dynamic_title {
            EventStep::SetDefaultTitle
        } else {
            EventStep::Rest
        },
        HandledEvent::ClipboardStore => if s.flags.is_focused {
            EventStep::StoreClipboard
        } else {
            EventStep::Rest
        },
        HandledEvent::ClipboardLoad => if s.flags.is_focused {
            EventStep::LoadClipboard
        } else {
            EventStep::Rest
        },
        HandledEvent::ColorRequest => EventStep::AnswerColor,
        HandledEvent::TextAreaSizeRequest => EventStep::AnswerSize,
        HandledEvent::PtyWrite => EventStep::WritePty,
        HandledEvent::MouseCursorDirty => EventStep::ResetMouseCursor,
        HandledEvent::CloseRequested => EventStep::CloseWindow,
        HandledEvent::ScaleFactorChanged => EventStep::Rescale,
        HandledEvent::Resized { width, height } => if window::takes_size(*width, *height) {
            EventStep::Resize { width: *width, height: *height }
        } else {
            EventStep::Rest
        },
        HandledEvent::KeyboardInput { is_synthetic, pressed: _ } => if *is_synthetic {
            EventStep::Rest
        } else {
            EventStep::Key
        },
        HandledEvent::ModifiersChanged => EventStep::Modifiers,
        HandledEvent::MouseInput => EventStep::MouseButton,
        HandledEvent::CursorMoved => EventStep::MouseMoved,
        HandledEvent::MouseWheel => EventStep::MouseWheel,
        HandledEvent::Touch => EventStep::Touch,
        HandledEvent::Focused(is_focused) => EventStep::FocusChanged(*is_focused),
        HandledEvent::DroppedFile => EventStep::PasteFile,
        HandledEvent::ImeCommit => EventStep::CommitText,
        _ => EventStep::Rest,
    }
}

/// The flags of a window after an event, but for what the cursor's blinking and
/// the pointer's leaving change.
fn new_flags(s: &EventState, event: &HandledEvent) -> (r: WindowFlags)
    ensures
        r == flags_after(*s, *event),
{
    let mut flags: WindowFlags = s.flags;
    match event {
        HandledEvent::BlinkCursor => flags.blink_cursor(),
        HandledEvent::BlinkCursorTimeout => flags.blink_cursor_timeout(),
        HandledEvent::CloseRequested => flags.close_requested(),
        HandledEvent::Occluded(occluded) => flags.occlusion_changed(*occluded),
        HandledEvent::KeyboardInput { is_synthetic, pressed } => {
            if !*is_synthetic && *pressed && s.hide_when_typing {
                flags.mouse_visible = false;
            }
        },
        HandledEvent::MouseInput | HandledEvent::CursorMoved | HandledEvent::MouseWheel => {
            flags.mouse_visible = true;
        },
        HandledEvent::ImeCommit | HandledEvent::ImeEnabled | HandledEvent::ImeDisabled => {
            flags.dirty = true;
        },
        _ => {},
    }
    flags
}

/// The window after the pointer left it.
fn pointer_left(s: &EventState) -> (r: EventState)
    ensures
        r == left(*s),
{
    let mut r: EventState = *s;
    r.inside_text_area = false;
    if s.hover != ChromeHit::Outside || s.settings_hovered {
        r.hover = ChromeHit::Outside;
        r.settings_hovered = false;
        r.update_pending = true;
    }
    if s.hint_lit {
        r.flags.dirty = true;
    }
    r
}

/// Handles an event that neither composes a text nor concerns the blinking.
fn plain_event(s: &mut EventState, event: &HandledEvent) -> (r: EventStep)
    ensures
        r == plain_step_of(*old(s), *event),
        *final(s) == plainly_handled(*old(s), *event),
{
    let before: EventState = *s;
    match event {
        HandledEvent::CursorLeft => {
            *s = pointer_left(&before);
        },
        HandledEvent::Message { queued } => {
            *s = EventState { update_pending: before.update_pending || !*queued, ..before };
        },
        _ => {
            *s = EventState { flags: new_flags(&before, event), ..before };
        },
    }
    plain_step(&before, event)
}

/// Handles an event that composes no text.
fn other_event(s: &mut EventState, ime: &mut Ime, event: &HandledEvent, b: &BlinkSources) -> (r:
    EventStep)
    requires
        !(event is ImePreedit),
    ensures
        r == step_of(*old(s), old(ime).preedit, *event, *b),
        *final(s) == handled(*old(s), old(ime).preedit, *event, *b),
        match *event {
            HandledEvent::ImeEnabled => final(ime).enabled && final(ime).preedit
                == old(ime).preedit,
            HandledEvent::ImeDisabled => !final(ime).enabled && final(ime).preedit is None,
            _ => *final(ime) == *old(ime),
        },
{
    if matches!(event, HandledEvent::CursorBlinkingChange) {
        let composing: bool = ime.preedit.is_some();
        return EventStep::Blink(
            s.flags.update_cursor_blinking(&BlinkSources { composing, ..*b }),
        );
    }
    if matches!(event, HandledEvent::ImeEnabled) {
        ime.set_enabled(true);
    } else if matches!(event, HandledEvent::ImeDisabled) {
        ime.set_enabled(false);
    }
    plain_event(s, event)
}

/// Handles an event: changes the window at once as it asks, and tells what is left
/// to be done.
pub fn handle_event(s: &mut EventState, ime: &mut Ime, event: &HandledEvent, b: &BlinkSources) -> (r:
    EventStep)
    requires
        event matches HandledEvent::ImePreedit(text, cursor) ==> has_cursor(text@, *cursor),
    ensures
        r == step_of(*old(s), old(ime).preedit, *event, *b),
        *final(s) == handled(*old(s), old(ime).preedit, *event, *b),
        match *event {
            HandledEvent::ImePreedit(text, cursor) => final(ime).enabled == old(ime).enabled
                && is_composed(final(ime).preedit, text@, cursor),
            HandledEvent::ImeEnabled => final(ime).enabled && final(ime).preedit
                == old(ime).preedit,
            HandledEvent::ImeDisabled => !final(ime).enabled && final(ime).preedit is None,
            _ => *final(ime) == *old(ime),
        },
{
    if let HandledEvent::ImePreedit(text, cursor) = event {
        match preedit_changed(s, ime, text, *cursor, b) {
            Some(blink) => EventStep::Blink(blink),
            None => EventStep::Rest,
        }
    } else {
        other_event(s, ime, event, b)
    }
}

/// A terminal reaches the clipboard only through the window that has the focus.
pub proof fn law_clipboard_needs_focus(
    s: EventState,
    composed: Option<Preedit>,
    event: HandledEvent,
    b: BlinkSources,
)
    requires
        !s.flags.is_focused,
    ensures
        !(step_of(s, composed, event, b) is StoreClipboard),
        !(step_of(s, composed, event, b) is LoadClipboard),
{
}

/// The pointer is hidden by nothing but the press of a key, and then only where
/// that is configured.
pub proof fn law_only_keys_hide_the_pointer(
    s: EventState,
    composed: Option<Preedit>,
    event: HandledEvent,
    b: BlinkSources,
)
    requires
        s.flags.mouse_visible,
        !handled(s, composed, event, b).flags.mouse_visible,
    ensures
        s.hide_when_typing,
        event == (HandledEvent::KeyboardInput { is_synthetic: false, pressed: true }),
        step_of(s, composed, event, b) is Key,
{
}

/// Every use of the mouse shows the pointer again.
pub proof fn law_the_mouse_shows_the_pointer(
    s: EventState,
    composed: Option<Preedit>,
    event: HandledEvent,
    b: BlinkSources,
)
    requires
        event is MouseInput || event is CursorMoved || event is MouseWheel,
    ensures
        handled(s, composed, event, b).flags.mouse_visible,
{
}

/// Once the pointer left, nothing is hovered, and its leaving again changes nothing.
pub proof fn law_leaving_clears_the_hover(s: EventState)
    ensures
        left(s).hover == ChromeHit::Outside,
        !left(s).settings_hovered,
        !left(s).inside_text_area,
        left(left(s)) == left(s),
{
}

} // verus!
