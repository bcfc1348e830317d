//! The quick terminal: a window that a global hotkey slides in and out.
//!
//! The caller holds the clock and the window; the position within a slide is its
//! own business, and it reports when the slide is over.

use vstd::prelude::*;

verus! {

/// The quick terminal's window and its slide.
#[derive(Debug, Clone, Copy, PartialEq, Eq, Structural)]
pub struct QuickTerminal {
    /// The window, once created.
    pub window: Option<u64>,
    /// Whether the window is shown, or on its way there.
    pub visible: bool,
    /// Whether a slide runs, and then whether it slides in.
    pub sliding_in: Option<bool>,
}

/// What toggling the quick terminal asks for.
#[derive(Debug, Clone, Copy, PartialEq, Eq, Structural)]
pub enum QuickStep {
    /// Park the window above the top edge, show and focus it, and slide it in.
    SlideIn(u64),
    /// Slide the window out. It stays visible until the slide is over.
    SlideOut(u64),
    /// Create the window, and report it.
    Create,
    /// Nothing can be done yet.
    Rest,
}

/// What a frame of the slide asks for.
#[derive(Debug, Clone, Copy, PartialEq, Eq, Structural)]
pub enum SlideStep {
    /// No slide runs.
    Idle,
    /// Move the window, and come again.
    Slide(u64),
    /// Move the window to its place. The slide is over.
    Arrive(u64),
    /// Hide the window. The slide is over.
    Hide(u64),
}

/// How the event loop waits for the next event.
#[derive(Debug, Clone, Copy, PartialEq, Eq, Structural)]
pub enum ControlFlow {
    Poll,
    /// Wait until a point in time.
    WaitUntil(u64),
    Wait,
}

/// A hotkey was pressed or released.
#[derive(Debug, Clone, Copy, PartialEq, Eq, Structural)]
pub struct HotKeyEvent {
    pub id: u32,
    pub pressed: bool,
}

/// What toggling asks for; `there` tells whether the window still is, and
/// `has_gl` whether another one can be created.
pub open spec fn toggle_step(q: QuickTerminal, there: bool, has_gl: bool) -> QuickStep {
    match q.window {
        Some(id) if there => if q.visible {
            QuickStep::SlideOut(id)
        } else {
            QuickStep::SlideIn(id)
        },
        _ => if has_gl {
            QuickStep::Create
        } else {
            QuickStep::Rest
        },
    }
}

pub open spec fn toggled(q: QuickTerminal, there: bool) -> QuickTerminal {
    match q.window {
        Some(id) if there => QuickTerminal {
            window: Some(id),
            visible: !q.visible,
            sliding_in: Some(!q.visible),
        },
        _ => QuickTerminal { window: None, ..q },
    }
}

pub open spec fn slide_step(q: QuickTerminal, over: bool) -> SlideStep {
    match (q.sliding_in, q.window) {
        (Some(inward), Some(id)) => if !over {
            SlideStep::Slide(id)
        } else if inward {
            SlideStep::Arrive(id)
        } else {
            SlideStep::Hide(id)
        },
        _ => SlideStep::Idle,
    }
}

pub open spec fn slid(q: QuickTerminal, over: bool) -> QuickTerminal {
    if q.window is None || over {
        QuickTerminal { sliding_in: None, ..q }
    } else {
        q
    }
}

impl QuickTerminal {
    pub fn new() -> (r: Self)
        ensures
            r == (QuickTerminal { window: None, visible: false, sliding_in: None }),
    {
        QuickTerminal { window: None, visible: false, sliding_in: None }
    }

    /// Shows or hides the quick terminal, and has it created on first use, or
    /// after the user closed it.
    pub fn toggle(&mut self, there: bool, has_gl: bool) -> (r: QuickStep)
        ensures
            r == toggle_step(*old(self), there, has_gl),
            *final(self) == toggled(*old(self), there),
    {
        if let Some(id) = self.window {
            if there {
                self.visible = !self.visible;
                self.sliding_in = Some(self.visible);
                return if self.visible {
                    QuickStep::SlideIn(id)
                } else {
                    QuickStep::SlideOut(id)
                };
            }
            self.window = None;
        }
        if has_gl {
            QuickStep::Create
        } else {
            QuickStep::Rest
        }
    }

    /// The window was created: it slides in.
    pub fn created(&mut self, id: u64)
        ensures
            *final(self) == (QuickTerminal {
                window: Some(id),
                visible: true,
                sliding_in: Some(true),
            }),
    {
        self.window = Some(id);
        self.visible = true;
        self.sliding_in = Some(true);
    }

    /// Advances the slide by one frame; `over` tells whether its time has passed.
    pub fn animate(&mut self, over: bool) -> (r: SlideStep)
        ensures
            r == slide_step(*old(self), over),
            *final(self) == slid(*old(self), over),
    {
        let inward = match self.sliding_in {
            Some(inward) => inward,
            None => return SlideStep::Idle,
        };
        let id = match self.window {
            Some(id) => id,
            None => {
                self.sliding_in = None;
                return SlideStep::Idle;
            },
        };
        if !over {
            return SlideStep::Slide(id);
        }
        self.sliding_in = None;
        if inward {
            SlideStep::Arrive(id)
        } else {
            SlideStep::Hide(id)
        }
    }
}

/// Whether one of the events is a press of the toggle hotkey.
pub open spec fn is_toggled_by(events: Seq<HotKeyEvent>, hotkey: Option<u32>) -> bool {
    exists|i: int|
        0 <= i < events.len() && (#[trigger] events[i]).pressed && hotkey == Some(events[i].id)
}

/// Reads the hotkey events that came in. However many presses there are, the
/// quick terminal is toggled at most once.
pub fn poll_quick_hotkey(events: &Vec<HotKeyEvent>, hotkey: Option<u32>) -> (r: bool)
    ensures
        r == is_toggled_by(events@, hotkey),
{
    let hotkey_id: u32 = match hotkey {
        Some(id) => id,
        None => return false,
    };
    let mut i: usize = 0;
    while i < events.len()
        invariant
            i <= events@.len(),
            hotkey == Some(hotkey_id),
            forall|j: int| 0 <= j < i ==> !((#[trigger] events@[j]).pressed && hotkey_id == events@[j].id),
        decreases events@.len() - i,
    {
        if events[i].pressed && events[i].id == hotkey_id {
            return true;
        }
        i += 1;
    }
    false
}

/// How the event loop waits: not at all while the quick terminal slides, else
/// until the scheduler's next deadline.
pub fn about_to_wait(animating: bool, deadline: Option<u64>) -> (r: ControlFlow)
    ensures
        r == (if animating {
            ControlFlow::Poll
        } else {
            match deadline {
                Some(at) => ControlFlow::WaitUntil(at),
                None => ControlFlow::Wait,
            }
        }),
{
    if animating {
        return ControlFlow::Poll;
    }
    match deadline {
        Some(at) => ControlFlow::WaitUntil(at),
        None => ControlFlow::Wait,
    }
}

/// Whether the previous session is restored: only on a launch that asks for
/// nothing specific, and where a session is there to be restored.
pub fn restores_session(has_directory: bool, has_command: bool, restorable: bool) -> (r: bool)
    ensures
        r == (!has_directory && !has_command && restorable),
{
    !has_directory && !has_command && restorable
}

/// Toggling twice brings the window back to where it was.
pub proof fn law_toggling_twice_returns(q: QuickTerminal)
    requires
        q.window is Some,
    ensures
        toggled(toggled(q, true), true).visible == q.visible,
        toggled(toggled(q, true), true).window == q.window,
{
}

/// A window is hidden only at the end of a slide out.
pub proof fn law_windows_stay_visible_while_sliding(q: QuickTerminal, over: bool)
    requires
        slide_step(q, over) is Hide,
    ensures
        over,
        q.sliding_in == Some(false),
        slid(q, over).sliding_in is None,
{
}

} // verus!
