//! Routing of events to windows, and the life of windows: which ones stay, which
//! panes are kept for re-attaching, and when the program ends.
//!
//! The processor decides; the caller performs the actions that it returns, in their
//! order, and reports what came of those that ask something.

use vstd::prelude::*;

verus! {

/// A window, as far as routing depends on it.
#[derive(Debug, Clone, Copy, PartialEq, Eq, Structural)]
pub struct WindowState {
    pub id: u64,
    /// Whether the window stays when its shell exits.
    pub hold: bool,
    /// Whether the window takes no part in session files.
    pub session_exempt: bool,
    /// Whether closing the window keeps its shells.
    pub keep_session: bool,
    /// Whether something has to be drawn.
    pub dirty: bool,
    /// Whether a frame may be drawn now.
    pub has_frame: bool,
    /// Whether the session file has to be written anew.
    pub session_dirty: bool,
    /// Whether messages are shown.
    pub has_messages: bool,
    /// Whether the display waits for an update.
    pub update_pending: bool,
}

/// What a terminal reports, as far as routing depends on it.
#[derive(Debug, Clone, Copy, PartialEq, Eq, Structural)]
pub enum TerminalEvent {
    Wakeup,
    Exit,
    Bell,
    Other,
}

/// What happened. The contents that only the receiver reads stay with the caller.
#[derive(Debug, Clone, Copy, PartialEq, Eq, Structural)]
pub enum EventType {
    Terminal(TerminalEvent),
    ConfigReload,
    Message,
    Scroll,
    CreateWindow,
    IpcConfig { reset: bool },
    IpcGetConfig,
    BlinkCursor,
    BlinkCursorTimeout,
    SearchNext,
    Shutdown,
    Frame,
    /// Tab management request for a window.
    NebulaTab,
    /// Periodic tick to redraw the chrome clock.
    NebulaTick,
    /// A second launch asked the resident instance to surface.
    NebulaAttach,
    /// An interactive resize settled.
    NebulaResizeSettled,
    /// Lifecycle event of an AI client.
    AiHook,
    /// A toast was clicked: focus the window that it came from.
    FocusWindow,
}

/// An event, with the window and the tab that it is limited to.
#[derive(Debug, Clone, Copy, PartialEq, Eq, Structural)]
pub struct Event {
    pub window_id: Option<u64>,
    pub tab_id: Option<u64>,
    pub payload: EventType,
}

/// Where an event goes.
pub open spec fn route_of(e: Event) -> Route {
    match e.payload {
        EventType::AiHook => Route::AiHook,
        EventType::FocusWindow => Route::FocusWindow(e.window_id),
        EventType::IpcConfig { reset } => Route::IpcConfig { window: e.window_id, reset },
        EventType::IpcGetConfig => Route::IpcGetConfig(e.window_id),
        EventType::ConfigReload => Route::ConfigReload,
        EventType::CreateWindow => Route::CreateWindow,
        EventType::Shutdown => Route::Shutdown,
        EventType::NebulaAttach => Route::Attach,
        _ => match e.window_id {
            None => Route::Broadcast,
            Some(id) => match e.payload {
                EventType::Terminal(TerminalEvent::Wakeup) => Route::Wakeup(id),
                EventType::Terminal(TerminalEvent::Exit) => Route::ShellExit {
                    id,
                    pane: e.tab_id,
                },
                EventType::Frame => Route::Frame(id),
                EventType::NebulaTick => Route::Tick(id),
                EventType::NebulaResizeSettled => Route::ResizeSettled(id),
                EventType::NebulaTab => Route::Tab(id),
                _ => Route::Forward(id),
            },
        },
    }
}

impl Event {
    /// An event for a window, or for all.
    pub fn new(payload: EventType, window_id: Option<u64>) -> (r: Self)
        ensures
            r == (Event { window_id, tab_id: None, payload }),
    {
        Event { window_id, tab_id: None, payload }
    }

    /// Tab of an event that a terminal sent.
    pub fn terminal_tab_id(&self) -> (r: Option<u64>)
        ensures
            r == (if self.payload is Terminal {
                self.tab_id
            } else {
                None
            }),
    {
        match self.payload {
            EventType::Terminal(_) => self.tab_id,
            _ => None,
        }
    }

    /// Pane of a terminal's bell.
    pub fn terminal_bell_pane(&self) -> (r: Option<u64>)
        ensures
            r == (if self.payload == EventType::Terminal(TerminalEvent::Bell) {
                self.tab_id
            } else {
                None
            }),
    {
        match self.payload {
            EventType::Terminal(TerminalEvent::Bell) => self.tab_id,
            _ => None,
        }
    }

    /// Where the event goes.
    pub fn route(&self) -> (r: Route)
        ensures
            r == route_of(*self),
    {
        match self.payload {
            EventType::AiHook => Route::AiHook,
            EventType::FocusWindow => Route::FocusWindow(self.window_id),
            EventType::IpcConfig { reset } => Route::IpcConfig { window: self.window_id, reset },
            EventType::IpcGetConfig => Route::IpcGetConfig(self.window_id),
            EventType::ConfigReload => Route::ConfigReload,
            EventType::CreateWindow => Route::CreateWindow,
            EventType::Shutdown => Route::Shutdown,
            EventType::NebulaAttach => Route::Attach,
            _ => match self.window_id {
                None => Route::Broadcast,
                Some(id) => match self.payload {
                    EventType::Terminal(TerminalEvent::Wakeup) => Route::Wakeup(id),
                    EventType::Terminal(TerminalEvent::Exit) => Route::ShellExit {
                        id,
                        pane: self.tab_id,
                    },
                    EventType::Frame => Route::Frame(id),
                    EventType::NebulaTick => Route::Tick(id),
                    EventType::NebulaResizeSettled => Route::ResizeSettled(id),
                    EventType::NebulaTab => Route::Tab(id),
                    _ => Route::Forward(id),
                },
            },
        }
    }
}

/// The destination of an event for the program or one of its windows.
#[derive(Debug, Clone, Copy, PartialEq, Eq, Structural)]
pub enum Route {
    /// A lifecycle event of an AI client.
    AiHook,
    /// A notification was clicked.
    FocusWindow(Option<u64>),
    /// Options for one window, or for all.
    IpcConfig { window: Option<u64>, reset: bool },
    /// A request for the options of a window.
    IpcGetConfig(Option<u64>),
    ConfigReload,
    CreateWindow,
    Shutdown,
    /// A second launch handed over to this instance.
    Attach,
    /// Any other event for all windows.
    Broadcast,
    /// A terminal has new content.
    Wakeup(u64),
    /// A shell exited, in a pane of a window.
    ShellExit { id: u64, pane: Option<u64> },
    /// A frame may be drawn.
    Frame(u64),
    /// The chrome clock ticked.
    Tick(u64),
    /// An interactive resize settled.
    ResizeSettled(u64),
    /// A tab request.
    Tab(u64),
    /// Any other event for a window.
    Forward(u64),
}

/// What the caller has to do.
#[derive(Debug, Clone, Copy, PartialEq, Eq, Structural)]
pub enum Action {
    /// Offer the hook to the window; the first one that claims it ends the offer.
    OfferHook(u64),
    FocusFromToast(u64),
    ResetConfig(u64),
    AddConfig(u64),
    ClearGlobalOptions,
    AppendGlobalOptions,
    ReplyWindowConfig(u64),
    ReplyGlobalConfig,
    RemoveConfigMessages(u64),
    LoadConfig,
    RestartMonitor,
    UpdateConfig(u64),
    MakeNotCurrent(u64),
    CreateInitialWindow,
    CreateWindow,
    /// Open a window for the panes that were taken out of the pool.
    AttachPanes,
    FocusWindow(u64),
    HandleEvent(u64),
    RequestRedraw(u64),
    /// Close the tab whose shell exited, and report whether that closes the
    /// window.
    CloseTab { window: u64, pane: Option<u64> },
    Autosave(u64),
    ApplySettledResize(u64),
    /// Perform the tab request, and report whether it closes the window.
    HandleTabRequest(u64),
    /// Take the panes out of the closed window and keep them running.
    DetachPanes(u64),
    UnscheduleWindow(u64),
    WriteRefTests(u64),
    ExitLoop,
}

/// The windows and the panes that are kept without one.
pub struct Processor {
    /// The open windows, in no particular order.
    pub windows: Vec<WindowState>,
    /// Panes of closed windows, kept alive for re-attaching; the window that was
    /// closed last comes back first.
    pub detached: Vec<Vec<u64>>,
    /// Whether the shared graphics configuration exists.
    pub has_gl: bool,
    /// Whether the program stays when the last shell exits. A request that closes
    /// the last window ends it all the same.
    pub daemon: bool,
}

/// The processor as a value.
#[verifier::ext_equal]
pub struct ProcessorState {
    pub windows: Seq<WindowState>,
    pub detached: Seq<Seq<u64>>,
    pub has_gl: bool,
    pub daemon: bool,
}

pub open spec fn pools(v: Seq<Vec<u64>>) -> Seq<Seq<u64>> {
    v.map_values(|p: Vec<u64>| p@)
}

impl Processor {
    pub open spec fn value(&self) -> ProcessorState {
        ProcessorState {
            windows: self.windows@,
            detached: pools(self.detached@),
            has_gl: self.has_gl,
            daemon: self.daemon,
        }
    }
}

/// Where a window stands, from `i` on.
pub open spec fn find_from(w: Seq<WindowState>, id: u64, i: nat) -> Option<nat>
    decreases w.len() - i,
{
    if i >= w.len() {
        None
    } else if w[i as int].id == id {
        Some(i)
    } else {
        find_from(w, id, i + 1)
    }
}

pub open spec fn find(w: Seq<WindowState>, id: u64) -> Option<nat> {
    find_from(w, id, 0)
}

pub open spec fn has(w: Seq<WindowState>, id: u64) -> bool {
    find(w, id) is Some
}

pub open spec fn set(s: ProcessorState, i: nat, w: WindowState) -> ProcessorState {
    ProcessorState { windows: s.windows.update(i as int, w), ..s }
}

/// The state with one window changed, where it is there.
pub open spec fn change(
    s: ProcessorState,
    id: u64,
    f: spec_fn(WindowState) -> WindowState,
) -> ProcessorState {
    match find(s.windows, id) {
        Some(i) => set(s, i, f(s.windows[i as int])),
        None => s,
    }
}

/// An action for each window.
pub open spec fn for_each(w: Seq<WindowState>, f: spec_fn(u64) -> Action) -> Seq<Action> {
    w.map_values(|x: WindowState| f(x.id))
}

/// A window that something has to be drawn in.
pub open spec fn soiled(w: WindowState) -> WindowState {
    WindowState { dirty: true, ..w }
}

pub open spec fn framed(w: WindowState) -> WindowState {
    WindowState { has_frame: true, ..w }
}

/// The window that a clicked notification surfaces: its own, or else any.
pub open spec fn toast_target(w: Seq<WindowState>, window: Option<u64>) -> Option<u64> {
    match window {
        Some(id) => if has(w, id) {
            Some(id)
        } else if w.len() > 0 {
            Some(w[0].id)
        } else {
            None
        },
        None => if w.len() > 0 {
            Some(w[0].id)
        } else {
            None
        },
    }
}

/// The options actions for the windows that options are meant for.
pub open spec fn config_actions(w: Seq<WindowState>, window: Option<u64>, reset: bool) -> Seq<
    Action,
>
    decreases w.len(),
{
    if w.len() == 0 {
        Seq::empty()
    } else {
        let before = config_actions(w.drop_last(), window, reset);
        let id = w.last().id;
        if window is None || window == Some(id) {
            before.push(
                if reset {
                    Action::ResetConfig(id)
                } else {
                    Action::AddConfig(id)
                },
            )
        } else {
            before
        }
    }
}

/// The windows with the messages about their configuration gone.
pub open spec fn unmessaged(w: WindowState) -> WindowState {
    if w.has_messages {
        WindowState { update_pending: true, ..w }
    } else {
        w
    }
}

pub open spec fn message_actions(w: Seq<WindowState>) -> Seq<Action>
    decreases w.len(),
{
    if w.len() == 0 {
        Seq::empty()
    } else {
        let before = message_actions(w.drop_last());
        if w.last().has_messages {
            before.push(Action::RemoveConfigMessages(w.last().id))
        } else {
            before
        }
    }
}

/// The first window that takes part in session files, from `i` on.
pub open spec fn first_regular(w: Seq<WindowState>, i: nat) -> Option<u64>
    decreases w.len() - i,
{
    if i >= w.len() {
        None
    } else if !w[i as int].session_exempt {
        Some(w[i as int].id)
    } else {
        first_regular(w, i + 1)
    }
}

/// What surfaces something where there are no panes to attach: a window that is
/// there, or else a new one.
pub open spec fn surface(s: ProcessorState) -> Seq<Action> {
    match first_regular(s.windows, 0) {
        Some(id) => seq![Action::FocusWindow(id)],
        None => if s.has_gl {
            seq![Action::CreateWindow]
        } else {
            Seq::empty()
        },
    }
}

/// The state with a window that was opened.
pub open spec fn with_window(s: ProcessorState, w: WindowState) -> ProcessorState {
    ProcessorState {
        windows: match find(s.windows, w.id) {
            Some(i) => s.windows.update(i as int, w),
            None => s.windows.push(w),
        },
        has_gl: true,
        ..s
    }
}

/// The pool without a pane.
pub open spec fn without_pane(p: Seq<u64>, pane: u64) -> Seq<u64> {
    p.filter(other_than(pane))
}

pub open spec fn other_than(pane: u64) -> spec_fn(u64) -> bool {
    |x: u64| x != pane
}

/// The pools without a pane, and without those that it leaves empty.
pub open spec fn reaped(pools: Seq<Seq<u64>>, pane: Option<u64>) -> Seq<Seq<u64>>
    decreases pools.len(),
{
    match pane {
        None => pools,
        Some(id) => if pools.len() == 0 {
            pools
        } else {
            let before = reaped(pools.drop_last(), pane);
            let left = without_pane(pools.last(), id);
            if left.len() == 0 {
                before
            } else {
                before.push(left)
            }
        },
    }
}

/// Whether nothing is left that the program runs for.
pub open spec fn is_idle(s: ProcessorState) -> bool {
    s.windows.len() == 0 && s.detached.len() == 0
}

pub open spec fn when(b: bool, a: Seq<Action>) -> Seq<Action> {
    if b {
        a
    } else {
        Seq::empty()
    }
}

/// The state after an event.
pub open spec fn after(s: ProcessorState, e: Route) -> ProcessorState {
    match e {
        Route::ConfigReload => ProcessorState {
            windows: s.windows.map_values(|w: WindowState| unmessaged(w)),
            ..s
        },
        Route::Attach => if s.detached.len() > 0 {
            ProcessorState { detached: s.detached.drop_last(), ..s }
        } else {
            s
        },
        Route::Wakeup(id) => change(s, id, |w: WindowState| soiled(w)),
        Route::ShellExit { id, pane } => if has(s.windows, id) {
            s
        } else {
            ProcessorState { detached: reaped(s.detached, pane), ..s }
        },
        Route::Frame(id) => change(s, id, |w: WindowState| framed(w)),
        Route::Tick(id) => change(s, id, |w: WindowState| soiled(w)),
        Route::ResizeSettled(id) => change(s, id, |w: WindowState| soiled(w)),
        _ => s,
    }
}

/// What has to be done for an event.
pub open spec fn actions(s: ProcessorState, e: Route) -> Seq<Action> {
    match e {
        Route::AiHook => for_each(s.windows, |id: u64| Action::OfferHook(id)),
        Route::FocusWindow(window) => match toast_target(s.windows, window) {
            Some(id) => seq![Action::FocusFromToast(id)],
            None => Seq::empty(),
        },
        Route::IpcConfig { window, reset } => config_actions(s.windows, window, reset) + when(
            window is None,
            seq![
                if reset {
                    Action::ClearGlobalOptions
                } else {
                    Action::AppendGlobalOptions
                },
            ],
        ),
        Route::IpcGetConfig(window) => match window {
            Some(id) => if has(s.windows, id) {
                seq![Action::ReplyWindowConfig(id)]
            } else {
                seq![Action::ReplyGlobalConfig]
            },
            None => seq![Action::ReplyGlobalConfig],
        },
        Route::ConfigReload => message_actions(s.windows).push(Action::LoadConfig),
        Route::CreateWindow => for_each(s.windows, |id: u64| Action::MakeNotCurrent(id)).push(
            if s.has_gl {
                Action::CreateWindow
            } else {
                Action::CreateInitialWindow
            },
        ),
        Route::Shutdown => seq![Action::ExitLoop],
        Route::Attach => if s.detached.len() > 0 {
            seq![Action::AttachPanes]
        } else {
            surface(s)
        },
        Route::Broadcast => for_each(s.windows, |id: u64| Action::HandleEvent(id)),
        Route::Wakeup(id) => match find(s.windows, id) {
            Some(i) => when(s.windows[i as int].has_frame, seq![Action::RequestRedraw(id)]),
            None => Seq::empty(),
        },
        Route::ShellExit { id, pane } => match find(s.windows, id) {
            Some(i) => when(
                !s.windows[i as int].hold,
                seq![Action::CloseTab { window: id, pane }],
            ),
            None => when(is_idle(after(s, e)) && !s.daemon, seq![Action::ExitLoop]),
        },
        Route::Frame(id) => match find(s.windows, id) {
            Some(i) => when(s.windows[i as int].dirty, seq![Action::RequestRedraw(id)]),
            None => Seq::empty(),
        },
        Route::Tick(id) => when(
            has(s.windows, id),
            seq![Action::Autosave(id), Action::RequestRedraw(id)],
        ),
        Route::ResizeSettled(id) => when(
            has(s.windows, id),
            seq![Action::ApplySettledResize(id), Action::RequestRedraw(id)],
        ),
        Route::Tab(id) => when(has(s.windows, id), seq![Action::HandleTabRequest(id)]),
        Route::Forward(id) => when(has(s.windows, id), seq![Action::HandleEvent(id)]),
    }
}

/// A window whose session file has to be written anew.
pub open spec fn reclaimed(w: WindowState) -> WindowState {
    WindowState { session_dirty: true, ..w }
}

/// The windows without one of them. What it wrote into the session file last must
/// not stick while others live on.
pub open spec fn without_window(w: Seq<WindowState>, i: nat) -> Seq<WindowState> {
    let rest = w.remove(i as int);
    if w[i as int].session_exempt {
        rest
    } else {
        rest.map_values(|x: WindowState| reclaimed(x))
    }
}

/// The state after the tab of an exited shell was closed.
pub open spec fn after_tab_closed(s: ProcessorState, window: u64, closes: bool) -> ProcessorState {
    match find(s.windows, window) {
        None => s,
        Some(i) => if !closes {
            set(s, i, soiled(s.windows[i as int]))
        } else {
            ProcessorState { windows: without_window(s.windows, i), ..s }
        },
    }
}

/// What has to be done after the tab of an exited shell was closed.
pub open spec fn tab_closed_actions(
    s: ProcessorState,
    window: u64,
    closes: bool,
    ref_test: bool,
) -> Seq<Action> {
    match find(s.windows, window) {
        None => Seq::empty(),
        Some(i) => if !closes {
            seq![Action::RequestRedraw(window)]
        } else {
            let q = after_tab_closed(s, window, closes);
            seq![Action::UnscheduleWindow(window)] + when(
                is_idle(q) && !q.daemon,
                when(ref_test, seq![Action::WriteRefTests(window)]) + seq![Action::ExitLoop],
            )
        },
    }
}

/// Whether the panes of a window that a request closed are kept.
pub open spec fn detaches(w: WindowState, live: Seq<u64>) -> bool {
    live.len() > 0 && !w.session_exempt && w.keep_session
}

/// The state after a tab request.
pub open spec fn after_tab_request(s: ProcessorState, window: u64, closes: bool, live: Seq<u64>) ->
    ProcessorState {
    match find(s.windows, window) {
        None => s,
        Some(i) => if !closes {
            set(s, i, soiled(s.windows[i as int]))
        } else {
            ProcessorState {
                windows: without_window(s.windows, i),
                detached: if detaches(s.windows[i as int], live) {
                    s.detached.push(live)
                } else {
                    s.detached
                },
                ..s
            }
        },
    }
}

/// What has to be done after a tab request.
pub open spec fn tab_request_actions(s: ProcessorState, window: u64, closes: bool, live: Seq<u64>) ->
    Seq<Action> {
    match find(s.windows, window) {
        None => Seq::empty(),
        Some(i) => if !closes {
            seq![Action::RequestRedraw(window)]
        } else {
            when(detaches(s.windows[i as int], live), seq![Action::DetachPanes(window)]) + when(
                is_idle(after_tab_request(s, window, closes, live)),
                seq![Action::ExitLoop],
            )
        },
    }
}

proof fn lemma_find(w: Seq<WindowState>, id: u64, i: nat)
    ensures
        find_from(w, id, i) matches Some(k) ==> i <= k < w.len() && w[k as int].id == id,
    decreases w.len() - i,
{
    if i < w.len() && w[i as int].id != id {
        lemma_find(w, id, i + 1);
    }
}

impl Processor {
    fn position(&self, id: u64) -> (r: Option<usize>)
        ensures
            match r {
                Some(i) => find(self.windows@, id) == Some(i as nat) && i < self.windows@.len()
                    && self.windows@[i as int].id == id,
                None => find(self.windows@, id) is None,
            },
    {
        let mut i: usize = 0;
        while i < self.windows.len()
            invariant
                i <= self.windows@.len(),
                find(self.windows@, id) == find_from(self.windows@, id, i as nat),
            decreases self.windows@.len() - i,
        {
            if self.windows[i].id == id {
                return Some(i);
            }
            i += 1;
        }
        None
    }

    fn update(&mut self, i: usize, w: WindowState)
        requires
            i < old(self).windows@.len(),
        ensures
            final(self).value() == set(old(self).value(), i as nat, w),
    {
        self.windows.set(i, w);
    }

    /// Actions for each window.
    fn each(&self, kind: EachAction) -> (r: Vec<Action>)
        ensures
            r@ == for_each(self.windows@, |id: u64| kind.action(id)),
    {
        let mut r: Vec<Action> = Vec::new();
        let mut i: usize = 0;
        while i < self.windows.len()
            invariant
                i <= self.windows@.len(),
                r@.len() == i,
                forall|j: int| 0 <= j < i ==> #[trigger] r@[j] == kind.action(self.windows@[j].id),
            decreases self.windows@.len() - i,
        {
            let id: u64 = self.windows[i].id;
            r.push(kind.of(id));
            i += 1;
        }
        assert(r@ =~= for_each(self.windows@, |id: u64| kind.action(id)));
        r
    }

    fn surface_something(&self) -> (r: Vec<Action>)
        ensures
            r@ == surface(self.value()),
    {
        let mut r: Vec<Action> = Vec::new();
        let mut i: usize = 0;
        while i < self.windows.len()
            invariant
                i <= self.windows@.len(),
                r@.len() == 0,
                first_regular(self.windows@, 0) == first_regular(self.windows@, i as nat),
            decreases self.windows@.len() - i,
        {
            if !self.windows[i].session_exempt {
                r.push(Action::FocusWindow(self.windows[i].id));
                assert(r@ =~= surface(self.value()));
                return r;
            }
            i += 1;
        }
        if self.has_gl {
            r.push(Action::CreateWindow);
        }
        assert(r@ =~= surface(self.value()));
        r
    }

    fn config_for(&self, window: Option<u64>, reset: bool) -> (r: Vec<Action>)
        ensures
            r@ == config_actions(self.windows@, window, reset),
    {
        let ghost all = self.windows@;
        let mut r: Vec<Action> = Vec::new();
        let mut i: usize = 0;
        assert(all.take(0) =~= Seq::empty());
        while i < self.windows.len()
            invariant
                i <= self.windows@.len(),
                all == self.windows@,
                r@ == config_actions(all.take(i as int), window, reset),
            decreases self.windows@.len() - i,
        {
            assert(all.take(i + 1).drop_last() =~= all.take(i as int));
            assert(all.take(i + 1).last() == all[i as int]);
            let id: u64 = self.windows[i].id;
            let meant: bool = match window {
                None => true,
                Some(w) => w == id,
            };
            if meant {
                r.push(
                    if reset {
                        Action::ResetConfig(id)
                    } else {
                        Action::AddConfig(id)
                    },
                );
            }
            i += 1;
        }
        assert(all.take(i as int) =~= all);
        r
    }

    fn drop_messages(&mut self) -> (r: Vec<Action>)
        ensures
            r@ == message_actions(old(self).windows@),
            final(self).value() == (ProcessorState {
                windows: old(self).windows@.map_values(|w: WindowState| unmessaged(w)),
                ..old(self).value()
            }),
    {
        let ghost all = self.windows@;
        let mut r: Vec<Action> = Vec::new();
        let mut i: usize = 0;
        assert(all.take(0) =~= Seq::empty());
        while i < self.windows.len()
            invariant
                i <= self.windows@.len(),
                self.windows@.len() == all.len(),
                r@ == message_actions(all.take(i as int)),
                forall|j: int| 0 <= j < i ==> #[trigger] self.windows@[j] == unmessaged(all[j]),
                forall|j: int| i <= j < all.len() ==> #[trigger] self.windows@[j] == all[j],
                self.detached@ == old(self).detached@,
                self.has_gl == old(self).has_gl,
                self.daemon == old(self).daemon,
            decreases self.windows@.len() - i,
        {
            assert(all.take(i + 1).drop_last() =~= all.take(i as int));
            assert(all.take(i + 1).last() == all[i as int]);
            let mut w: WindowState = self.windows[i];
            if w.has_messages {
                r.push(Action::RemoveConfigMessages(w.id));
                w.update_pending = true;
                self.windows.set(i, w);
            }
            i += 1;
        }
        assert(all.take(i as int) =~= all);
        assert(self.windows@ =~= all.map_values(|w: WindowState| unmessaged(w)));
        r
    }

    /// Drops a detached pane whose shell exited while its window was closed, and
    /// the pools that have nothing left alive.
    pub fn reap_detached_pane(&mut self, pane: Option<u64>)
        ensures
            final(self).value() == (ProcessorState {
                detached: reaped(old(self).value().detached, pane),
                ..old(self).value()
            }),
    {
        let id: u64 = match pane {
            Some(id) => id,
            None => return,
        };
        let ghost all = self.value().detached;
        let mut kept: Vec<Vec<u64>> = Vec::new();
        let mut i: usize = 0;
        assert(all.take(0) =~= Seq::empty());
        assert(pools(kept@) =~= Seq::empty());
        while i < self.detached.len()
            invariant
                i <= self.detached@.len(),
                all == pools(self.detached@),
                pane == Some(id),
                pools(kept@) == reaped(all.take(i as int), pane),
            decreases self.detached@.len() - i,
        {
            assert(all.take(i + 1).drop_last() =~= all.take(i as int));
            assert(all.take(i + 1).last() == self.detached@[i as int]@);
            let left = remove_pane(&self.detached[i], id);
            if left.len() > 0 {
                let ghost before = pools(kept@);
                kept.push(left);
                assert(pools(kept@) =~= before.push(left@));
            }
            i += 1;
        }
        assert(all.take(i as int) =~= all);
        self.detached = kept;
    }

    fn mark_dirty(&mut self, id: u64) -> (r: bool)
        ensures
            r == has(old(self).windows@, id),
            final(self).value() == change(old(self).value(), id, |w: WindowState| soiled(w)),
    {
        match self.position(id) {
            Some(i) => {
                let mut w: WindowState = self.windows[i];
                w.dirty = true;
                self.update(i, w);
                true
            },
            None => false,
        }
    }

    /// A processor without windows.
    pub fn new(daemon: bool) -> (r: Self)
        ensures
            r.value() == (ProcessorState {
                windows: Seq::empty(),
                detached: Seq::empty(),
                has_gl: false,
                daemon,
            }),
    {
        let r = Processor { windows: Vec::new(), detached: Vec::new(), has_gl: false, daemon };
        assert(pools(r.detached@) =~= Seq::empty());
        r
    }

    /// Handles an event: changes the state, and returns what has to be done.
    pub fn user_event(&mut self, event: Event) -> (r: Vec<Action>)
        ensures
            final(self).value() == after(old(self).value(), route_of(event)),
            r@ == actions(old(self).value(), route_of(event)),
    {
        let e = event.route();
        self.handle(e)
    }

    /// A window was opened: it takes the place of one with its id, or comes last.
    pub fn window_opened(&mut self, w: WindowState)
        ensures
            final(self).value() == with_window(old(self).value(), w),
    {
        match self.position(w.id) {
            Some(i) => self.windows.set(i, w),
            None => self.windows.push(w),
        }
        self.has_gl = true;
    }

    /// A window could not be opened. Without the first one the program ends.
    pub fn window_failed(&self) -> (r: Vec<Action>)
        ensures
            r@ == when(!self.has_gl, seq![Action::ExitLoop]),
    {
        let mut r: Vec<Action> = Vec::new();
        if !self.has_gl {
            r.push(Action::ExitLoop);
        }
        assert(r@ =~= when(!self.has_gl, seq![Action::ExitLoop]));
        r
    }

    fn handle(&mut self, e: Route) -> (r: Vec<Action>)
        ensures
            final(self).value() == after(old(self).value(), e),
            r@ == actions(old(self).value(), e),
    {
        let ghost s = self.value();
        match e {
            Route::AiHook => {
                let r = self.each(EachAction::OfferHook);
                assert(r@ =~= actions(s, e));
                r
            },
            Route::FocusWindow(window) => {
                let mut r: Vec<Action> = Vec::new();
                let own: bool = match window {
                    Some(id) => self.position(id).is_some(),
                    None => false,
                };
                if own {
                    if let Some(id) = window {
                        r.push(Action::FocusFromToast(id));
                    }
                } else if self.windows.len() > 0 {
                    r.push(Action::FocusFromToast(self.windows[0].id));
                }
                assert(r@ =~= actions(s, e));
                r
            },
            Route::IpcConfig { window, reset } => {
                let mut r = self.config_for(window, reset);
                if window.is_none() {
                    r.push(
                        if reset {
                            Action::ClearGlobalOptions
                        } else {
                            Action::AppendGlobalOptions
                        },
                    );
                }
                assert(r@ =~= actions(s, e));
                r
            },
            Route::IpcGetConfig(window) => {
                let mut r: Vec<Action> = Vec::new();
                let known: bool = match window {
                    Some(id) => self.position(id).is_some(),
                    None => false,
                };
                match window {
                    Some(id) => if known {
                        r.push(Action::ReplyWindowConfig(id));
                    } else {
                        r.push(Action::ReplyGlobalConfig);
                    },
                    None => r.push(Action::ReplyGlobalConfig),
                }
                assert(r@ =~= actions(s, e));
                r
            },
            Route::ConfigReload => {
                let mut r = self.drop_messages();
                r.push(Action::LoadConfig);
                r
            },
            Route::CreateWindow => {
                let mut r = self.each(EachAction::MakeNotCurrent);
                assert(r@ =~= for_each(s.windows, |id: u64| Action::MakeNotCurrent(id)));
                r.push(
                    if self.has_gl {
                        Action::CreateWindow
                    } else {
                        Action::CreateInitialWindow
                    },
                );
                r
            },
            Route::Shutdown => {
                let mut r: Vec<Action> = Vec::new();
                r.push(Action::ExitLoop);
                assert(r@ =~= actions(s, e));
                r
            },
            Route::Attach => {
                if self.detached.len() > 0 {
                    let ghost before = self.detached@;
                    let _ = self.detached.pop();
                    let mut r: Vec<Action> = Vec::new();
                    r.push(Action::AttachPanes);
                    assert(r@ =~= actions(s, e));
                    assert(pools(self.detached@) =~= pools(before).drop_last());
                    r
                } else {
                    assert(pools(self.detached@).len() == 0);
                    self.surface_something()
                }
            },
            Route::Broadcast => {
                let r = self.each(EachAction::HandleEvent);
                assert(r@ =~= actions(s, e));
                r
            },
            Route::Wakeup(id) => {
                let mut r: Vec<Action> = Vec::new();
                if let Some(i) = self.position(id) {
                    let framed: bool = self.windows[i].has_frame;
                    let _ = self.mark_dirty(id);
                    if framed {
                        r.push(Action::RequestRedraw(id));
                    }
                }
                assert(r@ =~= actions(s, e));
                r
            },
            Route::ShellExit { id, pane } => {
                let mut r: Vec<Action> = Vec::new();
                match self.position(id) {
                    Some(i) => {
                        if !self.windows[i].hold {
                            r.push(Action::CloseTab { window: id, pane });
                        }
                    },
                    None => {
                        self.reap_detached_pane(pane);
                        assert(self.value().detached.len() == self.detached@.len());
                        if self.windows.len() == 0 && self.detached.len() == 0 && !self.daemon {
                            r.push(Action::ExitLoop);
                        }
                    },
                }
                assert(r@ =~= actions(s, e));
                r
            },
            Route::Frame(id) => {
                let mut r: Vec<Action> = Vec::new();
                if let Some(i) = self.position(id) {
                    let mut w: WindowState = self.windows[i];
                    w.has_frame = true;
                    self.update(i, w);
                    if w.dirty {
                        r.push(Action::RequestRedraw(id));
                    }
                }
                assert(r@ =~= actions(s, e));
                r
            },
            Route::Tick(id) => {
                let mut r: Vec<Action> = Vec::new();
                if self.mark_dirty(id) {
                    r.push(Action::Autosave(id));
                    r.push(Action::RequestRedraw(id));
                }
                assert(r@ =~= actions(s, e));
                r
            },
            Route::ResizeSettled(id) => {
                let mut r: Vec<Action> = Vec::new();
                if self.mark_dirty(id) {
                    r.push(Action::ApplySettledResize(id));
                    r.push(Action::RequestRedraw(id));
                }
                assert(r@ =~= actions(s, e));
                r
            },
            Route::Tab(id) => {
                let mut r: Vec<Action> = Vec::new();
                if self.position(id).is_some() {
                    r.push(Action::HandleTabRequest(id));
                }
                assert(r@ =~= actions(s, e));
                r
            },
            Route::Forward(id) => {
                let mut r: Vec<Action> = Vec::new();
                if self.position(id).is_some() {
                    r.push(Action::HandleEvent(id));
                }
                assert(r@ =~= actions(s, e));
                r
            },
        }
    }

    /// What surfaces something after the panes that were taken out of the pool
    /// could not be attached.
    pub fn attach_failed(&self) -> (r: Vec<Action>)
        ensures
            r@ == surface(self.value()),
    {
        self.surface_something()
    }

    /// A configuration was loaded: every window takes it, and the monitor is
    /// restarted where its files changed.
    pub fn config_loaded(&self, monitor_needs_restart: bool) -> (r: Vec<Action>)
        ensures
            r@ == when(monitor_needs_restart, seq![Action::RestartMonitor]) + for_each(
                self.windows@,
                |id: u64| Action::UpdateConfig(id),
            ),
    {
        let mut r: Vec<Action> = Vec::new();
        if monitor_needs_restart {
            r.push(Action::RestartMonitor);
        }
        assert(r@ =~= when(monitor_needs_restart, seq![Action::RestartMonitor]));
        let mut rest = self.each(EachAction::UpdateConfig);
        assert(rest@ =~= for_each(self.windows@, |id: u64| Action::UpdateConfig(id)));
        r.append(&mut rest);
        r
    }

    /// Takes a window out, and lets the others reclaim the session file.
    fn remove_window(&mut self, i: usize)
        requires
            i < old(self).windows@.len(),
        ensures
            final(self).value() == (ProcessorState {
                windows: without_window(old(self).windows@, i as nat),
                ..old(self).value()
            }),
    {
        let ghost all = self.windows@;
        let closed: WindowState = self.windows.remove(i);
        let ghost rest = self.windows@;
        if !closed.session_exempt {
            let mut k: usize = 0;
            while k < self.windows.len()
                invariant
                    k <= self.windows@.len(),
                    self.windows@.len() == rest.len(),
                    forall|j: int| 0 <= j < k ==> #[trigger] self.windows@[j] == reclaimed(rest[j]),
                    forall|j: int| k <= j < rest.len() ==> #[trigger] self.windows@[j] == rest[j],
                    self.detached@ == old(self).detached@,
                    self.has_gl == old(self).has_gl,
                    self.daemon == old(self).daemon,
                decreases self.windows@.len() - k,
            {
                let mut w: WindowState = self.windows[k];
                w.session_dirty = true;
                self.windows.set(k, w);
                k += 1;
            }
            assert(self.windows@ =~= rest.map_values(|x: WindowState| reclaimed(x)));
        }
        assert(self.windows@ =~= without_window(all, i as nat));
    }

    /// The tab of an exited shell was closed. Where that closes the window, it
    /// goes; the program ends with the last one, unless panes are kept.
    pub fn tab_closed(&mut self, window: u64, closes: bool, ref_test: bool) -> (r: Vec<Action>)
        ensures
            final(self).value() == after_tab_closed(old(self).value(), window, closes),
            r@ == tab_closed_actions(old(self).value(), window, closes, ref_test),
    {
        let ghost s = self.value();
        let mut r: Vec<Action> = Vec::new();
        let i: usize = match self.position(window) {
            Some(i) => i,
            None => return r,
        };
        if !closes {
            let _ = self.mark_dirty(window);
            r.push(Action::RequestRedraw(window));
            assert(r@ =~= tab_closed_actions(s, window, closes, ref_test));
            return r;
        }
        self.remove_window(i);
        assert(self.value().detached.len() == self.detached@.len());
        r.push(Action::UnscheduleWindow(window));
        if self.windows.len() == 0 && self.detached.len() == 0 && !self.daemon {
            if ref_test {
                r.push(Action::WriteRefTests(window));
            }
            r.push(Action::ExitLoop);
        }
        assert(r@ =~= tab_closed_actions(s, window, closes, ref_test));
        r
    }

    /// A tab request was performed. A window that it closes with live panes leaves
    /// them running, ready for re-attaching, unless that is switched off.
    pub fn tab_request_done(&mut self, window: u64, closes: bool, live: Vec<u64>) -> (r: Vec<Action>)
        ensures
            final(self).value() == after_tab_request(old(self).value(), window, closes, live@),
            r@ == tab_request_actions(old(self).value(), window, closes, live@),
    {
        let ghost s = self.value();
        let ghost panes = live@;
        let mut r: Vec<Action> = Vec::new();
        let i: usize = match self.position(window) {
            Some(i) => i,
            None => return r,
        };
        if !closes {
            let _ = self.mark_dirty(window);
            r.push(Action::RequestRedraw(window));
            assert(r@ =~= tab_request_actions(s, window, closes, panes));
            return r;
        }
        let closed: WindowState = self.windows[i];
        if live.len() > 0 && !closed.session_exempt && closed.keep_session {
            let ghost before = self.detached@;
            self.detached.push(live);
            assert(pools(self.detached@) =~= pools(before).push(panes));
            r.push(Action::DetachPanes(window));
        }
        self.remove_window(i);
        assert(self.value().detached.len() == self.detached@.len());
        if self.windows.len() == 0 && self.detached.len() == 0 {
            r.push(Action::ExitLoop);
        }
        assert(r@ =~= tab_request_actions(s, window, closes, panes));
        r
    }
}

/// Actions that every window gets.
#[derive(Debug, Clone, Copy, PartialEq, Eq, Structural)]
pub enum EachAction {
    OfferHook,
    MakeNotCurrent,
    HandleEvent,
    UpdateConfig,
}

impl EachAction {
    pub open spec fn action(self, id: u64) -> Action {
        match self {
            EachAction::OfferHook => Action::OfferHook(id),
            EachAction::MakeNotCurrent => Action::MakeNotCurrent(id),
            EachAction::HandleEvent => Action::HandleEvent(id),
            EachAction::UpdateConfig => Action::UpdateConfig(id),
        }
    }

    fn of(self, id: u64) -> (r: Action)
        ensures
            r == self.action(id),
    {
        match self {
            EachAction::OfferHook => Action::OfferHook(id),
            EachAction::MakeNotCurrent => Action::MakeNotCurrent(id),
            EachAction::HandleEvent => Action::HandleEvent(id),
            EachAction::UpdateConfig => Action::UpdateConfig(id),
        }
    }
}

fn remove_pane(panes: &Vec<u64>, pane: u64) -> (r: Vec<u64>)
    ensures
        r@ == without_pane(panes@, pane),
{
    let ghost keep = other_than(pane);
    let mut r: Vec<u64> = Vec::new();
    let mut i: usize = 0;
    proof {
        reveal(Seq::filter);
        assert(panes@.take(0).filter(keep) =~= Seq::empty());
    }
    while i < panes.len()
        invariant
            i <= panes@.len(),
            keep == other_than(pane),
            r@ == panes@.take(i as int).filter(keep),
        decreases panes@.len() - i,
    {
        proof {
            assert(panes@.take(i + 1).drop_last() =~= panes@.take(i as int));
            assert(panes@.take(i + 1).last() == panes@[i as int]);
            reveal(Seq::filter);
        }
        if panes[i] != pane {
            r.push(panes[i]);
        }
        i += 1;
    }
    assert(panes@.take(i as int) =~= panes@);
    r
}

/// The program never ends on an event while a window is open or panes are kept,
/// but for an explicit shutdown.
pub proof fn law_live_sessions_keep_running(s: ProcessorState, e: Route)
    requires
        e != Route::Shutdown,
        actions(s, e).contains(Action::ExitLoop),
    ensures
        is_idle(after(s, e)),
        !s.daemon,
{
    let a = actions(s, e);
    match e {
        Route::IpcConfig { window, reset } => {
            lemma_no_exit_config(s.windows, window, reset);
        },
        Route::ConfigReload => {
            lemma_no_exit_messages(s.windows);
        },
        _ => {},
    }
    let k = choose|k: int| 0 <= k < a.len() && a[k] == Action::ExitLoop;
    assert(a[k] == Action::ExitLoop);
}

proof fn lemma_no_exit_config(w: Seq<WindowState>, window: Option<u64>, reset: bool)
    ensures
        forall|i: int|
            0 <= i < config_actions(w, window, reset).len() ==> config_actions(
                w,
                window,
                reset,
            )[i] != Action::ExitLoop,
    decreases w.len(),
{
    if w.len() > 0 {
        lemma_no_exit_config(w.drop_last(), window, reset);
        let front = config_actions(w.drop_last(), window, reset);
        let out = config_actions(w, window, reset);
        assert forall|i: int| 0 <= i < out.len() implies out[i] != Action::ExitLoop by {
            if i < front.len() {
                assert(out[i] == front[i]);
            }
        }
    }
}

proof fn lemma_no_exit_messages(w: Seq<WindowState>)
    ensures
        forall|i: int|
            0 <= i < message_actions(w).len() ==> message_actions(w)[i] != Action::ExitLoop,
    decreases w.len(),
{
    if w.len() > 0 {
        lemma_no_exit_messages(w.drop_last());
        let front = message_actions(w.drop_last());
        let out = message_actions(w);
        assert forall|i: int| 0 <= i < out.len() implies out[i] != Action::ExitLoop by {
            if i < front.len() {
                assert(out[i] == front[i]);
            }
        }
    }
}

/// Closing a window with live panes keeps them, and the next attach request
/// takes them back, before it does anything else.
pub proof fn law_closed_windows_can_be_attached(s: ProcessorState, window: u64, live: Seq<u64>)
    requires
        find(s.windows, window) matches Some(i) && detaches(s.windows[i as int], live),
    ensures
        after_tab_request(s, window, true, live).detached.last() == live,
        !tab_request_actions(s, window, true, live).contains(Action::ExitLoop),
        actions(after_tab_request(s, window, true, live), Route::Attach) == seq![
            Action::AttachPanes,
        ],
        after(after_tab_request(s, window, true, live), Route::Attach).detached == s.detached,
{
    let q = after_tab_request(s, window, true, live);
    assert(q.detached.drop_last() =~= s.detached);
}

/// The window that an event is for.
pub open spec fn addressee(e: Route) -> Option<u64> {
    match e {
        Route::Wakeup(id) => Some(id),
        Route::ShellExit { id, .. } => Some(id),
        Route::Frame(id) => Some(id),
        Route::Tick(id) => Some(id),
        Route::ResizeSettled(id) => Some(id),
        Route::Tab(id) => Some(id),
        Route::Forward(id) => Some(id),
        _ => None,
    }
}

/// An event for one window leaves every other window as it was, and no event
/// opens or closes a window by itself.
pub proof fn law_events_stay_in_their_window(s: ProcessorState, e: Route, j: int)
    requires
        0 <= j < s.windows.len(),
    ensures
        after(s, e).windows.len() == s.windows.len(),
        after(s, e).windows[j].id == s.windows[j].id,
        (addressee(e) matches Some(id) && s.windows[j].id != id) ==> after(s, e).windows[j]
            == s.windows[j],
{
    if let Some(id) = addressee(e) {
        lemma_find(s.windows, id, 0);
    }
}

/// When a window that takes part in the session file closes, every window that
/// stays writes its own again.
pub proof fn law_survivors_reclaim_the_session(s: ProcessorState, window: u64, j: int)
    requires
        find(s.windows, window) matches Some(i) && !s.windows[i as int].session_exempt,
        0 <= j < s.windows.len() - 1,
    ensures
        after_tab_closed(s, window, true).windows.len() == s.windows.len() - 1,
        after_tab_closed(s, window, true).windows[j].session_dirty,
{
    lemma_find(s.windows, window, 0);
}

/// No pool of detached panes is ever left empty, and a reaped pane is gone from
/// all of them.
pub proof fn law_reaped_panes_are_gone(pools: Seq<Seq<u64>>, pane: u64)
    ensures
        forall|i: int|
            #![trigger reaped(pools, Some(pane))[i]]
            0 <= i < reaped(pools, Some(pane)).len() ==> reaped(pools, Some(pane))[i].len() > 0
                && !reaped(pools, Some(pane))[i].contains(pane),
    decreases pools.len(),
{
    if pools.len() > 0 {
        law_reaped_panes_are_gone(pools.drop_last(), pane);
        let before = reaped(pools.drop_last(), Some(pane));
        let out = reaped(pools, Some(pane));
        let left = without_pane(pools.last(), pane);
        assert forall|i: int| #![trigger out[i]] 0 <= i < out.len() implies out[i].len() > 0
            && !out[i].contains(pane) by {
            if i < before.len() {
                assert(out[i] == before[i]);
            } else {
                if left.contains(pane) {
                    let k = choose|k: int| 0 <= k < left.len() && left[k] == pane;
                    pools.last().lemma_filter_pred(other_than(pane), k);
                }
            }
        }
    }
}

} // verus!
