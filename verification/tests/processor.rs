use nebula::event::processor::{
    Action, Event, EventType, Processor, Route, TerminalEvent, WindowState,
};
use nebula::event::quick::{
    about_to_wait, poll_quick_hotkey, restores_session, ControlFlow, HotKeyEvent, QuickStep,
    QuickTerminal, SlideStep,
};

fn window(id: u64) -> WindowState {
    WindowState {
        id,
        hold: false,
        session_exempt: false,
        keep_session: true,
        dirty: false,
        has_frame: false,
        session_dirty: false,
        has_messages: false,
        update_pending: false,
    }
}

fn processor(ids: &[u64]) -> Processor {
    let mut p = Processor::new(false);
    for id in ids {
        p.window_opened(window(*id));
    }
    p
}

fn event(payload: EventType, window: Option<u64>) -> Event {
    Event::new(payload, window)
}

#[test]
fn events_are_routed_by_payload_and_window() {
    assert_eq!(event(EventType::Frame, Some(1)).route(), Route::Frame(1));
    assert_eq!(event(EventType::Frame, None).route(), Route::Broadcast);
    assert_eq!(event(EventType::AiHook, Some(1)).route(), Route::AiHook);
    assert_eq!(event(EventType::Scroll, Some(1)).route(), Route::Forward(1));
    let exit = Event {
        window_id: Some(1),
        tab_id: Some(7),
        payload: EventType::Terminal(TerminalEvent::Exit),
    };
    assert_eq!(exit.route(), Route::ShellExit { id: 1, pane: Some(7) });
    assert_eq!(exit.terminal_tab_id(), Some(7));
    assert_eq!(exit.terminal_bell_pane(), None);
    let bell = Event { payload: EventType::Terminal(TerminalEvent::Bell), ..exit };
    assert_eq!(bell.terminal_bell_pane(), Some(7));
    let frame = Event { payload: EventType::Frame, ..exit };
    assert_eq!(frame.terminal_tab_id(), None);
}

#[test]
fn hooks_are_offered_to_every_window() {
    let mut p = processor(&[1, 2]);
    let actions = p.user_event(event(EventType::AiHook, None));
    assert_eq!(actions, vec![Action::OfferHook(1), Action::OfferHook(2)]);
}

#[test]
fn clicked_notifications_surface_a_window() {
    let mut p = processor(&[1, 2]);
    let actions = p.user_event(event(EventType::FocusWindow, Some(2)));
    assert_eq!(actions, vec![Action::FocusFromToast(2)]);
    let actions = p.user_event(event(EventType::FocusWindow, Some(9)));
    assert_eq!(actions, vec![Action::FocusFromToast(1)]);
    let mut none = processor(&[]);
    assert!(none.user_event(event(EventType::FocusWindow, None)).is_empty());
}

#[test]
fn options_go_to_matching_windows() {
    let mut p = processor(&[1, 2]);
    let set = EventType::IpcConfig { reset: false };
    assert_eq!(p.user_event(event(set, Some(2))), vec![Action::AddConfig(2)]);
    assert_eq!(
        p.user_event(event(EventType::IpcConfig { reset: true }, None)),
        vec![Action::ResetConfig(1), Action::ResetConfig(2), Action::ClearGlobalOptions]
    );
    assert_eq!(
        p.user_event(event(EventType::IpcGetConfig, Some(2))),
        vec![Action::ReplyWindowConfig(2)]
    );
    assert_eq!(
        p.user_event(event(EventType::IpcGetConfig, Some(9))),
        vec![Action::ReplyGlobalConfig]
    );
}

#[test]
fn reloading_clears_messages_first() {
    let mut p = processor(&[1]);
    p.window_opened(WindowState { has_messages: true, ..window(2) });
    let actions = p.user_event(event(EventType::ConfigReload, None));
    assert_eq!(actions, vec![Action::RemoveConfigMessages(2), Action::LoadConfig]);
    assert!(!p.windows[0].update_pending);
    assert!(p.windows[1].update_pending);
    assert_eq!(
        p.config_loaded(true),
        vec![Action::RestartMonitor, Action::UpdateConfig(1), Action::UpdateConfig(2)]
    );
}

#[test]
fn first_window_is_created_differently() {
    let mut p = Processor::new(true);
    let create = event(EventType::CreateWindow, None);
    assert_eq!(p.user_event(create), vec![Action::CreateInitialWindow]);
    assert_eq!(p.window_failed(), vec![Action::ExitLoop]);
    p.window_opened(window(1));
    assert_eq!(p.user_event(create), vec![Action::MakeNotCurrent(1), Action::CreateWindow]);
    assert!(p.window_failed().is_empty());
}

#[test]
fn wakeups_redraw_only_with_a_frame() {
    let mut p = processor(&[1]);
    let wakeup = event(EventType::Terminal(TerminalEvent::Wakeup), Some(1));
    assert!(p.user_event(wakeup).is_empty());
    assert!(p.windows[0].dirty);
    assert_eq!(
        p.user_event(event(EventType::Frame, Some(1))),
        vec![Action::RequestRedraw(1)]
    );
    assert_eq!(p.user_event(wakeup), vec![Action::RequestRedraw(1)]);
}

#[test]
fn ticks_and_settled_resizes_redraw() {
    let mut p = processor(&[1]);
    assert_eq!(
        p.user_event(event(EventType::NebulaTick, Some(1))),
        vec![Action::Autosave(1), Action::RequestRedraw(1)]
    );
    assert_eq!(
        p.user_event(event(EventType::NebulaResizeSettled, Some(1))),
        vec![Action::ApplySettledResize(1), Action::RequestRedraw(1)]
    );
    assert!(p.user_event(event(EventType::NebulaTick, Some(2))).is_empty());
}

#[test]
fn last_shell_ends_the_program() {
    let mut p = processor(&[1, 2]);
    let exit = Event {
        window_id: Some(1),
        tab_id: Some(7),
        payload: EventType::Terminal(TerminalEvent::Exit),
    };
    assert_eq!(p.user_event(exit), vec![Action::CloseTab { window: 1, pane: Some(7) }]);
    assert_eq!(p.tab_closed(1, false, false), vec![Action::RequestRedraw(1)]);
    assert_eq!(p.tab_closed(1, true, false), vec![Action::UnscheduleWindow(1)]);
    assert!(p.windows[0].session_dirty);
    assert_eq!(
        p.tab_closed(2, true, true),
        vec![Action::UnscheduleWindow(2), Action::WriteRefTests(2), Action::ExitLoop]
    );
    assert!(p.windows.is_empty());
}

#[test]
fn held_windows_stay() {
    let mut p = Processor::new(false);
    p.window_opened(WindowState { hold: true, ..window(1) });
    let exit = event(EventType::Terminal(TerminalEvent::Exit), Some(1));
    assert!(p.user_event(exit).is_empty());
}

#[test]
fn closed_windows_are_attached_again_last_first() {
    let mut p = processor(&[1, 2]);
    assert_eq!(p.tab_request_done(1, true, vec![10, 11]), vec![Action::DetachPanes(1)]);
    assert_eq!(p.tab_request_done(2, true, vec![20]), vec![Action::DetachPanes(2)]);
    assert_eq!(p.detached, vec![vec![10, 11], vec![20]]);
    let attach = event(EventType::NebulaAttach, None);
    assert_eq!(p.user_event(attach), vec![Action::AttachPanes]);
    assert_eq!(p.detached, vec![vec![10, 11]]);
    assert_eq!(p.attach_failed(), vec![Action::CreateWindow]);
}

#[test]
fn attaching_without_panes_focuses_a_regular_window() {
    let mut p = Processor::new(false);
    let attach = event(EventType::NebulaAttach, None);
    assert!(p.user_event(attach).is_empty());
    p.window_opened(WindowState { session_exempt: true, ..window(1) });
    assert_eq!(p.user_event(attach), vec![Action::CreateWindow]);
    p.window_opened(window(2));
    assert_eq!(p.user_event(attach), vec![Action::FocusWindow(2)]);
}

#[test]
fn reaped_panes_leave_no_empty_pool() {
    let mut p = processor(&[1, 2]);
    p.tab_request_done(1, true, vec![10, 11]);
    p.tab_request_done(2, true, vec![11]);
    let exit = |pane: u64| Event {
        window_id: Some(1),
        tab_id: Some(pane),
        payload: EventType::Terminal(TerminalEvent::Exit),
    };
    assert!(p.user_event(exit(11)).is_empty());
    assert_eq!(p.detached, vec![vec![10]]);
    assert_eq!(p.user_event(exit(10)), vec![Action::ExitLoop]);
}

#[test]
fn closing_without_keeping_sessions_ends_the_program() {
    let mut p = Processor::new(false);
    p.window_opened(WindowState { keep_session: false, ..window(1) });
    assert_eq!(p.tab_request_done(1, true, vec![10]), vec![Action::ExitLoop]);
    let mut q = processor(&[1]);
    assert_eq!(q.tab_request_done(1, true, vec![]), vec![Action::ExitLoop]);
    let mut r = processor(&[1]);
    assert_eq!(r.tab_request_done(1, false, vec![10]), vec![Action::RequestRedraw(1)]);
}

#[test]
fn shutdown_ends_the_program_with_windows_open() {
    let mut p = processor(&[1]);
    assert_eq!(p.user_event(event(EventType::Shutdown, None)), vec![Action::ExitLoop]);
    assert_eq!(
        p.user_event(event(EventType::BlinkCursor, Some(1))),
        vec![Action::HandleEvent(1)]
    );
    assert_eq!(
        p.user_event(event(EventType::Message, None)),
        vec![Action::HandleEvent(1)]
    );
    assert_eq!(
        p.user_event(event(EventType::NebulaTab, Some(1))),
        vec![Action::HandleTabRequest(1)]
    );
}

#[test]
fn quick_terminal_slides_in_and_out() {
    let mut q = QuickTerminal::new();
    assert_eq!(q.toggle(false, false), QuickStep::Rest);
    assert_eq!(q.toggle(false, true), QuickStep::Create);
    q.created(5);
    assert_eq!(q.animate(false), SlideStep::Slide(5));
    assert_eq!(q.animate(true), SlideStep::Arrive(5));
    assert_eq!(q.animate(true), SlideStep::Idle);
    assert_eq!(q.toggle(true, true), QuickStep::SlideOut(5));
    assert_eq!(q.animate(true), SlideStep::Hide(5));
    assert_eq!(q.toggle(true, true), QuickStep::SlideIn(5));
    assert_eq!(q.toggle(false, true), QuickStep::Create);
    assert_eq!(q.window, None);
}

#[test]
fn hotkey_presses_toggle_once() {
    let press = HotKeyEvent { id: 3, pressed: true };
    let release = HotKeyEvent { id: 3, pressed: false };
    let other = HotKeyEvent { id: 4, pressed: true };
    assert!(poll_quick_hotkey(&vec![release, press, press], Some(3)));
    assert!(!poll_quick_hotkey(&vec![release, other], Some(3)));
    assert!(!poll_quick_hotkey(&vec![press], None));
}

#[test]
fn loop_waits_for_the_next_deadline() {
    assert_eq!(about_to_wait(true, Some(5)), ControlFlow::Poll);
    assert_eq!(about_to_wait(false, Some(5)), ControlFlow::WaitUntil(5));
    assert_eq!(about_to_wait(false, None), ControlFlow::Wait);
}

#[test]
fn only_plain_launches_restore() {
    assert!(restores_session(false, false, true));
    assert!(!restores_session(true, false, true));
    assert!(!restores_session(false, true, true));
    assert!(!restores_session(false, false, false));
}
