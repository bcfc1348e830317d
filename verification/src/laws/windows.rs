//! What events do to windows and to the panes that no window shows.

use vstd::prelude::*;

use crate::display::hints;
use crate::display::hints::{CellState, Hint, HintBounds, HintHighlights, HintSources};
use crate::event::mouse::ViewCell;
use crate::event::processor;
use crate::event::processor::{Action, Event, EventType, ProcessorState, Route, WindowState};
use crate::event::quick;
use crate::event::quick::{HotKeyEvent, QuickStep, QuickTerminal, SlideStep};
use crate::event::window;
use crate::event::window::WindowEventKind;

verus! {

/// The first window of an id stands at a place.
pub open spec fn stands(w: Seq<WindowState>, id: u64, i: int) -> bool {
    &&& 0 <= i < w.len()
    &&& w[i].id == id
    &&& forall|j: int| 0 <= j < i ==> (#[trigger] w[j]).id != id
}

/// No window has an id.
pub open spec fn is_unknown(w: Seq<WindowState>, id: u64) -> bool {
    forall|j: int| 0 <= j < w.len() ==> (#[trigger] w[j]).id != id
}

proof fn lemma_found(w: Seq<WindowState>, id: u64, from: nat)
    requires
        from <= w.len(),
        forall|j: int| 0 <= j < from ==> (#[trigger] w[j]).id != id,
    ensures
        forall|i: int| stands(w, id, i) ==> processor::find_from(w, id, from) == Some(i as nat),
        is_unknown(w, id) ==> processor::find_from(w, id, from) is None,
    decreases w.len() - from,
{
    if from < w.len() && w[from as int].id != id {
        lemma_found(w, id, from + 1);
    }
}

/// News from a terminal make its window dirty, and draw it where a frame is due; a
/// frame that comes draws what is dirty. Nothing else changes.
pub proof fn law_windows_are_drawn_when_due(s: ProcessorState, id: u64, i: int)
    requires
        stands(s.windows, id, i),
    ensures
        processor::after(s, Route::Wakeup(id)) == (ProcessorState {
            windows: s.windows.update(i, WindowState { dirty: true, ..s.windows[i] }),
            ..s
        }),
        processor::actions(s, Route::Wakeup(id)) == if s.windows[i].has_frame {
            seq![Action::RequestRedraw(id)]
        } else {
            Seq::empty()
        },
        processor::after(s, Route::Frame(id)) == (ProcessorState {
            windows: s.windows.update(i, WindowState { has_frame: true, ..s.windows[i] }),
            ..s
        }),
        processor::actions(s, Route::Frame(id)) == if s.windows[i].dirty {
            seq![Action::RequestRedraw(id)]
        } else {
            Seq::empty()
        },
{
    lemma_found(s.windows, id, 0);
}

/// A tick saves the session and draws the window, and the end of a resize applies
/// it and draws; requests for tabs and the other events go to their window.
pub proof fn law_windows_get_their_events(s: ProcessorState, id: u64, i: int)
    requires
        stands(s.windows, id, i),
    ensures
        processor::actions(s, Route::Tick(id)) == seq![
            Action::Autosave(id),
            Action::RequestRedraw(id),
        ],
        processor::actions(s, Route::ResizeSettled(id)) == seq![
            Action::ApplySettledResize(id),
            Action::RequestRedraw(id),
        ],
        processor::after(s, Route::Tick(id)).windows[i].dirty,
        processor::after(s, Route::ResizeSettled(id)).windows[i].dirty,
        processor::actions(s, Route::Tab(id)) == seq![Action::HandleTabRequest(id)],
        processor::actions(s, Route::Forward(id)) == seq![Action::HandleEvent(id)],
        processor::after(s, Route::Tab(id)) == s,
        processor::after(s, Route::Forward(id)) == s,
        processor::actions(s, Route::IpcGetConfig(Some(id))) == seq![
            Action::ReplyWindowConfig(id),
        ],
{
    lemma_found(s.windows, id, 0);
}

/// Events for a window that is gone do nothing.
pub proof fn law_gone_windows_get_nothing(s: ProcessorState, id: u64)
    requires
        is_unknown(s.windows, id),
    ensures
        processor::after(s, Route::Wakeup(id)) == s,
        processor::after(s, Route::Frame(id)) == s,
        processor::after(s, Route::Tick(id)) == s,
        processor::after(s, Route::ResizeSettled(id)) == s,
        processor::actions(s, Route::Wakeup(id)).len() == 0,
        processor::actions(s, Route::Frame(id)).len() == 0,
        processor::actions(s, Route::Tick(id)).len() == 0,
        processor::actions(s, Route::ResizeSettled(id)).len() == 0,
        processor::actions(s, Route::Tab(id)).len() == 0,
        processor::actions(s, Route::Forward(id)).len() == 0,
        processor::actions(s, Route::IpcGetConfig(Some(id))) == seq![Action::ReplyGlobalConfig],
{
    lemma_found(s.windows, id, 0);
}

/// A shell that ends closes its tab, unless its window holds it.
pub proof fn law_ended_shells_close_their_tab(s: ProcessorState, id: u64, i: int, pane: Option<u64>)
    requires
        stands(s.windows, id, i),
    ensures
        processor::after(s, Route::ShellExit { id, pane }) == s,
        processor::actions(s, Route::ShellExit { id, pane }) == if s.windows[i].hold {
            Seq::empty()
        } else {
            seq![Action::CloseTab { window: id, pane }]
        },
{
    lemma_found(s.windows, id, 0);
}

/// A shell without a window leaves the panes that are kept, and pools that it leaves
/// empty go too; when nothing is left, and nobody asked to stay, the loop ends.
pub proof fn law_ended_shells_leave_the_pools(s: ProcessorState, id: u64, pane: u64)
    requires
        is_unknown(s.windows, id),
    ensures
        ({
            let left = s.detached.map_values(
                |p: Seq<u64>| p.filter(|x: u64| x != pane),
            ).filter(|p: Seq<u64>| p.len() > 0);
            let route = Route::ShellExit { id, pane: Some(pane) };
            &&& processor::after(s, route) == (ProcessorState { detached: left, ..s })
            &&& processor::actions(s, route) == if s.windows.len() == 0 && left.len() == 0
                && !s.daemon {
                seq![Action::ExitLoop]
            } else {
                Seq::empty()
            }
        }),
{
    lemma_found(s.windows, id, 0);
    lemma_reaped(s.detached, pane);
}

proof fn lemma_reaped(pools: Seq<Seq<u64>>, pane: u64)
    ensures
        processor::reaped(pools, Some(pane)) == pools.map_values(
            |p: Seq<u64>| p.filter(|x: u64| x != pane),
        ).filter(|p: Seq<u64>| p.len() > 0),
    decreases pools.len(),
{
    reveal(Seq::filter);
    let f = |p: Seq<u64>| p.filter(|x: u64| x != pane);
    let all = pools.map_values(f);
    assert(processor::other_than(pane) =~= |x: u64| x != pane);
    if pools.len() > 0 {
        lemma_reaped(pools.drop_last(), pane);
        assert(all.drop_last() =~= pools.drop_last().map_values(f));
        assert(all.last() == f(pools.last()));
    } else {
        assert(all =~= Seq::empty());
        assert(processor::reaped(pools, Some(pane)) =~= all.filter(|p: Seq<u64>| p.len() > 0));
    }
}

/// Options that are set for a window reach that window alone; those for all reach
/// every window and the ones to come.
pub proof fn law_options_reach_their_windows(s: ProcessorState, window: Option<u64>, reset: bool)
    ensures
        processor::actions(s, Route::IpcConfig { window, reset }) == s.windows.filter(
            |w: WindowState| window is None || window == Some(w.id),
        ).map_values(
            |w: WindowState|
                if reset {
                    Action::ResetConfig(w.id)
                } else {
                    Action::AddConfig(w.id)
                },
        ) + if window is Some {
            Seq::empty()
        } else if reset {
            seq![Action::ClearGlobalOptions]
        } else {
            seq![Action::AppendGlobalOptions]
        },
{
    lemma_config(s.windows, window, reset);
}

proof fn lemma_config(w: Seq<WindowState>, window: Option<u64>, reset: bool)
    ensures
        processor::config_actions(w, window, reset) == w.filter(
            |w: WindowState| window is None || window == Some(w.id),
        ).map_values(
            |w: WindowState|
                if reset {
                    Action::ResetConfig(w.id)
                } else {
                    Action::AddConfig(w.id)
                },
        ),
    decreases w.len(),
{
    reveal(Seq::filter);
    let keep = |w: WindowState| window is None || window == Some(w.id);
    let f = |w: WindowState|
        if reset {
            Action::ResetConfig(w.id)
        } else {
            Action::AddConfig(w.id)
        };
    if w.len() > 0 {
        lemma_config(w.drop_last(), window, reset);
        let before = w.drop_last().filter(keep);
        assert(before.push(w.last()).map_values(f) =~= before.map_values(f).push(f(w.last())));
    } else {
        assert(processor::config_actions(w, window, reset) =~= w.filter(keep).map_values(f));
    }
}

/// When the configuration is read anew, the messages about it leave the windows that
/// show any, which are then laid out again.
pub proof fn law_reloading_clears_messages(s: ProcessorState)
    ensures
        processor::actions(s, Route::ConfigReload) == s.windows.filter(
            |w: WindowState| w.has_messages,
        ).map_values(|w: WindowState| Action::RemoveConfigMessages(w.id)).push(Action::LoadConfig),
        processor::after(s, Route::ConfigReload).windows.len() == s.windows.len(),
        forall|i: int|
            0 <= i < s.windows.len() ==> #[trigger] processor::after(
                s,
                Route::ConfigReload,
            ).windows[i] == (WindowState {
                update_pending: s.windows[i].update_pending || s.windows[i].has_messages,
                ..s.windows[i]
            }),
{
    lemma_messages(s.windows);
}

proof fn lemma_messages(w: Seq<WindowState>)
    ensures
        processor::message_actions(w) == w.filter(|w: WindowState| w.has_messages).map_values(
            |w: WindowState| Action::RemoveConfigMessages(w.id),
        ),
    decreases w.len(),
{
    reveal(Seq::filter);
    let keep = |w: WindowState| w.has_messages;
    let f = |w: WindowState| Action::RemoveConfigMessages(w.id);
    if w.len() > 0 {
        lemma_messages(w.drop_last());
        let before = w.drop_last().filter(keep);
        assert(before.push(w.last()).map_values(f) =~= before.map_values(f).push(f(w.last())));
    } else {
        assert(processor::message_actions(w) =~= w.filter(keep).map_values(f));
    }
}

/// Attaching takes the panes that were kept last; where none are kept, the first
/// window of the session comes to the front, or a new one is made.
pub proof fn law_attaching_takes_the_last_kept(s: ProcessorState, kept: Seq<Seq<u64>>, p: Seq<u64>)
    ensures
        s.detached == kept.push(p) ==> processor::after(s, Route::Attach).detached == kept
            && processor::actions(s, Route::Attach) == seq![Action::AttachPanes],
        s.detached.len() == 0 ==> processor::after(s, Route::Attach) == s,
        s.detached.len() == 0 ==> forall|i: int|
            0 <= i < s.windows.len() && !(#[trigger] s.windows[i]).session_exempt && (forall|j: int|
                0 <= j < i ==> (#[trigger] s.windows[j]).session_exempt) ==> processor::actions(
                s,
                Route::Attach,
            ) == seq![Action::FocusWindow(s.windows[i].id)],
        s.detached.len() == 0 && (forall|j: int|
            0 <= j < s.windows.len() ==> (#[trigger] s.windows[j]).session_exempt)
            ==> processor::actions(s, Route::Attach) == if s.has_gl {
            seq![Action::CreateWindow]
        } else {
            Seq::empty()
        },
{
    if s.detached == kept.push(p) {
        assert(s.detached.drop_last() =~= kept);
    }
    lemma_regular(s.windows, 0);
}

proof fn lemma_regular(w: Seq<WindowState>, from: nat)
    requires
        from <= w.len(),
        forall|j: int| 0 <= j < from ==> (#[trigger] w[j]).session_exempt,
    ensures
        match processor::first_regular(w, from) {
            Some(id) => exists|i: int|
                0 <= i < w.len() && !(#[trigger] w[i]).session_exempt && w[i].id == id && (forall|
                    j: int,
                |
                    0 <= j < i ==> (#[trigger] w[j]).session_exempt),
            None => forall|j: int| 0 <= j < w.len() ==> (#[trigger] w[j]).session_exempt,
        },
    decreases w.len() - from,
{
    if from < w.len() && w[from as int].session_exempt {
        lemma_regular(w, from + 1);
    }
}

/// A toast leads to its window, or to the first where that is gone.
pub proof fn law_toasts_lead_to_a_window(s: ProcessorState, id: u64, i: int)
    ensures
        stands(s.windows, id, i) ==> processor::actions(s, Route::FocusWindow(Some(id))) == seq![
            Action::FocusFromToast(id),
        ],
        is_unknown(s.windows, id) && s.windows.len() > 0 ==> processor::actions(
            s,
            Route::FocusWindow(Some(id)),
        ) == seq![Action::FocusFromToast(s.windows[0].id)],
        s.windows.len() > 0 ==> processor::actions(s, Route::FocusWindow(None)) == seq![
            Action::FocusFromToast(s.windows[0].id),
        ],
        s.windows.len() == 0 ==> processor::actions(s, Route::FocusWindow(Some(id))).len() == 0,
{
    lemma_found(s.windows, id, 0);
}

/// Events that are for everybody reach each window, in order.
pub proof fn law_broadcasts_reach_everybody(s: ProcessorState)
    ensures
        processor::actions(s, Route::Broadcast) == s.windows.map_values(
            |w: WindowState| Action::HandleEvent(w.id),
        ),
        processor::actions(s, Route::AiHook) == s.windows.map_values(
            |w: WindowState| Action::OfferHook(w.id),
        ),
        processor::actions(s, Route::CreateWindow) == s.windows.map_values(
            |w: WindowState| Action::MakeNotCurrent(w.id),
        ).push(
            if s.has_gl {
                Action::CreateWindow
            } else {
                Action::CreateInitialWindow
            },
        ),
        processor::actions(s, Route::Shutdown) == seq![Action::ExitLoop],
{
    assert(processor::actions(s, Route::Broadcast) =~= s.windows.map_values(
        |w: WindowState| Action::HandleEvent(w.id),
    ));
    assert(processor::actions(s, Route::AiHook) =~= s.windows.map_values(
        |w: WindowState| Action::OfferHook(w.id),
    ));
    assert(processor::for_each(s.windows, |id: u64| Action::MakeNotCurrent(id))
        =~= s.windows.map_values(|w: WindowState| Action::MakeNotCurrent(w.id)));
}

/// A window that loses its last tab goes, and the windows that stay save the session
/// anew where the one that went took part in it; one with tabs left is drawn.
pub proof fn law_windows_close_with_their_last_tab(
    s: ProcessorState,
    id: u64,
    i: int,
    ref_test: bool,
)
    requires
        stands(s.windows, id, i),
    ensures
        processor::after_tab_closed(s, id, false) == (ProcessorState {
            windows: s.windows.update(i, WindowState { dirty: true, ..s.windows[i] }),
            ..s
        }),
        processor::tab_closed_actions(s, id, false, ref_test) == seq![Action::RequestRedraw(id)],
        s.windows[i].session_exempt ==> processor::after_tab_closed(s, id, true) == (
        ProcessorState { windows: s.windows.remove(i), ..s }),
        !s.windows[i].session_exempt ==> processor::after_tab_closed(s, id, true) == (
        ProcessorState {
            windows: s.windows.remove(i).map_values(
                |w: WindowState| WindowState { session_dirty: true, ..w },
            ),
            ..s
        }),
        processor::tab_closed_actions(s, id, true, ref_test) == seq![
            Action::UnscheduleWindow(id),
        ] + if s.windows.len() > 1 || s.detached.len() > 0 || s.daemon {
            Seq::empty()
        } else if ref_test {
            seq![Action::WriteRefTests(id), Action::ExitLoop]
        } else {
            seq![Action::ExitLoop]
        },
{
    lemma_found(s.windows, id, 0);
    let rest = s.windows.remove(i);
    assert(rest.map_values(|x: WindowState| processor::reclaimed(x)) =~= rest.map_values(
        |w: WindowState| WindowState { session_dirty: true, ..w },
    ));
    assert(seq![Action::WriteRefTests(id)] + seq![Action::ExitLoop] =~= seq![
        Action::WriteRefTests(id),
        Action::ExitLoop,
    ]);
    assert(Seq::<Action>::empty() + seq![Action::ExitLoop] =~= seq![Action::ExitLoop]);
}

/// The panes of a window that closes are kept exactly where any are alive and the
/// window takes part in a session that is to be kept.
pub proof fn law_live_panes_are_kept(s: ProcessorState, id: u64, i: int, live: Seq<u64>)
    requires
        stands(s.windows, id, i),
    ensures
        ({
            let keeps = live.len() > 0 && !s.windows[i].session_exempt && s.windows[i].keep_session;
            let idle = s.windows.len() == 1 && s.detached.len() == 0 && !keeps;
            &&& processor::after_tab_request(s, id, true, live).detached == if keeps {
                s.detached.push(live)
            } else {
                s.detached
            }
            &&& processor::after_tab_request(s, id, true, live).windows.len() == s.windows.len() - 1
            &&& processor::tab_request_actions(s, id, true, live) == if keeps {
                seq![Action::DetachPanes(id)]
            } else if idle {
                seq![Action::ExitLoop]
            } else {
                Seq::empty()
            }
        }),
{
    lemma_found(s.windows, id, 0);
    let a = processor::tab_request_actions(s, id, true, live);
    assert(seq![Action::DetachPanes(id)] + Seq::empty() =~= seq![Action::DetachPanes(id)]);
    assert(Seq::<Action>::empty() + seq![Action::ExitLoop] =~= seq![Action::ExitLoop]);
    assert(Seq::<Action>::empty() + Seq::<Action>::empty() =~= Seq::empty());
}

/// A window that is opened stands behind the others, or in place of the one that had
/// its id.
pub proof fn law_windows_open_behind_the_others(s: ProcessorState, w: WindowState, i: int)
    ensures
        is_unknown(s.windows, w.id) ==> processor::with_window(s, w).windows == s.windows.push(w),
        stands(s.windows, w.id, i) ==> processor::with_window(s, w).windows == s.windows.update(
            i,
            w,
        ),
        processor::with_window(s, w).has_gl,
        processor::with_window(s, w).detached == s.detached,
{
    lemma_found(s.windows, w.id, 0);
}

/// Only events that name no window go to all of them.
pub proof fn law_named_windows_are_addressed(e: Event, id: u64)
    ensures
        processor::route_of(e) is Broadcast ==> e.window_id is None,
        processor::route_of(e) matches Route::Forward(k) ==> e.window_id == Some(k),
        e.payload is Scroll || e.payload is Message || e.payload is SearchNext || e.payload
            is BlinkCursor || e.payload is BlinkCursorTimeout ==> processor::route_of(e) == match e.window_id {
            Some(k) => Route::Forward(k),
            None => Route::Broadcast,
        },
        e.payload is Frame && e.window_id == Some(id) ==> processor::route_of(e) == Route::Frame(id),
        e.payload is NebulaTick && e.window_id == Some(id) ==> processor::route_of(e)
            == Route::Tick(id),
        e.payload is NebulaTab && e.window_id == Some(id) ==> processor::route_of(e) == Route::Tab(
            id,
        ),
        e.payload is NebulaAttach ==> processor::route_of(e) is Attach,
        e.payload is Shutdown ==> processor::route_of(e) is Shutdown,
        e.payload is ConfigReload ==> processor::route_of(e) is ConfigReload,
        e.payload is CreateWindow ==> processor::route_of(e) is CreateWindow,
        e.payload is AiHook ==> processor::route_of(e) is AiHook,
        e.payload matches EventType::IpcConfig { reset } ==> processor::route_of(e)
            == (Route::IpcConfig { window: e.window_id, reset }),
{
}

/// The quick terminal slides in where it is hidden and out where it is seen; where
/// it has no window one is made. A slide ends where it went to.
pub proof fn law_quick_terminal_slides(q: QuickTerminal, id: u64)
    ensures
        q.window == Some(id) && q.visible ==> quick::toggle_step(q, true, true)
            == QuickStep::SlideOut(id) && quick::toggled(q, true) == (QuickTerminal {
            window: Some(id),
            visible: false,
            sliding_in: Some(false),
        }),
        q.window == Some(id) && !q.visible ==> quick::toggle_step(q, true, true)
            == QuickStep::SlideIn(id) && quick::toggled(q, true) == (QuickTerminal {
            window: Some(id),
            visible: true,
            sliding_in: Some(true),
        }),
        quick::toggle_step(q, false, true) is Create,
        quick::toggle_step(q, false, false) is Rest,
        quick::toggled(q, false).window is None,
        q.window == Some(id) && q.sliding_in == Some(true) ==> quick::slide_step(q, true)
            == SlideStep::Arrive(id),
        q.window == Some(id) && q.sliding_in == Some(false) ==> quick::slide_step(q, true)
            == SlideStep::Hide(id),
        q.window == Some(id) && q.sliding_in is Some ==> quick::slide_step(q, false)
            == SlideStep::Slide(id) && quick::slid(q, false) == q,
        q.sliding_in is None ==> quick::slide_step(q, true) is Idle,
        quick::slid(q, true).sliding_in is None,
{
}

/// The highlighted cells are those that carry a highlighted hint, in their order.
pub proof fn law_highlighted_cells_carry_the_hint(h: HintHighlights, cells: Seq<CellState>)
    requires
        cells.len() <= usize::MAX,
    ensures
        ({
            let at = hints::highlighted_at(h, cells);
            &&& forall|k: int, l: int| 0 <= k < l < at.len() ==> #[trigger] at[k] < #[trigger] at[l]
            &&& forall|i: usize| #[trigger]
                at.contains(i) <==> i < cells.len() && ((h.mouse matches Some(m)
                    && cells[i as int].hints.contains(m)) || (h.vi matches Some(m)
                    && cells[i as int].hints.contains(m)))
        }),
    decreases cells.len(),
{
    let at = hints::highlighted_at(h, cells);
    if cells.len() > 0 {
        let front = cells.drop_last();
        let before = hints::highlighted_at(h, front);
        law_highlighted_cells_carry_the_hint(h, front);
        let n = (cells.len() - 1) as usize;
        assert forall|k: int| 0 <= k < before.len() implies #[trigger] before[k] < n by {
            assert(before.contains(before[k]));
        }
        assert forall|i: usize| #[trigger]
            at.contains(i) <==> i < cells.len() && ((h.mouse matches Some(m)
                && cells[i as int].hints.contains(m)) || (h.vi matches Some(m)
                && cells[i as int].hints.contains(m))) by {
            if i < n {
                assert(front[i as int] == cells[i as int]);
                assert(before.contains(i) == at.contains(i)) by {
                    if before.contains(i) {
                        let k = choose|k: int| 0 <= k < before.len() && before[k] == i;
                        assert(at[k] == i);
                    }
                    if at.contains(i) {
                        let k = choose|k: int| 0 <= k < at.len() && at[k] == i;
                        assert(before[k] == i);
                    }
                }
            } else if i == n {
                if hints::is_highlighted(h, cells.last()) {
                    assert(at[before.len() as int] == n);
                } else {
                    assert(!before.contains(i));
                }
            } else {
                if at.contains(i) {
                    let k = choose|k: int| 0 <= k < at.len() && at[k] == i;
                    if k < before.len() {
                        assert(before[k] < n);
                    }
                }
            }
        }
    }
}

/// The parts of a hint that are out of view count as the first or last cell in it.
pub proof fn law_hints_are_cut_to_the_view(b: HintBounds, c: ViewCell, lines: usize, columns: usize)
    requires
        lines > 0,
        columns > 0,
    ensures
        b.start == Some(c) && c.line < lines ==> hints::start_in_view(b, lines) == c,
        b.end == Some(c) && c.line < lines ==> hints::end_in_view(b, lines, columns) == c,
        b.start is None || b.start->0.line >= lines ==> hints::start_in_view(b, lines) == (ViewCell {
            line: 0,
            column: 0,
        }),
        b.end is None || b.end->0.line >= lines ==> hints::end_in_view(b, lines, columns) == (
        ViewCell { line: (lines - 1) as usize, column: (columns - 1) as usize }),
{
}

/// A hint that changes is drawn, and so is one that moves to another line; the
/// pointer shows that the mouse is on one, and changes back when it leaves it.
pub proof fn law_hints_follow_the_mouse(h: HintHighlights, s: HintSources)
    ensures
        hints::updated(h, s).vi == s.vi,
        s.follows_mouse ==> hints::updated(h, s).mouse == s.mouse,
        !s.follows_mouse ==> hints::updated(h, s).mouse is None,
        hints::update_of(h, s).damaged <==> hints::updated(h, s).mouse != h.mouse || s.vi != h.vi,
        s.follows_mouse && s.mouse is Some ==> hints::update_of(h, s).cursor is Pointer
            && hints::updated(h, s).mouse_line == Some(s.line),
        s.follows_mouse && s.mouse is None && h.mouse is Some ==> hints::update_of(h, s).cursor
            is Arrow,
        s.follows_mouse && s.mouse is None && h.mouse is None ==> hints::update_of(h, s).cursor
            is Keep,
        s.follows_mouse && s.mouse is Some && h.mouse_line is Some && h.mouse_line != Some(s.line)
            ==> hints::update_of(h, s).dirty,
{
}

/// A highlighted hint grows older with each frame, and is given up when it is drawn
/// over after its first.
pub proof fn law_old_hints_are_given_up(hint: Hint, age: usize)
    ensures
        hints::aged(Some(hint), age, false) == (Some(hint), age + 1),
        age > 0 ==> hints::aged(Some(hint), age, true) == (None::<Hint>, age + 1),
        age == 0 ==> hints::aged(Some(hint), age, true) == (Some(hint), age + 1),
        hints::aged(None, age, true) == (None::<Hint>, age as int),
        hints::is_lost(Some(hint), age, true) <==> age > 0,
        !hints::is_lost(Some(hint), age, false),
        !hints::is_lost(None, age, true),
{
}

/// Only the hot key that is registered toggles the quick terminal, and only when it
/// is pressed.
pub proof fn law_hot_keys_toggle(front: Seq<HotKeyEvent>, e: HotKeyEvent, hotkey: u32)
    ensures
        quick::is_toggled_by(front.push(e), Some(hotkey)) <==> quick::is_toggled_by(
            front,
            Some(hotkey),
        ) || (e.pressed && e.id == hotkey),
        !quick::is_toggled_by(Seq::empty(), Some(hotkey)),
        !quick::is_toggled_by(front, None),
{
    let all = front.push(e);
    if e.pressed && e.id == hotkey {
        assert(all[front.len() as int] == e);
    }
    if quick::is_toggled_by(front, Some(hotkey)) {
        let i = choose|i: int|
            0 <= i < front.len() && (#[trigger] front[i]).pressed && Some(hotkey) == Some(
                front[i].id,
            );
        assert(all[i] == front[i]);
    }
    if quick::is_toggled_by(all, Some(hotkey)) {
        let i = choose|i: int|
            0 <= i < all.len() && (#[trigger] all[i]).pressed && Some(hotkey) == Some(all[i].id);
        if i < front.len() {
            assert(front[i] == all[i]);
        }
    }
}

/// Windows that are known get their events, redraws after the rest; made-up keys and
/// events that mean nothing here are ignored.
pub proof fn law_known_windows_get_events(synthetic: bool)
    ensures
        window::window_event_step(WindowEventKind::RedrawRequested, true) is HandleAndDraw,
        window::window_event_step(WindowEventKind::Other, true) is Handle,
        window::window_event_step(
            WindowEventKind::KeyboardInput { is_synthetic: synthetic },
            true,
        ) is Handle <==> !synthetic,
        forall|e: WindowEventKind| #[trigger] window::window_event_step(e, false) is Ignore,
        forall|e: WindowEventKind|
            #![trigger window::window_event_step(e, true)]
            !(e is RedrawRequested) && !(e is Other) && !(e is KeyboardInput)
                ==> window::window_event_step(e, true) is Ignore,
{
}

} // verus!
