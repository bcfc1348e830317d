//! What keys, focus and reports of the terminal do.

use vstd::prelude::*;

use crate::display::frame;
use crate::display::frame::{FrameTimer, ResizeState, UpdateInput};
use crate::display::overlay::Preedit;
use crate::display::pane;
use crate::display::pane::{NebulaInlineImage, PaneState};
use crate::display::side_panel::panel::PanelState;
use crate::display::tabs::TabState;
use crate::event::handle;
use crate::event::handle::{EventState, EventStep, HandledEvent};
use crate::event::paste;
use crate::event::paste::{InputFocus, Paste, TextTarget};
use crate::event::terminal;
use crate::event::terminal::Report;
use crate::event::window;
use crate::event::window::{BlinkSources, BlinkStep, TypingStep, WindowFlags};
use crate::text;
use crate::unicode;

verus! {

/// The cursor blinks where its style says so, or else the terminal; the style of vi
/// mode counts there, where it has one. It does not while it is hidden outside vi
/// mode, nor while something is composed.
pub proof fn law_styles_decide_about_blinking(b: BlinkSources)
    ensures
        b.composing ==> !window::blinks(b),
        !b.vi_mode && !b.shows_cursor ==> !window::blinks(b),
        !b.vi_mode && b.shows_cursor && !b.composing && b.style is Some ==> window::blinks(b)
            == b.style->0,
        !b.vi_mode && b.shows_cursor && !b.composing && b.style is None ==> window::blinks(b)
            == b.terminal,
        b.vi_mode && !b.composing && b.has_vi_style && b.vi_style is Some ==> window::blinks(b)
            == b.vi_style->0,
        b.vi_mode && !b.composing && b.has_vi_style && b.vi_style is None ==> window::blinks(b)
            == b.terminal,
        b.vi_mode && !b.composing && !b.has_vi_style && b.style is Some ==> window::blinks(b)
            == b.style->0,
{
}

/// Only a window with the focus blinks, without end where there is no timeout; one
/// that stops shows its cursor.
pub proof fn law_focused_windows_blink(w: WindowFlags, b: BlinkSources)
    ensures
        window::blinks(b) && w.is_focused && b.timeout == 0 ==> window::blink_step(w, b)
            == (BlinkStep::Start { timeout: None }),
        window::blinks(b) && w.is_focused && b.timeout > 0 ==> window::blink_step(w, b)
            == (BlinkStep::Start { timeout: Some(b.timeout) }),
        !(window::blinks(b) && w.is_focused) ==> window::blink_step(w, b) is Stop
            && !window::blinking_updated(w, b).cursor_hidden && window::blinking_updated(w, b).dirty,
        !window::blinking_updated(w, b).blink_timed_out,
{
}

/// Typing shows the cursor, and hides the mouse where that is wanted.
pub proof fn law_typing_shows_the_cursor(
    w: WindowFlags,
    b: BlinkSources,
    blinking: bool,
    hide: bool,
)
    ensures
        blinking ==> !window::typing_started(w, b, blinking, hide).cursor_hidden,
        blinking && w.cursor_hidden ==> window::typing_started(w, b, blinking, hide).dirty,
        hide ==> !window::typing_started(w, b, blinking, hide).mouse_visible,
        !hide ==> window::typing_started(w, b, blinking, hide).mouse_visible == w.mouse_visible,
        w.is_focused == window::typing_started(w, b, blinking, hide).is_focused,
{
}

/// A window that gets the focus is drawn; it is seen then, and a frame is due.
pub proof fn law_focus_draws_the_window(w: WindowFlags)
    ensures
        window::focus_flags(w, true) == (WindowFlags {
            is_focused: true,
            dirty: true,
            occluded: false,
            has_frame: true,
            ..w
        }),
        window::focus_flags(w, false) == (WindowFlags { is_focused: false, dirty: true, ..w }),
{
}

/// Windows are resized only to sizes that they can have.
pub proof fn law_tiny_windows_are_not_resized(s: EventState, width: u32, height: u32)
    ensures
        width < 100 || height < 100 ==> handle::plain_step_of(
            s,
            HandledEvent::Resized { width, height },
        ) is Rest,
        width >= 100 && height >= 100 ==> handle::plain_step_of(
            s,
            HandledEvent::Resized { width, height },
        ) == (EventStep::Resize { width, height }),
{
}

/// Programs reach the clipboard only through the window with the focus.
pub proof fn law_clipboard_needs_the_focus(s: EventState)
    ensures
        handle::plain_step_of(s, HandledEvent::ClipboardStore) is StoreClipboard
            <==> s.flags.is_focused,
        handle::plain_step_of(s, HandledEvent::ClipboardLoad) is LoadClipboard
            <==> s.flags.is_focused,
        !s.flags.is_focused ==> handle::plain_step_of(s, HandledEvent::ClipboardStore) is Rest
            && handle::plain_step_of(s, HandledEvent::ClipboardLoad) is Rest,
{
}

/// Keys that the system makes up are not typed; a key that is pressed hides the
/// mouse where that is wanted, and the mouse shows itself again.
pub proof fn law_made_up_keys_are_ignored(s: EventState, synthetic: bool, pressed: bool)
    ensures
        handle::plain_step_of(
            s,
            HandledEvent::KeyboardInput { is_synthetic: synthetic, pressed },
        ) is Key <==> !synthetic,
        handle::flags_after(
            s,
            HandledEvent::KeyboardInput { is_synthetic: synthetic, pressed },
        ).mouse_visible <==> s.flags.mouse_visible && (synthetic || !pressed
            || !s.hide_when_typing),
        handle::flags_after(s, HandledEvent::CursorMoved).mouse_visible,
        handle::flags_after(s, HandledEvent::MouseInput).mouse_visible,
        handle::flags_after(s, HandledEvent::MouseWheel).mouse_visible,
{
}

/// Each blink turns the cursor on or off, until it timed out; then it stays on.
pub proof fn law_blinks_turn_the_cursor(s: EventState)
    ensures
        !s.flags.blink_timed_out ==> handle::flags_after(
            s,
            HandledEvent::BlinkCursor,
        ).cursor_hidden == !s.flags.cursor_hidden,
        s.flags.blink_timed_out ==> handle::flags_after(s, HandledEvent::BlinkCursor) == s.flags,
        !handle::flags_after(s, HandledEvent::BlinkCursorTimeout).cursor_hidden,
        handle::flags_after(s, HandledEvent::BlinkCursorTimeout).blink_timed_out,
{
}

/// Text goes to the name that is edited, else to the search of the panel, else to
/// the commit message, and otherwise to the shell.
pub proof fn law_text_goes_where_it_is_typed(t: TabState, p: PanelState, s: Seq<char>)
    ensures
        t.rename is Some ==> window::target_of(t, p, s) is TabRename,
        t.rename is None && p.search_focus ==> window::target_of(t, p, s) is PanelSearch,
        t.rename is None && !p.search_focus && p.commit_focus ==> window::target_of(t, p, s)
            is CommitMessage,
        t.rename is None && !p.search_focus && !p.commit_focus ==> window::target_of(t, p, s)
            == (TextTarget::Shell { bracketed: s.len() >= 2 }),
{
}

/// A paste goes to the search that is open, and else to the shell; the line that is
/// kept grows by a plain paste, and is given up where the paste holds control
/// characters.
pub proof fn law_pastes_reach_the_shell(
    r: Paste,
    focus: InputFocus,
    s: Seq<char>,
    mode: bool,
    before: PaneState,
    after: PaneState,
)
    requires
        paste::is_pasted(r, focus, s, true, mode, before, after),
    ensures
        focus.search_active ==> r is Search && after == before,
        !focus.search_active && focus.char_pending ==> r is InlineSearch && after == before,
        !focus.search_active && !focus.char_pending ==> {
            &&& r matches Paste::Write(w) && w@ == paste::payload(s, true, mode)
            &&& (forall|i: int| 0 <= i < s.len() ==> !unicode::control(#[trigger] s[i]))
                ==> after.line_buf == before.line_buf + s
            &&& !mode && s.contains('\n') ==> after.line_buf.len() == 0
        },
{
    if !focus.search_active && !focus.char_pending {
        let line = paste::inserted(s, true, mode);
        if forall|i: int| 0 <= i < s.len() ==> !unicode::control(#[trigger] s[i]) {
            lemma_plain(s);
            assert(line == s);
            assert(pane::is_plain_paste(line));
        }
        if !mode && s.contains('\n') {
            lemma_keyed_breaks(s);
            let k = choose|k: int| 0 <= k < line.len() && line[k] == '\r';
            assert(unicode::control('\r'));
            assert(!pane::is_plain_paste(line));
        }
    }
}

proof fn lemma_plain(s: Seq<char>)
    requires
        forall|i: int| 0 <= i < s.len() ==> !unicode::control(#[trigger] s[i]),
    ensures
        paste::unbreaking(s) == s,
        paste::keyed(s) == s,
    decreases s.len(),
{
    assert(unicode::control('\x1b') && unicode::control('\x03') && unicode::control('\r')
        && unicode::control('\n'));
    if s.len() > 0 {
        let (a, b) = (s.drop_last(), s.skip(1));
        assert(!unicode::control(s[s.len() - 1]) && !unicode::control(s[0]));
        assert forall|i: int| 0 <= i < a.len() implies !unicode::control(#[trigger] a[i]) by {
            assert(!unicode::control(s[i]));
        }
        assert forall|i: int| 0 <= i < b.len() implies !unicode::control(#[trigger] b[i]) by {
            assert(!unicode::control(s[i + 1]));
        }
        lemma_plain(a);
        lemma_plain(b);
        assert(a.push(s.last()) =~= s);
        assert(seq![s[0]] + b =~= s);
    }
}

proof fn lemma_keyed_breaks(s: Seq<char>)
    requires
        s.contains('\n'),
    ensures
        exists|k: int| 0 <= k < paste::keyed(s).len() && paste::keyed(s)[k] == '\r',
    decreases s.len(),
{
    let line = paste::keyed(s);
    if s[0] == '\n' || s[0] == '\r' {
        assert(line[0] == '\r');
    } else {
        let rest = s.skip(1);
        let i = choose|i: int| 0 <= i < s.len() && s[i] == '\n';
        assert(rest[i - 1] == '\n');
        lemma_keyed_breaks(rest);
        let k = choose|k: int| 0 <= k < paste::keyed(rest).len() && paste::keyed(rest)[k] == '\r';
        assert(line[k + 1] == '\r');
    }
}

/// The question about a paste names its lines, at least two of them.
pub proof fn law_questions_count_the_lines(s: Seq<char>)
    ensures
        paste::named_lines(s) >= 2,
        paste::named_lines(s) >= text::lines(s).len(),
        paste::named_lines(s) == 2 || paste::named_lines(s) == text::lines(s).len(),
{
}

/// A report tells the directory and the branch of a pane; the program changes only
/// where one is told, and an empty one ends it.
pub proof fn law_reports_reach_the_pane(p: PaneState, cwd: Seq<char>, branch: Seq<char>, name: Seq<char>)
    ensures
        terminal::reported(p, Report { cwd, branch, program: None }) == (PaneState {
            cwd,
            branch,
            ..p
        }),
        terminal::reported(p, Report { cwd, branch, program: Some(name) }) == (PaneState {
            cwd,
            branch,
            running_program: if name.len() == 0 {
                None
            } else {
                Some(name)
            },
            ..p
        }),
        terminal::is_report("NEBULA|"@ + cwd),
{
    let t = "NEBULA|"@ + cwd;
    assert(t.subrange(0, "NEBULA|"@.len() as int) =~= "NEBULA|"@);
}

/// Sixteen images are kept, the newest ones, in their order.
pub proof fn law_sixteen_images_are_kept(images: Seq<NebulaInlineImage>, image: NebulaInlineImage)
    requires
        images.len() <= 16,
    ensures
        images.len() < 16 ==> terminal::with_image(images, image) == images.push(image),
        images.len() == 16 ==> terminal::with_image(images, image) == images.skip(1).push(image),
{
    if images.len() == 16 {
        assert(images.push(image).remove(0) =~= images.skip(1).push(image));
    }
}

/// A command ran long where at least the time that counts went by.
pub proof fn law_long_commands_are_noticed(started: u64, now: u64, least: u64)
    ensures
        started <= now ==> (terminal::ran_long(Some(started), now, least) <==> now - started
            >= least),
        started > now ==> (terminal::ran_long(Some(started), now, least) <==> least == 0),
        !terminal::ran_long(None, now, least),
        started <= now ==> terminal::since(started, now) == now - started,
{
}

/// A resize is shown where it changes the grid, from the second time on, and waits
/// to be told to the shell. What the renderer has to do adds up.
pub proof fn law_resizes_are_shown(s: ResizeState, u: UpdateInput)
    ensures
        ({
            let changes = u.old_lines != u.new_lines || u.old_columns != u.new_columns;
            let after = frame::updated(s, u);
            &&& after.pty_resize_pending <==> s.pty_resize_pending || changes
            &&& after.hud_armed <==> s.hud_armed || changes
            &&& changes && s.hud_armed ==> after.hud == Some((u.new_columns, u.new_lines, u.now))
            &&& !changes || !s.hud_armed ==> after.hud == s.hud
            &&& !u.font_changed && !u.cursor_dirty && !u.size_changed ==> after.renderer_update
                == s.renderer_update
            &&& u.size_changed ==> after.renderer_update is Some && after.renderer_update->0.resize
            &&& u.font_changed || u.cursor_dirty ==> after.renderer_update is Some
                && after.renderer_update->0.clear_font_cache
            &&& s.renderer_update is Some && s.renderer_update->0.resize
                ==> after.renderer_update->0.resize
            &&& s.renderer_update is Some && s.renderer_update->0.clear_font_cache
                ==> after.renderer_update->0.clear_font_cache
        }),
{
}

/// Frames keep the beat: the next one comes an interval after the last, at once
/// where that has passed, and a new interval begins a new beat.
pub proof fn law_frames_keep_the_beat(t: FrameTimer, now: u64, interval: u64)
    ensures
        t.refresh_interval != interval ==> frame::timeout_of(t, now, interval) == interval
            && frame::synced(t, now, interval) == (FrameTimer {
            base: now,
            last_synced_timestamp: now,
            refresh_interval: interval,
        }),
        t.refresh_interval == interval && t.last_synced_timestamp + interval < now
            ==> frame::timeout_of(t, now, interval) == 0,
        t.refresh_interval == interval && now <= t.last_synced_timestamp + interval <= u64::MAX
            ==> now + frame::timeout_of(t, now, interval) == t.last_synced_timestamp + interval
            && frame::synced(t, now, interval).last_synced_timestamp == t.last_synced_timestamp
            + interval,
{
}

/// Lines that are taken from the grid leave the others, and at least one.
pub proof fn law_taken_lines_leave_the_others(lines: nat, count: nat)
    ensures
        count < lines ==> frame::lines_left(lines, count) + count == lines,
        count >= lines ==> frame::lines_left(lines, count) == 1,
{
}

/// A mouse that leaves the window lets go of what it was on, which is drawn again.
pub proof fn law_leaving_lets_go(s: EventState)
    ensures
        ({
            let after = handle::plainly_handled(s, HandledEvent::CursorLeft);
            &&& !after.inside_text_area
            &&& after.hover is Outside
            &&& !after.settings_hovered
            &&& after.update_pending <==> s.update_pending || !(s.hover is Outside)
                || s.settings_hovered
            &&& after.flags.dirty <==> s.flags.dirty || s.hint_lit
        }),
{
}

/// A window that is seen again is drawn; a message that is not queued yet is shown;
/// closing gives up what is held.
pub proof fn law_windows_are_drawn_again(s: EventState, queued: bool)
    ensures
        handle::plainly_handled(s, HandledEvent::Occluded(false)).flags.dirty,
        !handle::plainly_handled(s, HandledEvent::Occluded(false)).flags.occluded,
        handle::plainly_handled(s, HandledEvent::Occluded(true)).flags.dirty == s.flags.dirty,
        handle::plainly_handled(s, HandledEvent::Occluded(true)).flags.occluded,
        handle::plainly_handled(s, HandledEvent::Message { queued }).update_pending
            <==> s.update_pending || !queued,
        handle::plain_step_of(s, HandledEvent::Message { queued }) is PushMessage <==> !queued,
        !handle::plainly_handled(s, HandledEvent::CloseRequested).flags.hold,
        handle::plain_step_of(s, HandledEvent::ResetTitle) is SetDefaultTitle
            <==> s.dynamic_title && !s.preserve_title,
{
}

/// Composing what is composed already changes nothing; anything else is drawn, and
/// the cursor rests while something is composed.
pub proof fn law_composing_rests_the_cursor(
    s: EventState,
    composed: Option<Preedit>,
    typed: String,
    cursor: Option<(usize, usize)>,
    b: BlinkSources,
)
    ensures
        ({
            let event = HandledEvent::ImePreedit(typed, cursor);
            let same = (typed@.len() == 0 && composed is None) || (typed@.len() > 0
                && handle::is_composed(composed, typed@, cursor));
            &&& same ==> handle::handled(s, composed, event, b) == s && handle::step_of(
                s,
                composed,
                event,
                b,
            ) is Rest
            &&& !same ==> handle::handled(s, composed, event, b).flags.dirty
            &&& !same && typed@.len() > 0 ==> handle::step_of(s, composed, event, b)
                == EventStep::Blink(BlinkStep::Stop) && !handle::handled(
                s,
                composed,
                event,
                b,
            ).flags.cursor_hidden
            &&& handle::is_composed(composed, typed@, cursor) && typed@.len() > 0 ==> composed
                is Some && composed->0.text@ == typed@ && composed->0.cursor_byte_offset == cursor
        }),
{
}

/// Typing lets the cursor begin its blink anew, and wakes one that timed out.
pub proof fn law_typing_wakes_the_cursor(w: WindowFlags, b: BlinkSources, blinking: bool)
    ensures
        blinking ==> window::typing_step(w, b, blinking) is Restart,
        !blinking && w.blink_timed_out ==> window::typing_step(w, b, blinking)
            == TypingStep::Update(window::blink_step(w, b)),
        !blinking && !w.blink_timed_out ==> window::typing_step(w, b, blinking) is Keep,
{
}

/// Giving up a rename leaves the tabs as they are.
pub proof fn law_given_up_names_change_nothing(t: TabState)
    ensures
        window::unrenamed(t).rename is None,
        window::unrenamed(t).labels == t.labels,
        window::unrenamed(t).active == t.active,
        t.rename is None ==> window::unrenamed(t) == t,
{
}

} // verus!
