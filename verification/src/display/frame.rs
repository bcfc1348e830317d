//! Frame timing, pending updates, and the sizes that a resize changes.

use vstd::prelude::*;

verus! {

/// Fewest lines of a terminal.
pub const MIN_SCREEN_LINES: usize = 1;

/// Whether a caret that blinks is in its visible phase: half a second on, half a
/// second off.
pub fn caret_blink_on(millis: u128) -> (r: bool)
    ensures
        r == ((millis / 500) % 2 == 0),
{
    (millis / 500) % 2 == 0
}

/// Terminal size info.
#[derive(Debug, Copy, Clone, PartialEq, Eq)]
pub struct SizeInfo<T> {
    /// Terminal window width.
    pub width: T,
    /// Terminal window height.
    pub height: T,
    /// Width of individual cell.
    pub cell_width: T,
    /// Height of individual cell.
    pub cell_height: T,
    /// Horizontal window padding on the left. Doubles as the grid's left
    /// origin everywhere, so the sidebar makes itself room simply by inflating
    /// this.
    pub padding_x: T,
    /// Horizontal window padding on the right.
    pub padding_right: T,
    /// Vertical window padding.
    pub padding_y: T,
    /// Number of lines in the viewport.
    pub screen_lines: usize,
    /// Number of columns in the viewport.
    pub columns: usize,
}

/// Lines that are left of a viewport when some are reserved.
pub open spec fn lines_left(screen_lines: nat, count: nat) -> nat {
    if count < screen_lines {
        (screen_lines - count) as nat
    } else {
        MIN_SCREEN_LINES as nat
    }
}

impl<T: Copy> SizeInfo<T> {
    pub fn width(&self) -> (r: T)
        ensures
            r == self.width,
    {
        self.width
    }

    pub fn height(&self) -> (r: T)
        ensures
            r == self.height,
    {
        self.height
    }

    pub fn cell_width(&self) -> (r: T)
        ensures
            r == self.cell_width,
    {
        self.cell_width
    }

    pub fn cell_height(&self) -> (r: T)
        ensures
            r == self.cell_height,
    {
        self.cell_height
    }

    pub fn padding_x(&self) -> (r: T)
        ensures
            r == self.padding_x,
    {
        self.padding_x
    }

    pub fn padding_right(&self) -> (r: T)
        ensures
            r == self.padding_right,
    {
        self.padding_right
    }

    pub fn padding_y(&self) -> (r: T)
        ensures
            r == self.padding_y,
    {
        self.padding_y
    }

    /// Takes lines off the viewport, for a message or the search bar.
    pub fn reserve_lines(&mut self, count: usize)
        ensures
            final(self).screen_lines == lines_left(old(self).screen_lines as nat, count as nat),
            final(self).columns == old(self).columns,
            final(self).width == old(self).width,
            final(self).height == old(self).height,
            final(self).cell_width == old(self).cell_width,
            final(self).cell_height == old(self).cell_height,
            final(self).padding_x == old(self).padding_x,
            final(self).padding_right == old(self).padding_right,
            final(self).padding_y == old(self).padding_y,
    {
        self.screen_lines = if count < self.screen_lines {
            self.screen_lines - count
        } else {
            MIN_SCREEN_LINES
        };
    }
}

/// Updates of the display that wait to be processed. `F` is a font.
#[derive(Debug)]
pub struct DisplayUpdate<F> {
    pub dirty: bool,
    pub dimensions: Option<(u32, u32)>,
    pub cursor_dirty: bool,
    pub font: Option<F>,
}

impl<F> DisplayUpdate<F> {
    /// Nothing to update.
    pub fn new() -> (r: Self)
        ensures
            !r.dirty,
            r.dimensions is None,
            !r.cursor_dirty,
            r.font is None,
    {
        DisplayUpdate { dirty: false, dimensions: None, cursor_dirty: false, font: None }
    }

    pub fn dimensions(&self) -> (r: Option<(u32, u32)>)
        ensures
            r == self.dimensions,
    {
        self.dimensions
    }

    pub fn font(&self) -> (r: Option<&F>)
        ensures
            match r {
                Some(f) => self.font == Some(*f),
                None => self.font is None,
            },
    {
        self.font.as_ref()
    }

    pub fn cursor_dirty(&self) -> (r: bool)
        ensures
            r == self.cursor_dirty,
    {
        self.cursor_dirty
    }

    pub fn set_dimensions(&mut self, dimensions: (u32, u32))
        ensures
            final(self).dimensions == Some(dimensions),
            final(self).dirty,
            final(self).cursor_dirty == old(self).cursor_dirty,
            final(self).font == old(self).font,
    {
        self.dimensions = Some(dimensions);
        self.dirty = true;
    }

    pub fn set_font(&mut self, font: F)
        ensures
            final(self).font == Some(font),
            final(self).dirty,
            final(self).cursor_dirty == old(self).cursor_dirty,
            final(self).dimensions == old(self).dimensions,
    {
        self.font = Some(font);
        self.dirty = true;
    }

    pub fn set_cursor_dirty(&mut self)
        ensures
            final(self).cursor_dirty,
            final(self).dirty,
            final(self).font == old(self).font,
            final(self).dimensions == old(self).dimensions,
    {
        self.cursor_dirty = true;
        self.dirty = true;
    }
}

/// Pending renderer updates, applied just before rendering.
#[derive(Debug, Copy, Clone, PartialEq, Eq, Structural)]
pub struct RendererUpdate {
    /// Should resize the window.
    pub resize: bool,
    /// Clear font caches.
    pub clear_font_cache: bool,
}

/// What the display remembers of resizes.
#[derive(Debug, Copy, Clone, PartialEq, Eq)]
pub struct ResizeState {
    /// A grid resize happened of which the shell is told once the interactive
    /// resize settles.
    pub pty_resize_pending: bool,
    /// Columns, rows and time of the size that is shown briefly.
    pub hud: Option<(usize, usize, u64)>,
    /// Set after the first resize, so nothing flashes when the window is
    /// created.
    pub hud_armed: bool,
    pub renderer_update: Option<RendererUpdate>,
}

/// What an update of the display does.
#[derive(Debug, Copy, Clone, PartialEq, Eq, Structural)]
pub struct UpdateActions {
    /// Resize the terminal's grid.
    pub resize_terminal: bool,
    /// Forget the focused search match.
    pub clear_focused_match: bool,
}

/// What an update is about.
#[derive(Debug, Copy, Clone, PartialEq, Eq, Structural)]
pub struct UpdateInput {
    pub font_changed: bool,
    pub cursor_dirty: bool,
    /// Lines and columns before and after.
    pub old_lines: usize,
    pub old_columns: usize,
    pub new_lines: usize,
    pub new_columns: usize,
    /// Whether anything of the size differs.
    pub size_changed: bool,
    /// The time, in milliseconds.
    pub now: u64,
}

/// Whether the grid changes its dimensions.
pub open spec fn grid_changes(u: UpdateInput) -> bool {
    u.old_lines != u.new_lines || u.old_columns != u.new_columns
}

/// The renderer update with what an update of the display adds to it.
pub open spec fn renderer_after(r: Option<RendererUpdate>, u: UpdateInput) -> Option<
    RendererUpdate,
> {
    let held = match r {
        Some(r) => r,
        None => RendererUpdate { resize: false, clear_font_cache: false },
    };
    if u.font_changed || u.cursor_dirty || u.size_changed {
        Some(
            RendererUpdate {
                resize: held.resize || u.size_changed,
                clear_font_cache: held.clear_font_cache || u.font_changed || u.cursor_dirty,
            },
        )
    } else {
        r
    }
}

/// What is remembered after an update: a resize of the grid is shown, but for
/// the first one.
pub open spec fn updated(s: ResizeState, u: UpdateInput) -> ResizeState {
    ResizeState {
        pty_resize_pending: s.pty_resize_pending || grid_changes(u),
        hud: if grid_changes(u) && s.hud_armed {
            Some((u.new_columns, u.new_lines, u.now))
        } else {
            s.hud
        },
        hud_armed: s.hud_armed || grid_changes(u),
        renderer_update: renderer_after(s.renderer_update, u),
    }
}

impl ResizeState {
    /// Processes an update of the display.
    pub fn handle_update(&mut self, u: &UpdateInput) -> (r: UpdateActions)
        ensures
            *final(self) == updated(*old(self), *u),
            r.resize_terminal == grid_changes(*u),
            r.clear_focused_match == u.size_changed,
    {
        let mut pending: RendererUpdate = match self.renderer_update {
            Some(r) => r,
            None => RendererUpdate { resize: false, clear_font_cache: false },
        };
        if u.font_changed || u.cursor_dirty {
            pending.clear_font_cache = true;
            self.renderer_update = Some(pending);
        }
        let resize: bool = u.old_lines != u.new_lines || u.old_columns != u.new_columns;
        if resize {
            self.pty_resize_pending = true;
            if self.hud_armed {
                self.hud = Some((u.new_columns, u.new_lines, u.now));
            }
            self.hud_armed = true;
        }
        if u.size_changed {
            pending.resize = true;
            self.renderer_update = Some(pending);
        }
        UpdateActions { resize_terminal: resize, clear_focused_match: u.size_changed }
    }
}

/// How many lines a message and the search bar reserve.
pub fn reserved_lines(message_lines: usize, search_active: bool) -> (r: usize)
    requires
        message_lines < usize::MAX,
    ensures
        r == message_lines + if search_active {
            1int
        } else {
            0
        },
{
    if search_active {
        message_lines + 1
    } else {
        message_lines
    }
}

/// The frame timer state. Times are in nanoseconds.
#[derive(Debug, Copy, Clone, PartialEq, Eq, Structural)]
pub struct FrameTimer {
    /// Base timestamp used to compute sync points.
    pub base: u64,
    /// The last timestamp we synced to.
    pub last_synced_timestamp: u64,
    /// The refresh rate we've used to compute sync timestamps.
    pub refresh_interval: u64,
}

/// How far a time lies behind the last tick of the refresh clock, in whole
/// microseconds.
pub open spec fn behind_tick(t: FrameTimer, now: u64) -> int {
    (((now - t.base) / 1000) % (t.refresh_interval as int / 1000)) * 1000
}

/// The delay until the next frame.
pub open spec fn timeout_of(t: FrameTimer, now: u64, refresh_interval: u64) -> int {
    if t.refresh_interval != refresh_interval {
        refresh_interval as int
    } else if t.last_synced_timestamp + refresh_interval < now {
        0
    } else {
        t.last_synced_timestamp + refresh_interval - now
    }
}

/// The timer after a frame was scheduled.
pub open spec fn synced(t: FrameTimer, now: u64, refresh_interval: u64) -> FrameTimer {
    if t.refresh_interval != refresh_interval {
        FrameTimer { base: now, last_synced_timestamp: now, refresh_interval }
    } else if t.last_synced_timestamp + refresh_interval < now {
        FrameTimer { last_synced_timestamp: (now - behind_tick(t, now)) as u64, ..t }
    } else {
        FrameTimer {
            last_synced_timestamp: (t.last_synced_timestamp + refresh_interval) as u64,
            ..t
        }
    }
}

impl FrameTimer {
    pub fn new(now: u64) -> (r: Self)
        ensures
            r.base == now,
            r.last_synced_timestamp == now,
            r.refresh_interval == 0,
    {
        FrameTimer { base: now, last_synced_timestamp: now, refresh_interval: 0 }
    }

    /// Computes the delay that we should use to achieve the target frame rate.
    pub fn compute_timeout(&mut self, now: u64, refresh_interval: u64) -> (r: u64)
        requires
            old(self).base <= now,
            old(self).last_synced_timestamp + refresh_interval <= u64::MAX,
            old(self).refresh_interval == refresh_interval && old(self).last_synced_timestamp
                + refresh_interval < now ==> refresh_interval >= 1000,
        ensures
            r == timeout_of(*old(self), now, refresh_interval),
            *final(self) == synced(*old(self), now, refresh_interval),
    {
        if self.refresh_interval != refresh_interval {
            self.base = now;
            self.last_synced_timestamp = now;
            self.refresh_interval = refresh_interval;
            return refresh_interval;
        }
        let next_frame: u64 = self.last_synced_timestamp + self.refresh_interval;
        if next_frame < now {
            let elapsed_micros: u64 = (now - self.base) / 1000;
            let refresh_micros: u64 = self.refresh_interval / 1000;
            let behind: u64 = elapsed_micros % refresh_micros;
            proof {
                assert(behind <= elapsed_micros) by (nonlinear_arith)
                    requires
                        behind == elapsed_micros % refresh_micros,
                        refresh_micros > 0,
                ;
            }
            self.last_synced_timestamp = now - behind * 1000;
            0
        } else {
            self.last_synced_timestamp = next_frame;
            next_frame - now
        }
    }
}

/// A frame is never delayed by more than the refresh interval, as long as the
/// last sync lies in the past.
pub proof fn law_frames_are_timely(t: FrameTimer, now: u64, refresh_interval: u64)
    requires
        t.last_synced_timestamp <= now,
    ensures
        0 <= timeout_of(t, now, refresh_interval) <= refresh_interval,
{
}

/// Reserving lines leaves at least one, and never adds any to a viewport that
/// has one.
pub proof fn law_a_line_is_left(screen_lines: nat, count: nat)
    ensures
        lines_left(screen_lines, count) >= MIN_SCREEN_LINES,
        screen_lines >= MIN_SCREEN_LINES ==> lines_left(screen_lines, count) <= screen_lines,
{
}

/// The first resize is not shown; the next ones are.
pub proof fn law_first_resize_is_silent(s: ResizeState, u: UpdateInput, w: UpdateInput)
    requires
        !s.hud_armed,
        s.hud is None,
        grid_changes(u),
        grid_changes(w),
    ensures
        updated(s, u).hud is None,
        updated(updated(s, u), w).hud == Some((w.new_columns, w.new_lines, w.now)),
{
}

} // verus!
