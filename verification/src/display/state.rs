//! The overlays of a window together: tab sidebar, drawer, command palette and
//! settings panel. Whatever changes one of them has the window drawn anew.

use crate::display::command_palette;
use crate::display::command_palette::{CommandPalette, PaletteAction, PaletteState};
use crate::display::side_panel::panel;
use crate::display::side_panel::panel::{PanelState, PanelView, SidePanel};
use crate::display::side_panel::tree;
use crate::display::tabs;
use crate::display::tabs::{TabBar, TabState};
use vstd::prelude::*;

verus! {

/// The chrome of a window.
pub struct Display {
    pub tabs: TabBar,
    pub side_panel: SidePanel,
    pub palette: CommandPalette,
    pub settings_open: bool,
    /// Index of the section that the settings panel shows.
    pub settings_section: usize,
    /// Whether the display waits for an update.
    pub dirty: bool,
}

/// The chrome as a value.
#[verifier::ext_equal]
pub struct DisplayState {
    pub tabs: TabState,
    pub side_panel: PanelState,
    pub palette: PaletteState,
    pub settings_open: bool,
    pub settings_section: usize,
    pub dirty: bool,
}

impl Display {
    pub open spec fn value(&self) -> DisplayState {
        DisplayState {
            tabs: self.tabs.value(),
            side_panel: self.side_panel.value(),
            palette: self.palette.state(),
            settings_open: self.settings_open,
            settings_section: self.settings_section,
            dirty: self.dirty,
        }
    }

    pub open spec fn wf(&self) -> bool {
        &&& self.tabs.value().wf()
        &&& self.side_panel.wf()
        &&& self.palette.wf()
    }
}

/// The chrome of a new window: one tab, nothing open, nothing to update.
pub open spec fn first_chrome() -> DisplayState {
    DisplayState {
        tabs: tabs::first_tab(),
        side_panel: panel::closed_panel(),
        palette: command_palette::unused_palette(),
        settings_open: false,
        settings_section: 0,
        dirty: false,
    }
}

/// The chrome with another palette, which has to be drawn.
pub open spec fn with_palette(d: DisplayState, palette: PaletteState) -> DisplayState {
    DisplayState { palette, dirty: true, ..d }
}

/// The palette with the profiles of the configuration.
pub open spec fn with_profiles(p: PaletteState, names: Seq<String>) -> PaletteState {
    PaletteState {
        profiles: names.map_values(|name: String| command_palette::profile_row(name@)),
        ..p
    }
}

/// Whether a text editor of the chrome has the keyboard.
pub open spec fn edits_text(d: DisplayState) -> bool {
    d.tabs.rename is Some || d.side_panel.search_focus || d.side_panel.commit_focus
}

impl Display {
    /// The chrome of a new window: one tab, and nothing open.
    pub fn new() -> (r: Self)
        ensures
            r.wf(),
            r.value() == first_chrome(),
            r.value().palette.rows_exist(),
    {
        let palette = CommandPalette::new();
        assert(palette.state().query =~= Seq::empty());
        assert(palette.state().recent =~= Seq::empty());
        assert(palette.state().profiles =~= Seq::empty());
        Display {
            tabs: TabBar::new(),
            side_panel: SidePanel::new(),
            palette,
            settings_open: false,
            settings_section: 0,
            dirty: false,
        }
    }

    pub fn settings_open(&self) -> (r: bool)
        ensures
            r == self.settings_open,
    {
        self.settings_open
    }

    pub fn settings_section(&self) -> (r: usize)
        ensures
            r == self.settings_section,
    {
        self.settings_section
    }

    /// Shows a section of the settings. Returns whether it is another one: then
    /// it is read from its top.
    pub fn select_settings_section(&mut self, section: usize) -> (r: bool)
        ensures
            r == (section != old(self).settings_section),
            final(self).value() == (DisplayState {
                settings_section: section,
                dirty: old(self).dirty || r,
                ..old(self).value()
            }),
            final(self).wf() == old(self).wf(),
    {
        if self.settings_section == section {
            return false;
        }
        self.settings_section = section;
        self.dirty = true;
        true
    }

    /// Opens or closes the settings, which always start at their top.
    pub fn toggle_settings(&mut self)
        ensures
            final(self).value() == (DisplayState {
                settings_open: !old(self).settings_open,
                dirty: true,
                ..old(self).value()
            }),
            final(self).wf() == old(self).wf(),
    {
        self.settings_open = !self.settings_open;
        self.dirty = true;
    }

    /// Closes the settings.
    pub fn dismiss_settings(&mut self)
        ensures
            final(self).value() == (DisplayState {
                settings_open: false,
                dirty: old(self).dirty || old(self).settings_open,
                ..old(self).value()
            }),
            final(self).wf() == old(self).wf(),
    {
        if self.settings_open {
            self.settings_open = false;
            self.dirty = true;
        }
    }

    /// Whether a text editor of the chrome has the keyboard: then its caret
    /// blinks.
    pub fn chrome_editor_active(&self) -> (r: bool)
        ensures
            r == edits_text(self.value()),
    {
        self.tabs.rename.is_some() || self.side_panel.search_focus || self.side_panel.commit_focus
    }

    /// Toggles the command palette. The profiles are taken anew on every open.
    pub fn toggle_command_palette(&mut self, profiles: &[String])
        requires
            old(self).wf(),
            profiles@.len() <= usize::MAX - command_palette::ITEM_COUNT,
        ensures
            ({
                let p = with_profiles(old(self).value().palette, profiles@);
                final(self).value() == with_palette(
                    old(self).value(),
                    if p.open {
                        p.closed()
                    } else {
                        p.opened(false)
                    },
                )
            }),
            final(self).wf(),
    {
        self.palette.set_profiles(profiles);
        self.palette.toggle();
        self.dirty = true;
    }

    /// Opens the palette with the quick-launch profiles only.
    pub fn open_profile_menu(&mut self, profiles: &[String])
        requires
            old(self).wf(),
            profiles@.len() <= usize::MAX - command_palette::ITEM_COUNT,
        ensures
            final(self).value() == with_palette(
                old(self).value(),
                with_profiles(old(self).value().palette, profiles@).opened(true),
            ),
            final(self).wf(),
    {
        self.palette.set_profiles(profiles);
        self.palette.open_profiles();
        self.dirty = true;
    }

    pub fn command_palette_open(&self) -> (r: bool)
        ensures
            r == self.value().palette.open,
    {
        self.palette.is_open()
    }

    pub fn close_command_palette(&mut self)
        requires
            old(self).wf(),
        ensures
            final(self).value() == with_palette(
                old(self).value(),
                old(self).value().palette.closed(),
            ),
            final(self).wf(),
    {
        self.palette.close();
        self.dirty = true;
    }

    pub fn palette_input_char(&mut self, c: char)
        requires
            old(self).wf(),
        ensures
            final(self).value() == with_palette(
                old(self).value(),
                old(self).value().palette.typed(c),
            ),
            final(self).wf(),
    {
        self.palette.input_char(c);
        self.dirty = true;
    }

    pub fn palette_backspace(&mut self)
        requires
            old(self).wf(),
        ensures
            final(self).value() == with_palette(
                old(self).value(),
                old(self).value().palette.erased(),
            ),
            final(self).wf(),
    {
        self.palette.backspace();
        self.dirty = true;
    }

    pub fn palette_move(&mut self, delta: i32)
        requires
            old(self).wf(),
        ensures
            final(self).value() == with_palette(
                old(self).value(),
                old(self).value().palette.moved(delta as int),
            ),
            final(self).wf(),
    {
        self.palette.move_selection(delta);
        self.dirty = true;
    }

    /// Confirms the palette's selection. Returns what has to be done.
    pub fn palette_confirm(&mut self) -> (r: Option<PaletteAction>)
        requires
            old(self).wf(),
        ensures
            r == old(self).value().palette.chosen(),
            final(self).value() == with_palette(
                old(self).value(),
                old(self).value().palette.confirmed(),
            ),
            final(self).wf(),
    {
        let action = self.palette.confirm();
        self.dirty = true;
        action
    }

    /// Confirms the visible row of the palette that was clicked.
    pub fn palette_click(&mut self, row: usize, max_rows: usize) -> (r: Option<PaletteAction>)
        requires
            old(self).wf(),
        ensures
            ({
                let p = old(self).value().palette;
                let at = p.window_start(max_rows) + row;
                if max_rows == 0 || at >= p.filtered.len() {
                    r is None && final(self).value() == with_palette(old(self).value(), p)
                } else {
                    let picked = (PaletteState { selected: at as usize, ..p });
                    r == picked.chosen() && final(self).value() == with_palette(
                        old(self).value(),
                        picked.confirmed(),
                    )
                }
            }),
            final(self).wf(),
    {
        let action = self.palette.click(row, max_rows);
        self.dirty = true;
        action
    }

    /// Toggles the drawer.
    pub fn toggle_side_panel(&mut self, view: PanelView)
        requires
            old(self).wf(),
        ensures
            final(self).value() == (DisplayState {
                side_panel: panel::toggled(old(self).value().side_panel, view),
                dirty: true,
                ..old(self).value()
            }),
            final(self).wf(),
    {
        self.side_panel.toggle(view);
        self.dirty = true;
    }

    /// Hands the focused pane's directory to the drawer. Returns whether it has
    /// to be read anew.
    pub fn side_panel_sync(&mut self, cwd: Option<String>, now: u64) -> (r: bool)
        requires
            old(self).wf(),
        ensures
            r == panel::wants_refresh(
                old(self).value().side_panel,
                tree::optional_text(cwd),
                now,
            ),
            final(self).value() == (DisplayState {
                side_panel: panel::synced(
                    old(self).value().side_panel,
                    tree::optional_text(cwd),
                    now,
                ),
                dirty: old(self).dirty || r,
                ..old(self).value()
            }),
            final(self).wf(),
    {
        let due = self.side_panel.sync(cwd, now);
        if due {
            self.dirty = true;
        }
        due
    }
}

} // verus!
