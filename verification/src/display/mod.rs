//! The chrome around the terminal: themes, the command palette, the side
//! panel, tabs and the input line.

pub mod chrome;
pub mod color;
pub mod command_palette;
pub mod commands;
pub mod confirm;
pub mod frame;
pub mod grid_input;
pub mod hints;
pub mod options;
pub mod overlay;
pub mod palette_view;
pub mod pane;
pub mod pane_view;
pub mod program;
pub mod settings;
pub mod side_panel;
pub mod state;
pub mod tabs;
pub mod theme;
pub mod width;
