//! Verified core of a terminal git client: conflict parsing, side-by-side
//! diffs and partial staging, file status bookkeeping, key bindings and the
//! navigation state of the user interface.
pub mod text;
pub mod conflict;
pub mod diff;
pub mod log;
pub mod status;
pub mod syntax;
pub mod text_input;
pub mod theme;
pub mod app;
pub mod which_key;
pub mod app_nav;
pub mod app_lines;
pub mod app_popups;
pub mod app_stage;
pub mod app_load;
pub mod app_effects;
pub mod app_update;
pub mod app_check;
pub mod keymap;
pub mod input;
pub mod view;
pub mod styled;
pub mod conflict_view;
pub mod diff_view;
pub mod file_panel;
pub mod status_bar;
pub mod popup_view;
pub mod layout;


