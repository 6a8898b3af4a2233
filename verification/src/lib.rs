//! Peruse, the terminal viewer of data files: the logic of its screen.
//!
//! This crate holds the parts of the viewer that decide and compute: the
//! editor of one line, the table of commands, the text functions that know
//! the width of a character on the screen, the parts of a SQL statement, the
//! geometry of the grid and of the overlays, the cursor of the grid and its
//! search, the record view, the filter builder, the pickers, the settings
//! page, the chooser of files, and the small state machines of the mouse. Each
//! function states what it gives in its contract, and each contract is proved.

pub mod app;
pub mod keys;
pub mod chars;
pub mod input;
pub mod text;
pub mod sqlhl;
pub mod commands;
pub mod overlays;
pub mod clip;
pub mod colors;
pub mod paint;
pub mod browser;
pub mod record;
pub mod pickers;
pub mod settings;
pub mod cursor;
pub mod search;
pub mod builder;
pub mod prompt;
pub mod undo;
pub mod view;
pub mod command;
pub mod reply;
pub mod cli;
pub mod grid;
pub mod tree;
pub mod panels;
