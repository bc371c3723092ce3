//! A modal file tree and a welcome screen for a terminal editor: what they show
//! and what they do, without the terminal, the file system or the editor.
//!
//! - [`model`] keeps the rows of the tree and the cursor among them.
//! - [`listing`] chooses and orders the contents of a directory.
//! - [`component`] decides what a key, a prompt or an answer from the file
//!   system does to the tree, and how its rows are drawn.
//! - [`command`] and [`event`] say what each key asks for.
//! - [`task`] describes work on the file system, one step at a time.
//! - [`preview`] keeps what was read for the preview pane.
//! - [`layout`] divides the screen.
//! - [`welcome`] and [`config`] are the welcome screen, its menu and its settings.
//! - [`path`] and [`text`] hold what is relied on of `std` about paths and text.
//! - [`model_laws`], [`component_laws`] and [`reveal_laws`] state how the
//!   operations fit together.
//! - [`text_laws`], [`listing_laws`], [`tree_laws`], [`key_laws`], [`file_laws`],
//!   [`screen_laws`], [`preview_laws`], [`welcome_laws`] and [`view_laws`] state
//!   what each of them comes to, in terms of what goes in and what comes out.

pub mod command;
pub mod component;
pub mod component_laws;
pub mod config;
pub mod event;
pub mod file_laws;
pub mod key_laws;
pub mod layout;
pub mod listing;
pub mod listing_laws;
pub mod model;
pub mod model_laws;
pub mod path;
pub mod preview;
pub mod preview_laws;
pub mod reveal_laws;
pub mod screen_laws;
pub mod task;
pub mod text;
pub mod text_laws;
pub mod tree_laws;
pub mod view_laws;
pub mod welcome;
pub mod welcome_laws;
