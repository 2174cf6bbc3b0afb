//! Decision logic of an automatic XP farm: which keys to tap, what to tell
//! the user, and how the terminal front end reacts to input. Everything that
//! touches the screen, the keyboard driver or the terminal stays outside.

pub mod keys;
pub mod text;
pub mod event;
mod chance;
pub mod games;
pub mod siege;
pub mod order;
pub mod registry;
pub mod robot;
pub mod tui;
pub mod input;
