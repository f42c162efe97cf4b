//! The state and the rules of a node-based terminal manager.
//!
//! Terminals and notes live as cards on tabbed canvases. This library holds
//! everything about them that can be computed without a window, a process or
//! a disk: the byte filter between a terminal and its emulator, what a
//! terminal shows, what a key press sends, what a card is called, how the
//! layout changes and what of it is kept across restarts.
pub mod acs;
pub mod app;
pub mod color;
pub mod geometry;
pub mod interact;
pub mod keys;
pub mod layout;
pub mod node;
pub mod paths;
pub mod screen;
pub mod selection;
pub mod selftest;
pub mod terminal;
pub mod text;
pub mod tmux;
