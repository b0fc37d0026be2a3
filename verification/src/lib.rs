//! An interactive incremental fuzzy selector over a fixed list of named
//! workspaces.
//!
//! The crate provides the pure core of a terminal session picker: a fuzzy
//! [`matcher`](crate::matcher) that ranks candidate labels against a typed
//! pattern, a selector state machine driven by discrete editing and
//! navigation commands, the scroll-window arithmetic that keeps the selected
//! row visible, a pure render model of the two-pane layout, and an input
//! decoder from key events to commands. All I/O (listing sessions, switching,
//! drawing) is left to the embedding program, which feeds plain values in and
//! carries the returned directives out.

pub mod input;
pub mod matcher;
pub mod paths;
pub mod render;
pub mod settings;
pub mod state;
pub mod strings;
