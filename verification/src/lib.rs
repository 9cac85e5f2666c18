//! An interactive dashboard library for discovering buildable targets in a
//! build-description file, selecting a target and an action, and running
//! the corresponding external tools while streaming their output.
//!
//! The crate holds the verified logic: the catalog parser, the cyclic
//! selection cursors, the command planner, the invocation state machine
//! that multiplexes child-process output, the key-event handler, and the
//! pane layout. The thin shell that owns the terminal and the child
//! processes lives outside the library and drives these functions.

pub mod action;
pub mod app;
pub mod display;
pub mod layout;
pub mod list_box;
pub mod parser;
pub mod project;
pub mod runner;
pub mod stateful_list;
