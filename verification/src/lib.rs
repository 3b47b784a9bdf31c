//! A single-slot actuation scheduler over discrete time.
//!
//! `event_stream` turns a sparse log of timed commands into one tick per
//! instant, `scheduler` keeps the one pending fire and acts on each tick,
//! `command_stream` reads commands from live input, `text` reads the lines,
//! and `timeline` states what holds of a whole run.

pub mod command_stream;
pub mod event_stream;
pub mod scheduler;
pub mod text;
pub mod timeline;
