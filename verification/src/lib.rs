//! A terminal user-interface runtime core: a ring buffer and byte-level
//! terminal-protocol parser for input, a round-synchronized event broadcaster,
//! and a damage-tracked cell-grid renderer that emits minimal ANSI output.

pub mod broadcast;
pub mod color;
pub mod cycle_buffer;
pub mod events;
pub mod layout;
pub mod parser;
pub mod rect;
pub mod screen;
pub mod style;
pub mod surface;
pub mod width;
