//! The terminal state machine: a grid of styled cells driven by handler
//! calls, with a cursor, a scrolling region and an alternate screen.
pub mod cell;
pub mod font;
pub mod grid;
pub mod index;
pub mod laws;
pub mod term;
pub mod util;
