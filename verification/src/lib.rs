//! Layout of a day's schedule on a fixed-width character grid.
//!
//! Clock values are mapped to grid columns, tick marks are spaced to leave
//! room for their labels, and events that overlap are stacked into lanes.
//! A frame is computed as plain drawing commands; writing them to a terminal
//! is left to the caller.

pub mod block;
pub mod canvas;
mod clock;
pub mod frame;
pub mod stacking;
pub mod time_of_day;
