//! A verified core for an interactive terminal color picker: a catalog of
//! named colors, a filter/selection state machine, and a hit-test resolver
//! that maps a clicked terminal cell back to the color rendered there.

pub mod app;
pub mod color;
pub mod events;
pub mod hit;
pub mod text;
