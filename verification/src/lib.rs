//! Ear-and-hand training for keyboard players: the judgment pipeline that
//! turns raw key events into stable chord snapshots, names what is being
//! held, and runs chord, scale and interval drills against it.

pub mod pitch;
pub mod chance;
pub mod chord;
pub mod scale_table;
pub mod text;
pub mod tracker;
pub mod recognizer;
pub mod voicing;
pub mod chord_drill;
pub mod scales;
pub mod scale_drill;
pub mod intervals;
