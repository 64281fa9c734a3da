//! A grid of gliders that bounce off the walls and collide with each other,
//! together with the clock, data model and terminal layout around it.

pub mod automaton;
pub mod util;
pub mod music_theory;
pub mod datamodel;
pub mod midi;
pub mod realtime;
pub mod ui;
