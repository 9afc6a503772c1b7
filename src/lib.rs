//! Narrative core of a top-down lockdown game: a scripted event sequencer
//! with an interruptible side track, the tabular script loader that feeds
//! it, and the small rule sets (sanity meter, area access, calendar, text
//! layout, room layouts) that the game's presentation layer drives.
use vstd::prelude::*;

pub mod environment;
pub mod pickup;
pub mod narrative;
pub mod sequencer;
pub mod fields;
pub mod script;
pub mod game;
pub mod story;
pub mod calendar;
pub mod layout;
pub mod music;
pub mod labels;

verus! {

} // verus!
