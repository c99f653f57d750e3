//! Navigation and selection state for a terminal catalogue browser.
//!
//! The browser shows four panels, called sessions: a list of input modes, an
//! input that follows the mode (a calendar or a text field), a list of game
//! modes and a list of map states. This library holds what the user has
//! reached and chosen, says what each key press does to it, and writes the
//! choice down as the request that is sent to the catalogue. It paints
//! nothing and sends nothing.
//!
//! Verus proves the contracts of the functions here. Three contracts it
//! believes without proof: those of the calls into the `time` crate in
//! [`date`], which say so. The contracts speak of sets, sequences and
//! integers: a list is its labels, the position of its cursor and the set of
//! selected positions; a date is its Julian day number.

pub mod api;
pub mod app;
pub mod bits;
pub mod components;
pub mod cycle;
pub mod date;
pub mod error;
pub mod key;
pub mod number;
pub mod style;
pub mod update;
pub mod util;
pub mod utils;
