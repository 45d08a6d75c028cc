//! A terminal countdown timer, split into verified logic and a thin driver.
//!
//! The library holds everything the timer decides or computes: parsing a
//! duration string such as `2h45m50s` into seconds, formatting the remaining
//! time as `HH:MM:SS` or `MM:SS`, laying out the large glyphs centered on a
//! character grid, and the state machine that drives one frame of the
//! countdown loop. The driver around it only touches the terminal and the
//! clock.

pub mod duration;
pub mod glyphs;
pub mod layout;
pub mod startup;
pub mod timefmt;
pub mod timer;
