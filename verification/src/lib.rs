//! Step-by-step playback of comparison sorts.
//!
//! A sorting algorithm is run once on a private copy of its input, and every
//! comparison or exchange that a viewer should see is recorded together with
//! the two positions involved.  A session then replays that recording one
//! step at a time under the control of a driving loop, which may pause it,
//! resume it, or start it over on new data.
//!
//! The values that are sorted are unsigned integers.  A front end that shows
//! other quantities hands in keys that order as its quantities do.
//!
//! * [`sort`] holds the algorithms, what each of them records, and the
//!   sessions that replay a recording.
//! * [`app`] and [`handlers`] hold the state of a front end and what key
//!   presses and clock ticks do to it.
//! * [`display`] holds the decisions about what the screen shows.

pub mod app;
pub mod display;
pub mod handlers;
pub mod sort;
