//! Timing and judgement core of a rhythm game: a chart of notes, each with a
//! spawn time, lane and speed; a scheduler that brings notes into play as the
//! song clock passes their spawn times; a motion model; a judge that turns
//! key presses and positions into hits and misses; and a score.
//!
//! Times are whole milliseconds of song time and positions thousandths of a
//! unit, so that every quantity is an exact integer.

pub mod consts;
pub mod types;
pub mod score;
pub mod motion;
pub mod chart;
pub mod engine;
