//! Picks the meeting to join from a weekly schedule and the clock, looks meetings up
//! by alias, and validates schedules.

pub mod config;
pub mod error;
pub mod opt;
pub mod time;
