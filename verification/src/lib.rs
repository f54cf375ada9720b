//! Verified core of a Windows time-mocking tool: an injected hook shifts the
//! time that a process observes by a delta (in 100-ns FILETIME ticks) that a
//! controller publishes through a named shared mapping per process.

pub mod text;
pub mod naming;
pub mod types;
pub mod ticks;
pub mod hook;
pub mod clock;
pub mod calendar;
pub mod picker;
pub mod injection;
pub mod attempt;
pub mod pe;
pub mod rules;
pub mod process;
pub mod format;
pub mod order;
