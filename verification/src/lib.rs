//! A launcher of scripts by the calendar.
//!
//! A plan holds the windows of one day: a script for the opening of each window,
//! one for its closing, and at most one that accompanies it while it is open. A
//! poll finds what is due and marks it as run; a ledger keeps the marks over a
//! restart, under a digest of each window.
//!
//! This library holds the rules. Clock, files and processes belong to the caller.

pub mod calendar;
pub mod config;
pub mod digest;
pub mod directory;
pub mod document;
pub mod errors;
pub mod event;
pub mod event_cache;
pub mod event_list;
pub mod event_processor;
pub mod plan;
pub mod scheduler;
pub mod text;
pub mod weekday;
