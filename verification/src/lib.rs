//! Tick-driven task scheduling: timers that pace a loop, tickers that keep
//! queues of scheduled events, and a controller that hands tasks to worker
//! threads.
//!
//! The crate holds the bookkeeping of that machinery, and proves it: when an
//! event fires, what a tick leaves behind, how time is accounted between
//! waits.  The thread, lock and sleep plumbing that runs it lives elsewhere
//! and calls into this crate.

pub mod basic;
pub mod controller;
pub mod maps;
pub mod objects;
pub mod package;
pub mod registry;
pub mod repeater;
pub mod seqs;
pub mod timer;
pub mod watcher;
