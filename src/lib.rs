//! Scheduled email delivery: a durable message store with lifecycle
//! locations, renewal scheduling, promotion of due messages, delivery
//! recording and the daemon's cycle.

pub mod date;
pub mod status;
pub mod store;
pub mod scheduler;
pub mod queue;
pub mod delivery;
pub mod daemon;
pub mod clapargs;
pub mod commands;
