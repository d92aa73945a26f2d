//! The worker pool: a dispatch channel, the workers that drain it, and the
//! pool that owns both.

pub mod channel;
pub mod threadpool;
pub mod worker;
