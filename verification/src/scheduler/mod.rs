//! Scheduled agent runs: the job model, schedule arithmetic and the job
//! lifecycle decisions of the scheduler loop.

pub mod models;
pub mod schedule;
pub mod jobs;
