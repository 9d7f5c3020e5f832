pub mod job_listener;
pub mod job_worker;
pub mod startup_backfill;
