//! Thread-pool components.

pub mod shutdown_laws;
pub mod task_tracker;
