//! Master/worker bot runner: the versioned state that the master publishes,
//! the decisions a worker takes on what it observes, the master's worker
//! registry and the small text formats the two sides share.
pub mod models;
pub mod start_infos;
pub mod state;
pub mod worker;
pub mod archive;
pub mod console;
pub mod config;
pub mod registry;
pub mod actors;
pub mod worker_info;
pub mod laws;
