//! A script dispatch and scheduling engine.
//!
//! Callers submit short scripts, run them on demand or on a recurring
//! schedule, and collect each run's result with the ticket of that run.
//!
//! * [`registry`] stores the submitted scripts by id.
//! * [`validate`] decides whether a script text or a schedule expression is
//!   well formed.
//! * [`dispatcher`] queues the requests to run a script and returns exactly
//!   one result for each.
//! * [`worker`] runs one request in a fresh interpreter.
//! * [`scheduler`] keeps the jobs that run a script on a schedule.
//! * [`api`] puts them together into the engine's four operations.
//! * [`ids`] and [`error`] define identifiers and failures.
//!
//! The engine is a state that its owner changes one operation at a time.
//! Sharing it between threads, waiting for results and keeping time are left
//! to the program around it.
//!
//! Nothing is persisted: every stored script, pending request and scheduled
//! job lives in memory only. No request is ever cancelled or timed out, no
//! script is confined, and `fetch` may reach any host.

pub mod api;
pub mod dispatcher;
pub mod error;
pub mod ids;
pub mod registry;
pub mod scheduler;
pub mod validate;
pub mod worker;
