//! Scheduling and decision-process core of a repository automation bot.
//!
//! The crate holds two cooperating parts. The job store keeps deferred work
//! (one-off and recurring jobs), deduplicated on the pair of job name and
//! expected time, and selects the jobs that are due under a fixed retry
//! backoff. The decision workflow opens a team ballot on an issue, keeps its
//! per-participant votes and history, renders them as a status table and
//! schedules its own resolution job.
//!
//! Everything in here is verified; what talks to the outside world (the
//! database, the issue tracker, the clock) hands plain values in and takes
//! plain values back. A workflow that needs an answer from outside returns
//! an action that asks for it and is called again with the answer.
//!
//! # What is assumed
//!
//! The proofs rest on the contracts of a few functions of other crates,
//! which are stated here and not proved:
//!
//! - `chrono::TimeDelta::seconds`, `TimeDelta * i32`, `TimeDelta::num_seconds`
//!   and `TimeDelta::subsec_nanos`, in [`time`];
//! - `serde_json::Value::clone`, `serde_json::Map::new`, `Map::insert` and
//!   `Value::get`, in [`json`];
//! - `uuid::Uuid::new_v4`, of which nothing is assumed, in [`db::jobs`].
pub mod command;
pub mod json;
pub mod text;
pub mod time;
pub mod user_map;
pub mod db;
pub mod handlers;
