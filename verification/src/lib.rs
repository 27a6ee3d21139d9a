//! Claiming a task record for one owner, safely against concurrent claimants.
//!
//! A task is a JSON document in a team directory. A claim resolves the team
//! and the paths, takes the team's exclusive lock, reads the record, refuses
//! it if it is owned, in progress, completed or deleted, and otherwise writes
//! it back with the new owner and the status `in_progress`.
//!
//! The library holds every decision of that protocol; the caller performs the
//! file operations that [`protocol::ClaimRun`] asks for and reports what came
//! of them.
//!
//! - [`record`]: the task record.
//! - [`codec`]: between JSON text and records, on top of [`json`], the
//!   boundary with `serde_json`.
//! - [`claim`]: when a record may be claimed and what claiming changes.
//! - [`resolver`]: teams and paths.
//! - [`protocol`]: the steps of one claim and their order.
//! - [`contention`]: what holds when several claims run at once.
//! - [`error`]: failures and the text shown for them.

pub mod claim;
pub mod codec;
pub mod contention;
pub mod error;
pub mod json;
pub mod protocol;
pub mod record;
pub mod resolver;
pub mod text;
