//! A verified core for a registry of managed filesystem symbolic links.
//!
//! The crate models the persistent record store (JSON-backed, load-or-default),
//! the link registry with monotone identifier assignment, the disk and tree
//! inspection utilities, and the interactive link-creation workflow as a state
//! machine.  File and console input/output stay outside the library; callers
//! hand in file contents, directory trees and operator decisions as plain
//! values and receive the texts to persist back.

pub mod arg;
pub mod config;
pub mod decision;
pub mod errors;
pub mod inspect;
pub mod json;
pub mod managed_link;
pub mod managed_link_list;
pub mod store;
pub mod text;
pub mod workflow;
