//! neatnik: the verified core of a housekeeping tool that archives,
//! relocates and deletes aged log, working and temporary files.
//!
//! The library holds the decisions of the tool: configuration validation,
//! naming of archives and destinations, candidate selection, bundle grouping,
//! conflict resolution, the delete safety brake and the bookkeeping of a job
//! run. Reading directories, writing archives and taking locks is done by the
//! program around it, which hands the library plain values.

pub mod archive;
pub mod cli;
pub mod clock;
pub mod config;
pub mod datetime;
pub mod delete;
pub mod error;
pub mod i18n;
pub mod job;
pub mod lock;
pub mod notify;
pub mod path;
pub mod pipeline;
pub mod relocate;
pub mod scan;
pub mod pattern;
pub mod text;
