//! Fragment-and-template engine for script-driven batch file renaming.
//!
//! A file is renamed by rendering a user-supplied template against a set of
//! named string values ("fragments"). Fragments come from two sources: the
//! file's intrinsic metadata (name, extension, size, timestamps) and the
//! line-oriented `key=value` output of external helper scripts run against
//! the file. Later writes to a fragment key overwrite earlier ones, so a
//! script can refine what metadata seeding produced, and a later script can
//! refine an earlier one.
//!
//! The crate holds the pure engine only: the fragment store, the parser for
//! script output, the template renderer, and the per-file session state
//! machine. All filesystem access, process spawning and prompting is left to
//! the caller, which feeds the observed results (existence, stat data,
//! captured script output, rename success) into the session.

pub mod errors;
pub mod fragments;
pub mod metadata;
pub mod numeral;
pub mod script;
pub mod session;
pub mod template;
pub mod text;
