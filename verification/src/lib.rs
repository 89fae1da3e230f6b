//! Decision logic for a mod-development launcher: which build-tool steps a
//! `run` request performs, and the one-time EULA-acceptance gate that guards
//! a server launch.
//!
//! The library is pure: it decides, and callers perform the file, terminal
//! and process work around it.

pub mod eula;
pub mod run;
