//! Core logic of a desktop control plane for one user-level background
//! service: unit-name normalization, classification of the service manager's
//! status output, a codec that rewrites the launch directive of a unit file
//! while preserving every other line, and the single-slot supervisor that
//! owns at most one log-following subprocess at a time.
//!
//! All process, file and network I/O lives outside this crate; the functions
//! here compute over plain bytes and values, so every decision the control
//! plane makes is stated in a contract and verified.

pub mod text;
pub mod unit;
pub mod flags;
pub mod status;
pub mod stream;
pub mod command;
pub mod api;
pub mod settings;
pub mod peers;
pub mod pins;
pub mod store;
