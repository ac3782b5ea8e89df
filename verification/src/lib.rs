//! Reconstructs phase timings from a pnpm install log.
//!
//! The input is a line-delimited event log: one JSON object per line. Lines
//! are first classified by a cheap probe ([`classify`]), then decoded against
//! the record schema ([`pnpm_log_line`]); a stateful scan correlates fetch
//! start and progress events per package ([`reconstruct`]), positional
//! first/last windows are computed per phase tag ([`phases`]), and the
//! derived duration facts are rendered as report lines ([`report`]). The
//! guarantees of the fetch scan are stated as proof functions in [`laws`].

pub mod classify;
pub mod json;
pub mod laws;
pub mod phases;
pub mod pnpm_log_line;
pub mod reconstruct;
pub mod report;
