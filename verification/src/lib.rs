use vstd::prelude::*;

pub mod cli;
pub mod clock;
pub mod config;
pub mod dedup;
pub mod digest;
pub mod model;
pub mod plan;
pub mod report;
pub mod runner;
pub mod scanners;
pub mod scoring;
pub mod storage;
pub mod text;
pub mod workspace;

verus! {

/// Exit code of a command that is not implemented yet.
pub const EXIT_NOT_IMPLEMENTED: i32 = 64;

/// Exit code of a command run outside an initialised workspace.
pub const EXIT_NO_WORKSPACE: i32 = 3;

/// Exit code of a scanner failure.
pub const EXIT_SCANNER: i32 = 4;

/// Exit code of a report failure.
pub const EXIT_REPORT: i32 = 5;

} // verus!
