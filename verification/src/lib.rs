//! Project-aware dispatcher core for an external formatting tool.
//!
//! Given a workspace descriptor, user-supplied selection filters and
//! verbosity flags, this library resolves which sub-projects to target,
//! builds the exact argument vector for the external formatter, and maps
//! the tool's termination status back to a process exit code. All of the
//! decision logic lives here, verified; filesystem discovery, environment
//! provisioning and process spawning are left to the surrounding binary.

pub mod invocation;
pub mod outcome;
pub mod output;
pub mod pipeline;
pub mod project;
