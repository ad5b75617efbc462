//! Output mode resolution: maps the two mutually exclusive verbosity
//! flags to a single tri-state mode.

use vstd::prelude::*;

verus! {

/// Verbosity setting passed on to the external tool. Exactly one mode is
/// active per invocation.
#[derive(Clone, Copy, Debug, PartialEq, Eq, Structural)]
pub enum OutputMode {
    Normal,
    Verbose,
    Quiet,
}

/// The mode that a (quiet, verbose) flag pair denotes.
pub open spec fn resolve_spec(quiet: bool, verbose: bool) -> OutputMode {
    if quiet {
        OutputMode::Quiet
    } else if verbose {
        OutputMode::Verbose
    } else {
        OutputMode::Normal
    }
}

/// Maps the verbosity flags to the active output mode. The argument
/// parser upstream guarantees that `quiet` and `verbose` are never both
/// set; this function is total and pure on that domain.
pub fn resolve(quiet: bool, verbose: bool) -> (mode: OutputMode)
    requires
        !(quiet && verbose),
    ensures
        mode == resolve_spec(quiet, verbose),
{
    if quiet {
        OutputMode::Quiet
    } else if verbose {
        OutputMode::Verbose
    } else {
        OutputMode::Normal
    }
}

/// The three output modes partition the admissible flag pairs: `Quiet`
/// exactly when `quiet` is set, `Verbose` exactly when `verbose` is set,
/// and `Normal` exactly when neither is.
pub proof fn lemma_resolve_partitions(quiet: bool, verbose: bool)
    requires
        !(quiet && verbose),
    ensures
        (resolve_spec(quiet, verbose) == OutputMode::Quiet) == quiet,
        (resolve_spec(quiet, verbose) == OutputMode::Verbose) == verbose,
        (resolve_spec(quiet, verbose) == OutputMode::Normal) == (!quiet && !verbose),
{
}

} // verus!
