//! The resolution pipeline: from parsed options, a loaded descriptor
//! and a provisioned environment root to the exact invocation of the
//! external tool. Selection failures abort before any invocation is
//! assembled.

use vstd::prelude::*;
use crate::invocation::{build_invocation, invocation_args, tool_executable, InvocationSpec};
use crate::output::{resolve, resolve_spec};
use crate::project::{
    selection, string_views, ProjectDescriptor, SelectError, SelectionOutcome,
};

verus! {

/// The user's already-parsed options. `verbose` and `quiet` are
/// mutually exclusive by upstream parser constraint; `extra_args` are
/// opaque strings forwarded to the tool verbatim.
#[derive(Debug)]
pub struct FmtOptions {
    pub select_all: bool,
    pub package_names: Vec<String>,
    pub check: bool,
    pub verbose: bool,
    pub quiet: bool,
    pub extra_args: Vec<String>,
}

/// Resolves the output mode and the target projects and assembles the
/// complete invocation of the tool at `env_root`'s fixed binary
/// sub-path. Returns the selection error unchanged when the filters do
/// not resolve; no partial invocation is ever produced.
pub fn plan_invocation(
    descriptor: &ProjectDescriptor,
    env_root: &String,
    opts: &FmtOptions,
) -> (r: Result<InvocationSpec, SelectError>)
    requires
        descriptor.wf(),
        !(opts.quiet && opts.verbose),
    ensures
        ({
            let out = selection(
                descriptor.projects@,
                descriptor.default_index,
                opts.select_all,
                string_views(opts.package_names@),
            );
            match r {
                Result::Ok(inv) => out matches SelectionOutcome::Chosen(chosen)
                    && inv.executable@ == env_root@ + "/bin/ruff"@ && string_views(inv.args@)
                    == invocation_args(
                    resolve_spec(opts.quiet, opts.verbose),
                    opts.check,
                    string_views(opts.extra_args@),
                    chosen,
                ),
                Result::Err(SelectError::UnknownPackage(n)) => out
                    == SelectionOutcome::UnknownName(n@),
                Result::Err(SelectError::AmbiguousSelection) => out
                    == SelectionOutcome::NoDefault,
            }
        }),
{
    let mode = resolve(opts.quiet, opts.verbose);
    let targets = match descriptor.select(opts.select_all, &opts.package_names) {
        Result::Ok(t) => t,
        Result::Err(e) => {
            return Result::Err(e);
        },
    };
    let exe = tool_executable(env_root);
    Result::Ok(build_invocation(exe, mode, opts.check, &opts.extra_args, &targets))
}

} // verus!
