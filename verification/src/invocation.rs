//! Building the external tool's command line: a fixed, order-sensitive
//! argument vector assembled from the output mode, the operation mode
//! flags, the pass-through arguments and the selected target paths.

use vstd::prelude::*;
use vstd::string::StringExecFns;
use crate::output::OutputMode;
use crate::project::{string_views, SubProject, SelectionOutcome, selection};

verus! {

/// A fully assembled invocation of the external tool: the executable
/// path and its argument vector. Built fresh per run, never mutated
/// after construction, consumed exactly once.
#[derive(Debug)]
pub struct InvocationSpec {
    pub executable: String,
    pub args: Vec<String>,
}

/// The flag the output mode contributes: `Normal` contributes nothing.
pub open spec fn mode_flag(mode: OutputMode) -> Seq<Seq<char>> {
    match mode {
        OutputMode::Normal => Seq::empty(),
        OutputMode::Verbose => seq!["--verbose"@],
        OutputMode::Quiet => seq!["-q"@],
    }
}

/// The flag check-only mode contributes.
pub open spec fn check_flag(check: bool) -> Seq<Seq<char>> {
    if check {
        seq!["--check"@]
    } else {
        Seq::empty()
    }
}

/// The root paths of the selected targets, in selection order.
pub open spec fn target_paths(targets: Seq<SubProject>) -> Seq<Seq<char>> {
    targets.map_values(|p: SubProject| p.root_path@)
}

/// The full argument vector, in its fixed order: the operation verb,
/// the output-mode flag, the check flag, the pass-through arguments
/// verbatim, the end-of-options separator, and the target paths in
/// selection order.
pub open spec fn invocation_args(
    mode: OutputMode,
    check: bool,
    extra: Seq<Seq<char>>,
    targets: Seq<SubProject>,
) -> Seq<Seq<char>> {
    seq!["format"@] + mode_flag(mode) + check_flag(check) + extra + seq!["--"@] + target_paths(
        targets,
    )
}

/// The path of the tool binary inside a provisioned environment: the
/// environment root followed by the fixed relative sub-path.
pub fn tool_executable(env_root: &String) -> (path: String)
    ensures
        path@ == env_root@ + "/bin/ruff"@,
{
    let mut path = env_root.clone();
    path.append("/bin/ruff");
    path
}

/// Assembles the invocation: the executable as given, and the argument
/// vector exactly as `invocation_args` lays it out.
pub fn build_invocation(
    executable: String,
    mode: OutputMode,
    check: bool,
    extra_args: &Vec<String>,
    targets: &Vec<SubProject>,
) -> (inv: InvocationSpec)
    ensures
        inv.executable == executable,
        string_views(inv.args@) == invocation_args(mode, check, string_views(extra_args@), targets@),
{
    let mut args: Vec<String> = Vec::new();
    args.push(String::from_str("format"));
    match mode {
        OutputMode::Normal => {},
        OutputMode::Verbose => args.push(String::from_str("--verbose")),
        OutputMode::Quiet => args.push(String::from_str("-q")),
    }
    if check {
        args.push(String::from_str("--check"));
    }
    let ghost head = seq!["format"@] + mode_flag(mode) + check_flag(check);
    proof {
        assert(string_views(args@) =~= head);
    }
    let mut k: usize = 0;
    while k < extra_args.len()
        invariant
            k <= extra_args@.len(),
            string_views(args@) =~= head + string_views(extra_args@).take(k as int),
        decreases extra_args@.len() - k,
    {
        let ghost prev = args@;
        args.push(extra_args[k].clone());
        proof {
            crate::project::lemma_string_views_push(prev, extra_args@[k as int]);
            assert(string_views(extra_args@).take(k + 1) =~= string_views(extra_args@).take(
                k as int,
            ).push(extra_args@[k as int]@));
            assert(string_views(args@) =~= head + string_views(extra_args@).take(k + 1));
        }
        k = k + 1;
    }
    proof {
        assert(string_views(extra_args@).take(extra_args@.len() as int) =~= string_views(
            extra_args@,
        ));
    }
    args.push(String::from_str("--"));
    let ghost mid = head + string_views(extra_args@) + seq!["--"@];
    proof {
        assert(string_views(args@) =~= mid);
    }
    let mut t: usize = 0;
    while t < targets.len()
        invariant
            t <= targets@.len(),
            string_views(args@) =~= mid + target_paths(targets@.take(t as int)),
        decreases targets@.len() - t,
    {
        let ghost prev = args@;
        args.push(targets[t].root_path.clone());
        proof {
            crate::project::lemma_string_views_push(prev, targets@[t as int].root_path);
            assert(target_paths(targets@.take(t + 1)) =~= target_paths(
                targets@.take(t as int),
            ).push(targets@[t as int].root_path@));
            assert(string_views(args@) =~= mid + target_paths(targets@.take(t + 1)));
        }
        t = t + 1;
    }
    proof {
        assert(targets@.take(targets@.len() as int) =~= targets@);
        assert(string_views(args@) =~= invocation_args(
            mode,
            check,
            string_views(extra_args@),
            targets@,
        ));
    }
    InvocationSpec { executable, args }
}

/// Determinism law: resolving the same descriptor and filter twice
/// yields the same chosen projects, and with them identical argument
/// vectors from the builder — selection has no order randomness to
/// leak into the invocation.
pub proof fn lemma_invocation_deterministic(
    projects: Seq<SubProject>,
    default_index: Option<usize>,
    select_all: bool,
    names: Seq<Seq<char>>,
    first: Seq<SubProject>,
    second: Seq<SubProject>,
    mode: OutputMode,
    check: bool,
    extra: Seq<Seq<char>>,
)
    requires
        selection(projects, default_index, select_all, names) == SelectionOutcome::Chosen(first),
        selection(projects, default_index, select_all, names) == SelectionOutcome::Chosen(second),
    ensures
        first == second,
        invocation_args(mode, check, extra, first) == invocation_args(mode, check, extra, second),
{
}

} // verus!
