use fmt_dispatch::outcome::{ExecutionResult, FALLBACK_FAILURE_CODE};

#[test]
fn exit_code_zero_is_success() {
    let r = ExecutionResult::from_termination(Some(0));
    assert_eq!(r, ExecutionResult::Success);
    assert_eq!(r.exit_code(), 0);
}

#[test]
fn nonzero_exit_codes_are_preserved_exactly() {
    for code in [1, 2, 127] {
        let r = ExecutionResult::from_termination(Some(code));
        assert_eq!(r, ExecutionResult::Failure(code));
        assert_eq!(r.exit_code(), code);
    }
}

#[test]
fn signal_termination_maps_to_the_stable_fallback() {
    let r = ExecutionResult::from_termination(None);
    assert_eq!(r, ExecutionResult::Failure(FALLBACK_FAILURE_CODE));
    assert_eq!(r.exit_code(), 1);
}

#[test]
fn scenario_tool_exit_two_propagates_as_two() {
    let r = ExecutionResult::from_termination(Some(2));
    assert_eq!(r.exit_code(), 2);
}
