use rwfile::mode::Mode;
use rwfile::outcome::{
    FailureKind, Outcome, EXIT_FAILURE, EXIT_NOT_FOUND, EXIT_PERMISSION_DENIED, EXIT_SUCCESS,
    EXIT_USAGE,
};

const KINDS: [FailureKind; 3] =
    [FailureKind::NotFound, FailureKind::PermissionDenied, FailureKind::Other];

#[test]
fn exit_statuses_have_their_values() {
    assert_eq!(EXIT_SUCCESS, 0);
    assert_eq!(EXIT_FAILURE, 1);
    assert_eq!(EXIT_NOT_FOUND, 2);
    assert_eq!(EXIT_PERMISSION_DENIED, 3);
    assert_eq!(EXIT_USAGE, 4);
}

#[test]
fn wrong_usage_exits_with_four() {
    assert_eq!(Outcome::Usage.exit_code(), 4);
}

#[test]
fn console_failures_exit_with_one() {
    assert_eq!(Outcome::PromptFailed.exit_code(), 1);
    assert_eq!(Outcome::InputFailed.exit_code(), 1);
}

#[test]
fn failed_read_exits_with_one() {
    assert_eq!(Outcome::ReadFailed.exit_code(), 1);
}

#[test]
fn success_exits_with_zero() {
    assert_eq!(Outcome::Printed.exit_code(), 0);
    assert_eq!(Outcome::Written.exit_code(), 0);
}

#[test]
fn failed_open_exits_by_kind_in_both_modes() {
    for mode in [Mode::Read, Mode::Write] {
        let code = |kind| Outcome::OpenFailed { mode, kind }.exit_code();
        assert_eq!(code(FailureKind::NotFound), 2);
        assert_eq!(code(FailureKind::PermissionDenied), 3);
        assert_eq!(code(FailureKind::Other), 1);
    }
}

#[test]
fn failed_write_exits_with_three_only_when_denied() {
    let code = |kind| Outcome::WriteFailed { kind }.exit_code();
    assert_eq!(code(FailureKind::PermissionDenied), 3);
    assert_eq!(code(FailureKind::NotFound), 1);
    assert_eq!(code(FailureKind::Other), 1);
}

#[test]
fn only_success_exits_with_zero() {
    let mut outcomes = vec![
        Outcome::Usage,
        Outcome::PromptFailed,
        Outcome::InputFailed,
        Outcome::ReadFailed,
    ];
    for kind in KINDS {
        outcomes.push(Outcome::OpenFailed { mode: Mode::Read, kind });
        outcomes.push(Outcome::OpenFailed { mode: Mode::Write, kind });
        outcomes.push(Outcome::WriteFailed { kind });
    }
    for outcome in outcomes {
        let code = outcome.exit_code();
        assert!((1..=4).contains(&code), "{:?}", outcome);
    }
}
