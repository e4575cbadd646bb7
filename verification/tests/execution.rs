use agent_server::execution::{
    check_after_action, check_step_start, max_steps_result, within_step_budget, A11yDecision, ExecutionMonitor,
    ScreenDecision,
};

#[test]
fn step_start_checks_timeout_then_cancel() {
    assert!(check_step_start(300_000, false).is_none());
    let r = check_step_start(300_001, true).unwrap();
    assert!(!r.success);
    assert_eq!(r.error.as_deref(), Some("Execution timeout after 300s"));
    let r = check_step_start(10, true).unwrap();
    assert_eq!(r.error.as_deref(), Some("Aborted"));
}

#[test]
fn a11y_failures_reprobe_then_abort() {
    let mut m = ExecutionMonitor::new();
    let mut reprobes = 0;
    for i in 1..8 {
        match m.on_a11y_result(false, true) {
            A11yDecision::Retry { reprobe } => {
                if reprobe {
                    reprobes += 1;
                    assert_eq!(i, 3);
                }
            }
            other => panic!("unexpected {other:?}"),
        }
    }
    assert_eq!(reprobes, 1);
    match m.on_a11y_result(false, true) {
        A11yDecision::Abort(r) => assert_eq!(r.error.as_deref(), Some("a11y unavailable")),
        other => panic!("unexpected {other:?}"),
    }
}

#[test]
fn a11y_success_resets_count() {
    let mut m = ExecutionMonitor::new();
    for _ in 0..5 {
        m.on_a11y_result(false, false);
    }
    assert!(matches!(m.on_a11y_result(true, false), A11yDecision::Proceed));
    for _ in 0..7 {
        assert!(matches!(m.on_a11y_result(false, false), A11yDecision::Retry { reprobe: false }));
    }
}

#[test]
fn unknown_screen_times_out() {
    let mut m = ExecutionMonitor::new();
    assert!(matches!(m.on_screen(false, 1_000), ScreenDecision::Wait { unknown_secs: 0 }));
    assert!(matches!(m.on_screen(false, 31_000), ScreenDecision::Wait { unknown_secs: 30 }));
    match m.on_screen(false, 61_001) {
        ScreenDecision::Fail(r) => {
            assert_eq!(r.error.as_deref(), Some("Unknown state for 60s - no matching IAState found"))
        }
        other => panic!("unexpected {other:?}"),
    }
    assert!(matches!(m.on_screen(true, 70_000), ScreenDecision::Proceed));
    assert!(matches!(m.on_screen(false, 80_000), ScreenDecision::Wait { unknown_secs: 0 }));
}

#[test]
fn goal_and_budget() {
    let r = check_after_action(true, false).unwrap();
    assert!(r.success && r.error.is_none());
    let r = check_after_action(false, false).unwrap();
    assert_eq!(r.error.as_deref(), Some("No action selected"));
    assert!(check_after_action(false, true).is_none());
    assert!(within_step_budget(499));
    assert!(!within_step_budget(500));
    assert_eq!(max_steps_result().error.as_deref(), Some("Max steps reached"));
}
