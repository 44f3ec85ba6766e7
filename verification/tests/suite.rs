use maxitest::dashboard::{test_display, Dashboard, Key, KeyAction};
use maxitest::exec::ExecError;
use maxitest::numfmt::{decimal_string, push_dec_i32, push_padded_dec};
use maxitest::run::{
    continue_after, finish_test, init_results, kind, recap, recap_counts, record_result,
    TestResult, VerdictKind,
};
use maxitest::watch::{event_selects, existence_step, WatchEvent, WatchEventKind, WatchStep};

#[test]
fn decimal_rendering() {
    assert_eq!(decimal_string(0), "0");
    assert_eq!(decimal_string(7), "7");
    assert_eq!(decimal_string(1234567890), "1234567890");
}

#[test]
fn padded_rendering_right_aligns() {
    let mut s = String::new();
    push_padded_dec(42, 7, &mut s);
    assert_eq!(s, "     42");
    let mut long = String::new();
    push_padded_dec(123456789, 7, &mut long);
    assert_eq!(long, "123456789");
}

#[test]
fn signed_rendering_handles_negatives() {
    let mut s = String::new();
    push_dec_i32(-11, &mut s);
    assert_eq!(s, "-11");
    let mut z = String::new();
    push_dec_i32(0, &mut z);
    assert_eq!(z, "0");
}

#[test]
fn finish_test_maps_outcomes_to_verdicts() {
    let passed = finish_test(Ok(true), "log".to_string());
    assert_eq!(passed, TestResult::Passed("log".to_string()));
    let failed = finish_test(Ok(false), "log".to_string());
    assert_eq!(failed, TestResult::Failed("log".to_string()));
    let errored = finish_test(Err(ExecError::Bwrap), "log".to_string());
    assert_eq!(
        errored,
        TestResult::Error(
            "logError from bwrap, probably missing executable\n########################"
                .to_string()
        )
    );
}

#[test]
fn stop_policy() {
    let passed = TestResult::Passed(String::new());
    let failed = TestResult::Failed(String::new());
    let errored = TestResult::Error(String::new());
    assert!(continue_after(&passed, false, false));
    assert!(!continue_after(&failed, false, false));
    assert!(continue_after(&failed, true, false));
    assert!(!continue_after(&errored, true, false));
    assert!(!continue_after(&passed, true, true));
}

#[test]
fn result_slots_start_unwritten() {
    let slots = init_results(3);
    assert_eq!(slots.len(), 3);
    assert!(slots.iter().all(|r| matches!(r, TestResult::NotRun)));
}

#[test]
fn recording_touches_only_the_owned_slot() {
    let mut slots = init_results(3);
    record_result(&mut slots, 1, TestResult::Passed("one".to_string()));
    assert_eq!(slots[0], TestResult::NotRun);
    assert_eq!(slots[1], TestResult::Passed("one".to_string()));
    assert_eq!(slots[2], TestResult::NotRun);
}

#[test]
fn completion_order_does_not_change_the_report() {
    let verdicts = vec![
        TestResult::Passed("p0".to_string()),
        TestResult::Failed("f1".to_string()),
        TestResult::Passed("p2".to_string()),
    ];
    let mut forward = init_results(3);
    for i in [0usize, 1, 2] {
        record_result(&mut forward, i, verdicts[i].clone());
    }
    let mut scrambled = init_results(3);
    for i in [2usize, 0, 1] {
        record_result(&mut scrambled, i, verdicts[i].clone());
    }
    assert_eq!(forward, scrambled);
    assert_eq!(forward, verdicts);
}

#[test]
fn fatal_sandbox_error_stops_the_suite() {
    // A missing sandbox tool aborts after the first test: that test reaches
    // an Error state and every later slot stays unwritten.
    let mut slots = init_results(3);
    let first = finish_test(Err(ExecError::Bwrap), "banner\n".to_string());
    assert_eq!(kind(&first), VerdictKind::Error);
    let go_on = continue_after(&first, true, false);
    record_result(&mut slots, 0, first);
    assert!(!go_on);
    assert_eq!(kind(&slots[0]), VerdictKind::Error);
    assert_eq!(slots[1], TestResult::NotRun);
    assert_eq!(slots[2], TestResult::NotRun);
    assert_eq!(recap_counts(&slots), (0, 0));
}

#[test]
fn verdict_kinds() {
    assert_eq!(kind(&TestResult::NotRun), VerdictKind::NotRun);
    assert_eq!(kind(&TestResult::Error(String::new())), VerdictKind::Error);
    assert_eq!(kind(&TestResult::Failed(String::new())), VerdictKind::Failed);
    assert_eq!(kind(&TestResult::Passed(String::new())), VerdictKind::Passed);
}

#[test]
fn recap_counts_passed_and_failed() {
    let results = vec![
        TestResult::Passed("a".to_string()),
        TestResult::Failed("b".to_string()),
        TestResult::Passed("c".to_string()),
        TestResult::NotRun,
        TestResult::Error("d".to_string()),
    ];
    assert_eq!(recap_counts(&results), (2, 1));
}

#[test]
fn recap_line_is_exact() {
    let results = vec![
        TestResult::Passed("a".to_string()),
        TestResult::Failed("b".to_string()),
        TestResult::NotRun,
    ];
    assert_eq!(recap(4, 2, &results), "1 passed, 1 failed, 2 ignored, 2 not run");
}

#[test]
fn watch_filter_selects_finished_writes_on_the_target() {
    let target = "/work/minishell".to_string();
    let hit = WatchEvent {
        paths: vec!["/work/other".to_string(), "/work/minishell".to_string()],
        kind: WatchEventKind::CloseWrite,
    };
    assert!(event_selects(&hit, &target));
    let wrong_path = WatchEvent {
        paths: vec!["/work/other".to_string()],
        kind: WatchEventKind::CloseWrite,
    };
    assert!(!event_selects(&wrong_path, &target));
    let wrong_kind = WatchEvent {
        paths: vec!["/work/minishell".to_string()],
        kind: WatchEventKind::Other,
    };
    assert!(!event_selects(&wrong_kind, &target));
}

#[test]
fn watch_existence_recheck() {
    assert_eq!(existence_step(Some(true)), WatchStep::Run);
    assert_eq!(existence_step(Some(false)), WatchStep::Ignore);
    assert_eq!(existence_step(None), WatchStep::Abort);
}

#[test]
fn notifications_expire_by_elapsed_time() {
    let mut d = Dashboard::new();
    d.add_popup("done".to_string(), true);
    assert_eq!(d.popups.len(), 1);
    // The configured duration is zero: the next frame evicts it.
    d.update(16);
    assert!(d.popups.is_empty());
}

#[test]
fn long_lived_notifications_count_down() {
    let mut d = Dashboard::new();
    d.add_popup("done".to_string(), true);
    d.popups[0].remaining_ms = 100;
    d.update(30);
    assert_eq!(d.popups[0].remaining_ms, 70);
    d.update(200);
    assert!(d.popups.is_empty());
}

#[test]
fn key_bindings_drive_the_selections() {
    let mut d = Dashboard::new();
    assert_eq!(d.on_key(Key::Char('q')), KeyAction::Quit);
    assert_eq!(d.on_key(Key::Enter), KeyAction::StartRun);
    assert_eq!(d.on_key(Key::Char('j')), KeyAction::Moved);
    assert_eq!(d.test_selected, 1);
    assert_eq!(d.on_key(Key::Char('k')), KeyAction::Moved);
    assert_eq!(d.test_selected, 0);
    assert_eq!(d.on_key(Key::Char('k')), KeyAction::Moved);
    assert_eq!(d.test_selected, 0);
    assert_eq!(d.on_key(Key::Char('h')), KeyAction::Moved);
    assert_eq!(d.test_file_selected, 0);
    assert_eq!(d.on_key(Key::Char('x')), KeyAction::Ignored);
    assert_eq!(d.on_key(Key::Other), KeyAction::Ignored);
}

#[test]
fn result_pane_shows_the_trimmed_transcript() {
    let results = vec![
        TestResult::Passed("  spaced out \n".to_string()),
        TestResult::NotRun,
    ];
    assert_eq!(test_display(&results, 0), Some("spaced out".to_string()));
    assert_eq!(test_display(&results, 1), Some("Test not run".to_string()));
    assert_eq!(test_display(&results, 2), None);
}
