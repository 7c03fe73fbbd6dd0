use rktop::cli::Mode;
use rktop::tui::{
    action_from_key, adjust_refresh_interval, reduce_tui_state, refresh_poll_timeout, KeyCode,
    KeyInput, RefreshState, RetrySchedule, TuiAction, TuiControl, OPTIONAL_RETRY_NANOS,
};

const MS: u128 = 1_000_000;

fn press(code: KeyCode) -> KeyInput {
    KeyInput { code, ctrl: false, press: true }
}

#[test]
fn refresh_interval_adjustment_uses_100ms_steps() {
    assert_eq!(adjust_refresh_interval(1_000, -100), 900);
    assert_eq!(adjust_refresh_interval(100, -100), 100);
    assert_eq!(adjust_refresh_interval(60_000, 100), 60_000);
}

#[test]
fn refresh_interval_out_of_i64_range_restarts_from_one_second() {
    assert_eq!(adjust_refresh_interval(u64::MAX, 100), 1_100);
    assert_eq!(adjust_refresh_interval(0, 0), 100);
    assert_eq!(adjust_refresh_interval(5_000, 100_000), 60_000);
}

#[test]
fn forced_refresh_poll_does_not_wait_for_old_cadence() {
    assert_eq!(refresh_poll_timeout(Mode::Live, true, false, 0, 1_000), 0);
}

#[test]
fn poll_timeout_is_capped_at_fifty_milliseconds() {
    assert_eq!(refresh_poll_timeout(Mode::Mock, true, false, 0, 1_000), 50 * MS);
    assert_eq!(refresh_poll_timeout(Mode::Live, true, true, 0, 1_000), 50 * MS);
    assert_eq!(refresh_poll_timeout(Mode::Live, false, false, 0, 1_000), 50 * MS);
    assert_eq!(refresh_poll_timeout(Mode::Live, false, false, 980 * MS, 1_000), 20 * MS);
    assert_eq!(refresh_poll_timeout(Mode::Live, false, false, 2_000 * MS, 1_000), 0);
}

#[test]
fn tui_reducer_updates_refresh_interval_and_requests_refresh() {
    let mut state = RefreshState::new(1_000);

    assert_eq!(reduce_tui_state(&mut state, TuiAction::AdjustRefresh(-100)), TuiControl::Continue);

    assert_eq!(state.refresh_interval_ms, 900);
    assert!(state.force_refresh);
    assert_eq!(state.refresh_poll_timeout(Mode::Live, 0), 0);
}

#[test]
fn refresh_does_not_start_while_collection_is_in_flight() {
    let mut state = RefreshState::new(500);
    let elapsed = 1_000 * MS;
    assert!(state.should_refresh(Mode::Live, elapsed));

    state.refresh_in_flight = true;
    assert!(
        !state.should_refresh(Mode::Live, elapsed),
        "UI loop should not start overlapping SSH collection jobs"
    );
}

#[test]
fn tui_reducer_reports_exit_without_mutating_refresh() {
    let mut state = RefreshState::new(1_000);

    assert_eq!(reduce_tui_state(&mut state, TuiAction::Exit), TuiControl::Exit);

    assert_eq!(state.refresh_interval_ms, 1_000);
    assert!(!state.force_refresh);
}

#[test]
fn refresh_lifecycle_clears_forcing_and_in_flight_flags() {
    let mut state = RefreshState::new(1_000);
    assert!(!state.should_refresh(Mode::Live, 999 * MS));
    assert!(state.should_refresh(Mode::Live, 1_000 * MS));
    assert!(!state.should_refresh(Mode::Mock, 5_000 * MS));
    reduce_tui_state(&mut state, TuiAction::AdjustRefresh(100));
    assert!(state.should_refresh(Mode::Live, 0));
    state.start_refresh();
    assert!(state.refresh_in_flight);
    assert!(!state.force_refresh);
    assert_eq!(state.refresh_poll_timeout(Mode::Live, 0), 50 * MS);
    state.finish_refresh();
    assert!(!state.refresh_in_flight);
    assert_eq!(state.refresh_interval_ms, 1_100);
    assert_eq!(reduce_tui_state(&mut state, TuiAction::Ignore), TuiControl::Continue);
    assert_eq!(state, RefreshState { refresh_interval_ms: 1_100, force_refresh: false, refresh_in_flight: false });
}

#[test]
fn keys_map_to_exit_and_refresh_steps() {
    assert_eq!(action_from_key(press(KeyCode::Char('q'))), TuiAction::Exit);
    assert_eq!(action_from_key(press(KeyCode::Esc)), TuiAction::Exit);
    assert_eq!(
        action_from_key(KeyInput { code: KeyCode::Char('c'), ctrl: true, press: true }),
        TuiAction::Exit
    );
    assert_eq!(action_from_key(press(KeyCode::Char('c'))), TuiAction::Ignore);
    assert_eq!(action_from_key(press(KeyCode::Char('+'))), TuiAction::AdjustRefresh(100));
    assert_eq!(action_from_key(press(KeyCode::Char('='))), TuiAction::AdjustRefresh(100));
    assert_eq!(action_from_key(press(KeyCode::Char('-'))), TuiAction::AdjustRefresh(-100));
    assert_eq!(action_from_key(press(KeyCode::Enter)), TuiAction::Ignore);
    assert_eq!(
        action_from_key(KeyInput { code: KeyCode::Char('q'), ctrl: false, press: false }),
        TuiAction::Ignore
    );
}

#[test]
fn failed_optional_hosts_are_skipped_until_their_retry_time() {
    let mut schedule = RetrySchedule::new();
    assert!(schedule.skipped_optional_ids(0).is_empty());

    schedule.note_optional_failures(vec!["nas".to_string(), "lab".to_string()], 10);
    assert_eq!(schedule.skipped_optional_ids(11), vec!["nas".to_string(), "lab".to_string()]);

    schedule.note_optional_failures(vec!["lab".to_string()], 20 * 1_000_000_000);
    let later = 10 + OPTIONAL_RETRY_NANOS;
    assert_eq!(schedule.skipped_optional_ids(later), vec!["lab".to_string()]);
    assert!(schedule.skipped_optional_ids(20 * 1_000_000_000 + OPTIONAL_RETRY_NANOS).is_empty());
}

#[test]
fn refresh_steps_up_and_down_cancel_inside_the_range() {
    for current in [100u64, 1_000, 59_900] {
        let up = rktop::tui::adjust_refresh_interval(current, 100);
        assert_eq!(up, current + 100);
        assert_eq!(rktop::tui::adjust_refresh_interval(up, -100), current);
    }
    assert_eq!(rktop::tui::adjust_refresh_interval(60_000, 100), 60_000);
}
