use rustdesk_clipboard::timing::{
    plan_remote_update, recheck_remote_update, ClipboardTiming, RemoteUpdateStep,
    LOCAL_CLIPBOARD_QUIET_DUR,
};

const MS: u64 = 1_000_000;

#[test]
fn recent_local_change_delays_remote_update() {
    let start = 5_000 * MS;
    let now = start + 100 * MS;
    let mut timing = ClipboardTiming::default();

    timing.mark_local_change(start);

    assert!(timing.remote_update_delay(now).is_some());
}

#[test]
fn expired_local_change_allows_remote_update() {
    let start = 5_000 * MS;
    let now = start + LOCAL_CLIPBOARD_QUIET_DUR + MS;
    let mut timing = ClipboardTiming::default();

    timing.mark_local_change(start);

    assert!(timing.remote_update_delay(now).is_none());
}

#[test]
fn remote_apply_after_local_change_allows_next_remote_update() {
    let start = 5_000 * MS;
    let now = start + 300 * MS;
    let mut timing = ClipboardTiming::default();

    timing.mark_local_change(start + 100 * MS);
    timing.mark_remote_apply(start + 200 * MS);

    assert!(timing.remote_update_delay(now).is_none());
}

#[test]
fn delay_is_the_rest_of_the_quiet_period() {
    let mut timing = ClipboardTiming::new();
    assert_eq!(timing.remote_update_delay(0), None);
    timing.mark_local_change(1_000 * MS);
    assert_eq!(timing.remote_update_delay(1_000 * MS), Some(750 * MS));
    assert_eq!(timing.remote_update_delay(1_100 * MS), Some(650 * MS));
    assert_eq!(timing.remote_update_delay(1_749 * MS), Some(MS));
    assert_eq!(timing.remote_update_delay(1_750 * MS), None);
    // A clock reading before the change counts as no time elapsed.
    assert_eq!(timing.remote_update_delay(900 * MS), Some(750 * MS));
}

#[test]
fn remote_apply_before_local_change_keeps_delay() {
    let mut timing = ClipboardTiming::new();
    timing.mark_remote_apply(1_000 * MS);
    timing.mark_local_change(1_100 * MS);
    assert_eq!(timing.remote_update_delay(1_200 * MS), Some(650 * MS));
    // Applied at the same instant as the change: no delay.
    timing.mark_remote_apply(1_100 * MS);
    assert_eq!(timing.remote_update_delay(1_200 * MS), None);
}

#[test]
fn waiting_the_delay_lets_the_update_through() {
    let mut timing = ClipboardTiming::new();
    timing.mark_local_change(2_000 * MS);
    let now = 2_300 * MS;
    let step = plan_remote_update(&timing, now);
    assert_eq!(step, RemoteUpdateStep::WaitThenRecheck(450 * MS));
    assert_eq!(recheck_remote_update(&timing, now + 450 * MS), RemoteUpdateStep::Apply);
    // A newer local change during the wait drops the update.
    timing.mark_local_change(2_500 * MS);
    assert_eq!(recheck_remote_update(&timing, now + 450 * MS), RemoteUpdateStep::Skip);
}

#[test]
fn no_change_applies_at_once() {
    let timing = ClipboardTiming::new();
    assert_eq!(plan_remote_update(&timing, 42), RemoteUpdateStep::Apply);
}
