use rustdesk_clipboard::data::ClipboardData;
use rustdesk_clipboard::retry::{
    create_retry_delay_ms, read_step, targets_wait_step, ReadOutcome, ReadStep, SelectionNotify,
    TargetsWaitStep, CLIPBOARD_GET_MAX_RETRY,
};

#[test]
fn read_retries() {
    assert_eq!(CLIPBOARD_GET_MAX_RETRY, 3);
    assert!(matches!(read_step(0, ReadOutcome::Occupied), ReadStep::SleepThenRetry(33)));
    assert!(matches!(read_step(1, ReadOutcome::Occupied), ReadStep::SleepThenRetry(33)));
    assert!(matches!(read_step(2, ReadOutcome::Occupied), ReadStep::SleepThenGiveUp(33)));
    assert!(matches!(read_step(0, ReadOutcome::Failed), ReadStep::Fail));
    match read_step(1, ReadOutcome::Data(vec![ClipboardData::Empty, ClipboardData::Text("x".into())])) {
        ReadStep::Done(d) => assert_eq!(d.len(), 1),
        other => panic!("unexpected {other:?}"),
    }
}

#[test]
fn create_retries() {
    assert_eq!(create_retry_delay_ms(1), Some(30));
    assert_eq!(create_retry_delay_ms(4), Some(120));
    assert_eq!(create_retry_delay_ms(5), None);
}

#[test]
fn waiting_for_targets() {
    let ev = |requestor, property| SelectionNotify { requestor, selection: 2, target: 3, property };
    assert_eq!(targets_wait_step(10, 10, None, false, 1, 2, 3, 0), TargetsWaitStep::TimedOut);
    assert_eq!(targets_wait_step(5, 10, None, false, 1, 2, 3, 0), TargetsWaitStep::PollAgain);
    assert_eq!(targets_wait_step(5, 10, None, true, 1, 2, 3, 0), TargetsWaitStep::Ignore);
    assert_eq!(targets_wait_step(5, 10, Some(ev(9, 4)), false, 1, 2, 3, 0), TargetsWaitStep::Ignore);
    assert_eq!(targets_wait_step(5, 10, Some(ev(1, 0)), false, 1, 2, 3, 0), TargetsWaitStep::NoTargets);
    assert_eq!(targets_wait_step(5, 10, Some(ev(1, 4)), false, 1, 2, 3, 0), TargetsWaitStep::ReadTargets);
}
