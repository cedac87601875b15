use waitcell::WaitError;
use waitcell::WaitEvent;
use waitcell::WaitStatus;
use waitcell::scan_events;
use waitcell::timeout_verdict;
use waitcell::wait_step;
use waitcell::wait_verdict;

#[test]
fn step_matching_observation_ends_wait() {
    let status = wait_step(&5u32, &WaitEvent::Observed(5u32));
    assert_eq!(status, WaitStatus::Matched);
}

#[test]
fn step_other_observation_keeps_waiting() {
    let status = wait_step(&5u32, &WaitEvent::Observed(4u32));
    assert_eq!(status, WaitStatus::Observing);
}

#[test]
fn step_closed_channel_is_producer_gone() {
    let status = wait_step(&5u32, &WaitEvent::<u32>::Closed);
    assert_eq!(status, WaitStatus::ProducerGone);
}

#[test]
fn step_bool_flag() {
    assert_eq!(wait_step(&true, &WaitEvent::Observed(true)), WaitStatus::Matched);
    assert_eq!(wait_step(&true, &WaitEvent::Observed(false)), WaitStatus::Observing);
    assert_eq!(wait_step(&false, &WaitEvent::Observed(false)), WaitStatus::Matched);
}

#[test]
fn timeout_verdict_still_observing_times_out() {
    assert_eq!(timeout_verdict(WaitStatus::Observing), Err(WaitError::TimedOut));
}

#[test]
fn timeout_verdict_matched_is_success() {
    assert_eq!(timeout_verdict(WaitStatus::Matched), Ok(()));
}

#[test]
fn timeout_verdict_producer_gone_is_surfaced() {
    assert_eq!(timeout_verdict(WaitStatus::ProducerGone), Err(WaitError::ProducerGone));
}

#[test]
fn wait_verdict_observing_keeps_waiting() {
    assert_eq!(wait_verdict(WaitStatus::Observing), None);
}

#[test]
fn wait_verdict_matched_is_success() {
    assert_eq!(wait_verdict(WaitStatus::Matched), Some(Ok(())));
}

#[test]
fn wait_verdict_producer_gone_is_surfaced() {
    assert_eq!(wait_verdict(WaitStatus::ProducerGone), Some(Err(WaitError::ProducerGone)));
}

#[test]
fn scan_empty_trace_is_still_observing() {
    let events: Vec<WaitEvent<u32>> = vec![];
    assert_eq!(scan_events(&5u32, &events), WaitStatus::Observing);
}

#[test]
fn scan_stops_at_first_match() {
    let events = vec![
        WaitEvent::Observed(1u32),
        WaitEvent::Observed(2u32),
        WaitEvent::Observed(5u32),
        WaitEvent::Observed(9u32),
    ];
    assert_eq!(scan_events(&5u32, &events), WaitStatus::Matched);
}

#[test]
fn scan_without_match_is_still_observing() {
    let events = vec![WaitEvent::Observed(1u32), WaitEvent::Observed(2u32)];
    assert_eq!(scan_events(&5u32, &events), WaitStatus::Observing);
}

#[test]
fn scan_closed_before_match_is_producer_gone() {
    let events = vec![
        WaitEvent::Observed(1u32),
        WaitEvent::Closed,
        WaitEvent::Observed(5u32),
    ];
    assert_eq!(scan_events(&5u32, &events), WaitStatus::ProducerGone);
}

#[test]
fn scan_match_before_closed_is_matched() {
    let events = vec![WaitEvent::Observed(5u32), WaitEvent::Closed];
    assert_eq!(scan_events(&5u32, &events), WaitStatus::Matched);
}

#[test]
fn scan_matching_snapshot_returns_promptly() {
    let events = vec![WaitEvent::Observed(5u32)];
    assert_eq!(scan_events(&5u32, &events), WaitStatus::Matched);
}
