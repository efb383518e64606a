use indexmap::IndexSet;
use secinfra::accessions::{filter_new, no_accessions, MAX_ACCESSIONS};
use secinfra::common::Submission;
use secinfra::monitor::{ClockMark, Monitor, MonitorAction, MonitorEvent, MonitorLoop, Phase};

fn filing(accession: u64) -> Submission {
    Submission {
        accession,
        submission_type: "8-K".to_string(),
        ciks: vec![1],
        filing_date: "2026-05-18".to_string(),
    }
}

fn filings(accessions: &[u64]) -> Vec<Submission> {
    accessions.iter().map(|accession| filing(*accession)).collect()
}

fn numbers(batch: &[Submission]) -> Vec<u64> {
    batch.iter().map(|submission| submission.accession).collect()
}

fn step(monitor: &mut MonitorLoop, event: MonitorEvent) -> MonitorAction {
    monitor.step(event).expect("an event that is waited for")
}

fn armed(at: u64) -> MonitorEvent {
    let mark = ClockMark { at, reaches_back: true };
    MonitorEvent::Armed { poll: mark, validation: mark }
}

#[test]
fn monitors_are_configured() {
    let monitor = Monitor::new();
    assert_eq!(monitor.polling_interval_ms, 200);
    assert_eq!(monitor.validation_interval_ms, 60_000);
    assert!(monitor.start_date.is_none());
    assert!(monitor.use_rss && monitor.use_efts);
    let date = chrono::NaiveDate::from_ymd_opt(2026, 5, 18).unwrap();
    let monitor = Monitor::default()
        .polling_interval_ms(5)
        .validation_interval_ms(7)
        .start_date(date)
        .use_rss(false)
        .use_efts(true);
    assert_eq!(monitor.polling_interval_ms, 5);
    assert_eq!(monitor.validation_interval_ms, 7);
    assert_eq!(monitor.start_date, Some(date));
    assert!(!monitor.use_rss && monitor.use_efts);
}

#[test]
fn only_new_filings_pass() {
    let mut seen = no_accessions();
    assert_eq!(numbers(&filter_new(filings(&[3, 1, 3, 2]), &mut seen)), [3, 1, 2]);
    assert_eq!(numbers(&filter_new(filings(&[2, 4, 1]), &mut seen)), [4]);
    assert!(filter_new(filings(&[3, 1, 2, 4]), &mut seen).is_empty());
    assert_eq!(seen.iter().copied().collect::<Vec<u64>>(), [3, 1, 2, 4]);
}

#[test]
fn the_oldest_number_is_forgotten_first() {
    let mut seen: IndexSet<u64> = no_accessions();
    let all: Vec<u64> = (0..MAX_ACCESSIONS as u64).collect();
    assert_eq!(filter_new(filings(&all), &mut seen).len(), MAX_ACCESSIONS);
    assert_eq!(seen.len(), MAX_ACCESSIONS);
    assert_eq!(numbers(&filter_new(filings(&[5, 1_000_000]), &mut seen)), [1_000_000]);
    assert_eq!(seen.len(), MAX_ACCESSIONS);
    assert_eq!(seen.get_index(0), Some(&1));
    assert_eq!(seen.get_index(MAX_ACCESSIONS - 1), Some(&1_000_000));
    assert_eq!(numbers(&filter_new(filings(&[0]), &mut seen)), [0]);
    assert_eq!(numbers(&filter_new(filings(&[1]), &mut seen)), [1]);
}

#[test]
fn a_number_at_the_edge_of_the_window_can_come_again_in_the_same_batch() {
    let mut seen = no_accessions();
    let all: Vec<u64> = (0..MAX_ACCESSIONS as u64).collect();
    filter_new(filings(&all), &mut seen);
    let batch = [0, 1_000_000];
    assert_eq!(numbers(&filter_new(filings(&batch), &mut seen)), [1_000_000]);
    assert_eq!(numbers(&filter_new(filings(&batch), &mut seen)), [0]);
}

#[test]
fn the_first_round_validates_and_then_polls() {
    let mut monitor = Monitor::new().build();
    assert!(matches!(step(&mut monitor, MonitorEvent::Start), MonitorAction::Arm));
    assert!(matches!(step(&mut monitor, armed(1_000)), MonitorAction::ReadClock));
    assert!(matches!(step(&mut monitor, MonitorEvent::Clock(1_000)), MonitorAction::Validate));
    match step(&mut monitor, MonitorEvent::Validated(filings(&[1, 2]))) {
        MonitorAction::Report(batch) => assert_eq!(numbers(&batch), [1, 2]),
        other => panic!("{other:?}"),
    }
    assert!(matches!(step(&mut monitor, MonitorEvent::Taken), MonitorAction::ReadClock));
    assert!(matches!(step(&mut monitor, MonitorEvent::Clock(5_000)), MonitorAction::ReadClock));
    assert!(matches!(step(&mut monitor, MonitorEvent::Clock(5_001)), MonitorAction::Poll));
    match step(&mut monitor, MonitorEvent::Polled(Some(filings(&[2, 3])))) {
        MonitorAction::Report(batch) => assert_eq!(numbers(&batch), [3]),
        other => panic!("{other:?}"),
    }
    assert!(matches!(step(&mut monitor, MonitorEvent::Taken), MonitorAction::ReadClock));
    assert!(matches!(step(&mut monitor, MonitorEvent::Clock(6_000)), MonitorAction::ReadClock));
    match step(&mut monitor, MonitorEvent::Clock(7_000)) {
        MonitorAction::Sleep(nanos) => assert_eq!(nanos, 200_000_000 - 1_000),
        other => panic!("{other:?}"),
    }
    assert!(matches!(step(&mut monitor, MonitorEvent::Slept), MonitorAction::ReadClock));
    assert!(matches!(
        step(&mut monitor, MonitorEvent::Clock(200_006_000)),
        MonitorAction::Poll
    ));
}

#[test]
fn nothing_new_is_not_reported() {
    let mut monitor = Monitor::new().use_efts(false).build();
    step(&mut monitor, MonitorEvent::Start);
    step(&mut monitor, armed(0));
    assert!(matches!(step(&mut monitor, MonitorEvent::Clock(0)), MonitorAction::Poll));
    assert!(matches!(
        step(&mut monitor, MonitorEvent::Polled(Some(Vec::new()))),
        MonitorAction::ReadClock
    ));
    assert_eq!(monitor.phase, Phase::MarkingPoll);
    step(&mut monitor, MonitorEvent::Clock(10));
    assert!(matches!(
        step(&mut monitor, MonitorEvent::Clock(300_000_000)),
        MonitorAction::ReadClock
    ));
    assert!(matches!(
        step(&mut monitor, MonitorEvent::Clock(300_000_000)),
        MonitorAction::Poll
    ));
    assert!(matches!(step(&mut monitor, MonitorEvent::Polled(None)), MonitorAction::ReadClock));
    assert_eq!(monitor.phase, Phase::MarkingPoll);
}

#[test]
fn a_validation_that_is_due_goes_before_a_poll() {
    let mut monitor = Monitor::new().validation_interval_ms(1).polling_interval_ms(1).build();
    step(&mut monitor, MonitorEvent::Start);
    step(&mut monitor, armed(0));
    for now in [0, 2_000_000, 4_000_000] {
        assert!(matches!(step(&mut monitor, MonitorEvent::Clock(now)), MonitorAction::Validate));
        step(&mut monitor, MonitorEvent::Validated(Vec::new()));
        step(&mut monitor, MonitorEvent::Clock(now + 1));
    }
    assert!(matches!(step(&mut monitor, MonitorEvent::Clock(4_000_002)), MonitorAction::Poll));
}

#[test]
fn the_backfill_comes_first() {
    let date = chrono::NaiveDate::from_ymd_opt(2026, 5, 1).unwrap();
    let mut monitor = Monitor::new().start_date(date).use_rss(false).build();
    match step(&mut monitor, MonitorEvent::Start) {
        MonitorAction::BeginBackfill(start) => assert_eq!(start, date),
        other => panic!("{other:?}"),
    }
    match step(&mut monitor, MonitorEvent::Backfilled(filings(&[4, 4]))) {
        MonitorAction::Report(batch) => assert_eq!(numbers(&batch), [4]),
        other => panic!("{other:?}"),
    }
    assert!(matches!(step(&mut monitor, MonitorEvent::Taken), MonitorAction::ContinueBackfill));
    assert!(matches!(
        step(&mut monitor, MonitorEvent::Backfilled(filings(&[4]))),
        MonitorAction::ContinueBackfill
    ));
    assert!(matches!(step(&mut monitor, MonitorEvent::BackfillEnded), MonitorAction::Arm));
    step(&mut monitor, armed(50));
    assert!(matches!(step(&mut monitor, MonitorEvent::Clock(50)), MonitorAction::Validate));
    assert!(matches!(
        step(&mut monitor, MonitorEvent::Validated(filings(&[4]))),
        MonitorAction::ReadClock
    ));
    step(&mut monitor, MonitorEvent::Clock(100));
    assert!(matches!(step(&mut monitor, MonitorEvent::Clock(100)), MonitorAction::ReadClock));
    match step(&mut monitor, MonitorEvent::Clock(200)) {
        MonitorAction::Sleep(nanos) => assert_eq!(nanos, 60_000_000_000 - 100),
        other => panic!("{other:?}"),
    }
}

#[test]
fn a_clock_that_does_not_reach_back_delays_the_first_round() {
    let mut monitor = Monitor::new().build();
    step(&mut monitor, MonitorEvent::Start);
    let mark = ClockMark { at: 1_000, reaches_back: false };
    step(&mut monitor, MonitorEvent::Armed { poll: mark, validation: mark });
    assert!(matches!(step(&mut monitor, MonitorEvent::Clock(2_000)), MonitorAction::ReadClock));
    match step(&mut monitor, MonitorEvent::Clock(3_000)) {
        MonitorAction::Sleep(nanos) => assert_eq!(nanos, 200_000_000 - 2_000),
        other => panic!("{other:?}"),
    }
}

#[test]
fn events_out_of_turn_change_nothing() {
    let mut monitor = Monitor::new().build();
    assert!(monitor.step(MonitorEvent::Clock(3)).is_none());
    assert!(monitor.step(MonitorEvent::Taken).is_none());
    assert!(monitor.step(MonitorEvent::Validated(filings(&[1]))).is_none());
    assert_eq!(monitor.phase, Phase::Starting);
    assert!(monitor.accessions.is_empty());
    assert!(monitor.step(MonitorEvent::Start).is_some());
}

#[test]
fn long_intervals_do_not_overflow() {
    let mut monitor =
        Monitor::new().polling_interval_ms(u64::MAX).validation_interval_ms(u64::MAX).build();
    step(&mut monitor, MonitorEvent::Start);
    step(&mut monitor, armed(0));
    assert!(matches!(step(&mut monitor, MonitorEvent::Clock(u64::MAX)), MonitorAction::Validate));
    step(&mut monitor, MonitorEvent::Validated(Vec::new()));
    step(&mut monitor, MonitorEvent::Clock(u64::MAX));
    assert!(matches!(step(&mut monitor, MonitorEvent::Clock(u64::MAX)), MonitorAction::Poll));
    step(&mut monitor, MonitorEvent::Polled(None));
    step(&mut monitor, MonitorEvent::Clock(u64::MAX));
    match step(&mut monitor, MonitorEvent::Clock(u64::MAX)) {
        MonitorAction::Sleep(nanos) => assert_eq!(nanos, u128::from(u64::MAX) * 1_000_000),
        other => panic!("{other:?}"),
    }
}

#[test]
fn a_number_is_reported_again_only_after_as_many_others_as_are_remembered() {
    let mut monitor = Monitor::new().use_efts(false).polling_interval_ms(0).build();
    step(&mut monitor, MonitorEvent::Start);
    step(&mut monitor, armed(0));
    let mut reported: Vec<u64> = Vec::new();
    let mut now = 0;
    for round in 0..12u64 {
        let batch: Vec<u64> = (0..10_000).map(|i| (round * 10_000 + i) % 60_000).collect();
        while !matches!(step(&mut monitor, MonitorEvent::Clock(now)), MonitorAction::Poll) {
            now += 1;
        }
        match step(&mut monitor, MonitorEvent::Polled(Some(filings(&batch)))) {
            MonitorAction::Report(new) => reported.append(&mut numbers(&new)),
            other => panic!("{other:?}"),
        }
        step(&mut monitor, MonitorEvent::Taken);
        step(&mut monitor, MonitorEvent::Clock(now));
    }
    assert_eq!(reported.len(), 120_000);
    for (i, number) in reported.iter().enumerate().take(60_000) {
        assert_eq!(reported[i + 60_000], *number);
    }
    let last: Vec<u64> = monitor.accessions.iter().copied().collect();
    assert_eq!(last, reported[reported.len() - MAX_ACCESSIONS..]);
}

#[test]
fn batches_can_be_joined() {
    let (first, second) = ([3, 1, 3], [1, 2, 3]);
    let mut apart = no_accessions();
    let mut new = numbers(&filter_new(filings(&first), &mut apart));
    new.append(&mut numbers(&filter_new(filings(&second), &mut apart)));
    let mut joined = no_accessions();
    assert_eq!(numbers(&filter_new(filings(&[3, 1, 3, 1, 2, 3]), &mut joined)), new);
    assert_eq!(joined, apart);
}
