use hygrocal::engine::humidity_config;
use hygrocal::ingest::{
    ingest_cycle, ingest_cycle_clocked, CycleOutcome, IngestEvent, IngestState, IngestionLoop,
};
use hygrocal::log::HistoryLog;
use hygrocal::state::{RawReading, SharedState};

fn bytes(s: &str) -> Vec<u8> {
    s.as_bytes().to_vec()
}

#[test]
fn connecting_transitions() {
    let mut lp = IngestionLoop::new();
    assert_eq!(lp.state, IngestState::Connecting);
    assert_eq!(lp.step(&IngestEvent::Opened), CycleOutcome::Idle);
    assert_eq!(lp.state, IngestState::Reading);

    let mut lp2 = IngestionLoop::new();
    assert_eq!(lp2.step(&IngestEvent::OpenFailed), CycleOutcome::Idle);
    assert_eq!(lp2.state, IngestState::Simulating);
}

#[test]
fn reading_handles_payloads_and_errors() {
    let mut lp = IngestionLoop::new();
    lp.step(&IngestEvent::Opened);
    let out = lp.step(&IngestEvent::Payload(bytes("52.5,25.0")));
    assert_eq!(
        out,
        CycleOutcome::Stored(RawReading { humidity: 52_500_000_000, temperature: 25_000_000_000 })
    );
    assert_eq!(lp.state, IngestState::Reading);
    assert_eq!(lp.step(&IngestEvent::Payload(bytes("garbage"))), CycleOutcome::Malformed);
    assert_eq!(lp.state, IngestState::Reading);
    assert_eq!(lp.step(&IngestEvent::ReadTransient), CycleOutcome::Idle);
    assert_eq!(lp.state, IngestState::Reading);
    assert_eq!(lp.step(&IngestEvent::DeviceLost), CycleOutcome::Idle);
    assert_eq!(lp.state, IngestState::Connecting);
}

#[test]
fn simulator_yields_deterministic_waveform() {
    let mut lp = IngestionLoop::new();
    lp.step(&IngestEvent::OpenFailed);
    assert_eq!(lp.sim_phase, 0);
    let out0 = lp.step(&IngestEvent::Tick);
    assert_eq!(
        out0,
        CycleOutcome::Stored(RawReading { humidity: 50_000_000_000, temperature: 29_999_999_995 })
    );
    assert_eq!(lp.sim_phase, 1);
    let out1 = lp.step(&IngestEvent::Tick);
    assert_eq!(
        out1,
        CycleOutcome::Stored(RawReading { humidity: 50_101_826_480, temperature: 29_999_977_200 })
    );
    assert_eq!(lp.state, IngestState::Simulating);
    // the waveform is a function of the phase alone
    assert_eq!(IngestionLoop::sim_reading(1), IngestionLoop::sim_reading(1));
}

#[test]
fn cycle_stores_predicts_and_logs() {
    let cfg = humidity_config();
    let mut lp = IngestionLoop::new();
    let mut shared = SharedState::new(RawReading { humidity: 0, temperature: 0 });
    let mut log = HistoryLog::new();
    lp.step(&IngestEvent::Opened);

    let out = ingest_cycle(
        &mut lp,
        &mut shared,
        &mut log,
        &cfg,
        &IngestEvent::Payload(bytes("52.5,25.0")),
        1000,
        String::from("2024-01-01 00:00:00"),
    );
    assert!(matches!(out, CycleOutcome::Stored(_)));
    assert_eq!(
        shared.read(),
        RawReading { humidity: 52_500_000_000, temperature: 25_000_000_000 }
    );
    assert_eq!(log.line_count(), 2);
    assert_eq!(log.line(1).as_str(), "2024-01-01 00:00:00,52.500,44.655,7.844248,25.00");
}

#[test]
fn malformed_cycle_changes_nothing() {
    let cfg = humidity_config();
    let mut lp = IngestionLoop::new();
    let mut shared = SharedState::new(RawReading { humidity: 1, temperature: 2 });
    let mut log = HistoryLog::new();
    lp.step(&IngestEvent::Opened);

    let out = ingest_cycle(
        &mut lp,
        &mut shared,
        &mut log,
        &cfg,
        &IngestEvent::Payload(bytes("not,numbers")),
        1000,
        String::from("2024-01-01 00:00:00"),
    );
    assert_eq!(out, CycleOutcome::Malformed);
    assert_eq!(shared.read(), RawReading { humidity: 1, temperature: 2 });
    assert_eq!(log.line_count(), 1);
}

#[test]
fn n_cycles_leave_header_plus_n_lines() {
    let cfg = humidity_config();
    let mut lp = IngestionLoop::new();
    let mut shared = SharedState::new(RawReading { humidity: 0, temperature: 0 });
    let mut log = HistoryLog::new();
    lp.step(&IngestEvent::Opened);

    let n = 25;
    for i in 0..n {
        let payload = format!("{}.5,25.0", 40 + (i % 20));
        let out = ingest_cycle(
            &mut lp,
            &mut shared,
            &mut log,
            &cfg,
            &IngestEvent::Payload(payload.into_bytes()),
            1000 + i as u64,
            String::from("2024-01-01 00:00:00"),
        );
        assert!(matches!(out, CycleOutcome::Stored(_)));
    }
    assert_eq!(log.line_count(), n + 1);
}

#[test]
fn clocked_cycle_appends_one_line() {
    // exercises the trusted chrono calls end to end
    let cfg = humidity_config();
    let mut lp = IngestionLoop::new();
    let mut shared = SharedState::new(RawReading { humidity: 0, temperature: 0 });
    let mut log = HistoryLog::new();
    lp.step(&IngestEvent::OpenFailed);

    let out = ingest_cycle_clocked(&mut lp, &mut shared, &mut log, &cfg, &IngestEvent::Tick);
    assert!(matches!(out, CycleOutcome::Stored(_)));
    assert_eq!(log.line_count(), 2);
    assert_eq!(shared.read().humidity, 50_000_000_000);
    // the line ends with the rendered simulator reading
    assert!(log.line(1).as_str().ends_with(",29.99"));
}
