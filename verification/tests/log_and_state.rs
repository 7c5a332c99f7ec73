use hygrocal::log::{format_fixed, HistoryLog, LogRecord};
use hygrocal::state::{RawReading, SharedState};

#[test]
fn fixed_formatting_exact() {
    assert_eq!(format_fixed(38_625_000_000, 3), "38.625");
    assert_eq!(format_fixed(44_655_751_437, 3), "44.655");
    assert_eq!(format_fixed(7_844_248_563, 6), "7.844248");
    assert_eq!(format_fixed(25_000_000_000, 2), "25.00");
    assert_eq!(format_fixed(-5_000_000, 3), "-0.005");
    assert_eq!(format_fixed(1_000, 6), "0.000001");
    assert_eq!(format_fixed(0, 2), "0.00");
}

#[test]
fn log_starts_with_header() {
    let log = HistoryLog::new();
    assert_eq!(log.line_count(), 1);
    assert_eq!(
        log.line(0).as_str(),
        "timestamp,actual_humidity,predicted_humidity,residual_error,temperature"
    );
}

#[test]
fn appended_record_renders_exactly() {
    let mut log = HistoryLog::new();
    let rec = LogRecord {
        timestamp: String::from("2024-01-01 00:00:00"),
        actual: 52_500_000_000,
        predicted: 44_655_751_437,
        residual_error: 7_844_248_563,
        temperature: 25_000_000_000,
    };
    log.append(&rec);
    assert_eq!(log.line_count(), 2);
    assert_eq!(log.line(1).as_str(), "2024-01-01 00:00:00,52.500,44.655,7.844248,25.00");
}

#[test]
fn clock_stamped_append_renders_fields() {
    // exercises the trusted clock call; whatever timestamp it read,
    // exactly one line is appended and the fields render exactly
    let mut log = HistoryLog::new();
    log.append_now(52_500_000_000, 44_655_751_437, 7_844_248_563, 25_000_000_000);
    assert_eq!(log.line_count(), 2);
    let line = log.line(1).as_str();
    assert!(line.ends_with(",52.500,44.655,7.844248,25.00"));
    // the timestamp part has second precision: "YYYY-MM-DD HH:MM:SS"
    let ts = &line[..line.len() - ",52.500,44.655,7.844248,25.00".len()];
    assert_eq!(ts.len(), 19);
}

#[test]
fn log_grows_by_one_line_per_record() {
    let mut log = HistoryLog::new();
    for i in 0..20i64 {
        let rec = LogRecord {
            timestamp: String::from("2024-01-01 00:00:00"),
            actual: i * 1_000_000_000,
            predicted: i * 500_000_000,
            residual_error: (i * 1_000_000_000 - i * 500_000_000).abs(),
            temperature: 25_000_000_000,
        };
        log.append(&rec);
        assert_eq!(log.line_count(), (i + 2) as usize);
    }
}

#[test]
fn snapshots_never_mix_writes() {
    // One writer, a thousand sequential writes with linked fields;
    // interleaved reads must always see both fields from one write.
    let mut shared = SharedState::new(RawReading { humidity: 0, temperature: 1000 });
    for i in 0..1000i64 {
        let r = shared.read();
        assert_eq!(r.temperature, r.humidity + 1000);
        shared.write(RawReading { humidity: i, temperature: i + 1000 });
        for _ in 0..10 {
            let snap = shared.read();
            assert_eq!(snap.humidity, i);
            assert_eq!(snap.temperature, i + 1000);
        }
    }
}

#[test]
fn read_returns_last_write() {
    let mut shared = SharedState::new(RawReading { humidity: 7, temperature: 8 });
    assert_eq!(shared.read(), RawReading { humidity: 7, temperature: 8 });
    shared.write(RawReading { humidity: 9, temperature: 10 });
    assert_eq!(shared.read(), RawReading { humidity: 9, temperature: 10 });
}
