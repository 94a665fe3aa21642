use wslg_clipboard::error::{IoError, IoErrorKind};
use wslg_clipboard::pipe::{read_step, write_step, ReadOutcome, ReadStep, WriteOutcome};
use wslg_clipboard::status::{Health, StatusWriter};

#[test]
fn read_steps_collect_until_the_limit() {
    let mut output = Vec::new();
    assert!(matches!(
        read_step(&mut output, ReadOutcome::Data(b"hello".to_vec()), 8),
        ReadStep::Continue
    ));
    assert_eq!(output, b"hello".to_vec());
    assert!(matches!(read_step(&mut output, ReadOutcome::WouldBlock, 8), ReadStep::Done(false)));
    assert!(matches!(read_step(&mut output, ReadOutcome::Interrupted, 8), ReadStep::Continue));
    match read_step(&mut output, ReadOutcome::Data(b"world".to_vec()), 8) {
        ReadStep::Fail(error) => {
            assert_eq!(error.kind, IoErrorKind::InvalidData);
            assert_eq!(error.message, "text exceeded the 8 byte limit");
        }
        _ => panic!("expected the limit"),
    }
    assert_eq!(output, b"hello".to_vec());
    assert!(matches!(read_step(&mut output, ReadOutcome::Closed, 8), ReadStep::Done(true)));
}

#[test]
fn write_steps_advance_or_stop() {
    assert_eq!(write_step(10, WriteOutcome::Wrote(4)), Ok(6));
    assert_eq!(write_step(10, WriteOutcome::WouldBlock), Ok(10));
    assert_eq!(write_step(10, WriteOutcome::Interrupted), Ok(10));
    let error = write_step(10, WriteOutcome::Wrote(0)).unwrap_err();
    assert_eq!(error.kind, IoErrorKind::WriteZero);
    let failure = IoError { kind: IoErrorKind::BrokenPipe, message: "gone".to_string() };
    assert_eq!(write_step(10, WriteOutcome::Failed(failure.clone())), Err(failure));
}

#[test]
fn status_file_lists_the_health() {
    let mut writer = StatusWriter::at(std::path::PathBuf::from("/tmp/status"), "both");
    let snapshot = StatusWriter::snapshot(Health::Degraded, Some(12), Some("line one\nline two\r"));
    assert_eq!(snapshot.last_error.as_deref(), Some("line one line two "));
    assert!(writer.is_new(&snapshot));
    assert_eq!(
        writer.contents(&snapshot, 99),
        "health=degraded\nmode=both\nbroker_pid=99\nagent_pid=12\nlast_error=line one line two \n"
    );
    writer.record(snapshot);
    let again = StatusWriter::snapshot(Health::Degraded, Some(12), Some("line one\nline two\r"));
    assert!(!writer.is_new(&again));
    let running = StatusWriter::snapshot(Health::Running, None, None);
    assert!(writer.is_new(&running));
    assert_eq!(
        writer.contents(&running, 1),
        "health=running\nmode=both\nbroker_pid=1\nagent_pid=-\nlast_error=-\n"
    );
}

#[test]
fn status_is_prepared_only_when_it_changed() {
    let mut writer = StatusWriter::at(std::path::PathBuf::from("/tmp/status"), "to-windows");
    let (snapshot, text) = writer.prepare(Health::Starting, None, None, 5).unwrap();
    assert_eq!(
        text,
        "health=starting\nmode=to-windows\nbroker_pid=5\nagent_pid=-\nlast_error=-\n"
    );
    writer.record(snapshot);
    assert!(writer.prepare(Health::Starting, None, None, 5).is_none());
    let (_, text) = writer.prepare(Health::Degraded, Some(1234567890), Some("a\rb"), 5).unwrap();
    assert_eq!(
        text,
        "health=degraded\nmode=to-windows\nbroker_pid=5\nagent_pid=1234567890\nlast_error=a b\n"
    );
}
