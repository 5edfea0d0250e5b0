use camera_opencv::worker::{CaptureWorker, StopReason, WorkerStep, MAX_READ_ERRORS};

#[test]
fn fresh_worker_reads_on_open_channel() {
    let w = CaptureWorker::new();
    assert_eq!(w.error_count(), 0);
    assert_eq!(w.next_step(false, 1), WorkerStep::Read);
    assert_eq!(w.next_step(false, 3), WorkerStep::Read);
}

#[test]
fn closed_or_unreceived_channel_stops_the_worker() {
    let w = CaptureWorker::new();
    assert_eq!(w.next_step(true, 1), WorkerStep::Stop(StopReason::ChannelClosed));
    assert_eq!(w.next_step(false, 0), WorkerStep::Stop(StopReason::ChannelClosed));
    assert_eq!(w.next_step(true, 0), WorkerStep::Stop(StopReason::ChannelClosed));
}

#[test]
fn successful_reads_are_published_and_not_counted() {
    let mut w = CaptureWorker::new();
    assert!(w.record_read(true));
    assert_eq!(w.error_count(), 0);
}

#[test]
fn failed_reads_are_counted_and_not_published() {
    let mut w = CaptureWorker::new();
    assert!(!w.record_read(false));
    assert_eq!(w.error_count(), 1);
    assert!(w.record_read(true));
    assert_eq!(w.error_count(), 1);
}

#[test]
fn worker_stops_after_eleven_failed_reads() {
    let mut w = CaptureWorker::new();
    let mut failed = 0;
    loop {
        match w.next_step(false, 1) {
            WorkerStep::Read => {
                w.record_read(false);
                failed += 1;
            }
            WorkerStep::Stop(reason) => {
                assert_eq!(reason, StopReason::TooManyErrors);
                break;
            }
        }
    }
    assert_eq!(failed, 11);
    assert_eq!(w.error_count(), MAX_READ_ERRORS + 1);
}

#[test]
fn closed_channel_takes_precedence_over_errors() {
    let mut w = CaptureWorker::new();
    for _ in 0..11 {
        w.record_read(false);
    }
    assert_eq!(w.next_step(true, 1), WorkerStep::Stop(StopReason::ChannelClosed));
    assert_eq!(w.next_step(false, 1), WorkerStep::Stop(StopReason::TooManyErrors));
}

#[test]
fn successes_do_not_reset_the_error_count() {
    let mut w = CaptureWorker::new();
    for i in 0..10 {
        w.record_read(i % 2 == 0);
    }
    assert_eq!(w.error_count(), 5);
    assert_eq!(w.next_step(false, 2), WorkerStep::Read);
}
