use rust_serial_tool::executor::bounded_outcome;
use rust_serial_tool::protocol::scan_markers;
use rust_serial_tool::serial::{
    classify_read_failure, exact_result, exact_step, handshake_step, keep_reading, settle_read, ReadFailure,
    READ_EXACT_ATTEMPTS,
};
use rust_serial_tool::supervisor::{
    classify_run, step, RunOutcome, SupervisorAction, SupervisorEvent, SupervisorState,
};
use rust_serial_tool::ErrorKind;

#[test]
fn too_few_markers_time_out_and_reconnect() {
    let scan = scan_markers(0, &[3, 3, b'.', 3, 3]);
    assert!(!scan.complete);
    let result = bounded_outcome(Ok(()), false);
    assert!(matches!(result, Err(ErrorKind::TimeoutError)));
    let outcome = classify_run(&result);
    assert_eq!(outcome, RunOutcome::Recoverable);
    let (state, action) = step(SupervisorState::Running, SupervisorEvent::RunEnded(outcome));
    assert_eq!(state, SupervisorState::Reconnecting);
    assert_eq!(action, SupervisorAction::ResetAndPrompt);
}

#[test]
fn recoverable_and_fatal_errors() {
    assert!(ErrorKind::ConnectionError.is_recoverable());
    assert!(ErrorKind::ProtocolError.is_recoverable());
    assert!(ErrorKind::TimeoutError.is_recoverable());
    assert!(!ErrorKind::NoneError("serial").is_recoverable());
    let io = std::io::Error::new(std::io::ErrorKind::Other, "x");
    assert_eq!(classify_run(&Err(ErrorKind::IoError(io))), RunOutcome::Fatal);
    assert_eq!(classify_run(&Ok(())), RunOutcome::Success);
}

#[test]
fn full_connection_life() {
    let mut s = SupervisorState::WaitForDevice;
    let events = [
        (SupervisorEvent::DevicePresent(false), SupervisorState::WaitForDevice, SupervisorAction::PollDevice),
        (SupervisorEvent::DevicePresent(true), SupervisorState::Opening, SupervisorAction::OpenLink),
        (SupervisorEvent::Opened(true), SupervisorState::Running, SupervisorAction::StartRun),
        (SupervisorEvent::RunEnded(RunOutcome::Recoverable), SupervisorState::Reconnecting, SupervisorAction::ResetAndPrompt),
        (SupervisorEvent::DevicePresent(false), SupervisorState::Reconnecting, SupervisorAction::PollDevice),
        (SupervisorEvent::DevicePresent(true), SupervisorState::Opening, SupervisorAction::OpenLink),
        (SupervisorEvent::Opened(true), SupervisorState::Running, SupervisorAction::StartRun),
        (SupervisorEvent::RunEnded(RunOutcome::Success), SupervisorState::Finished, SupervisorAction::Stop),
    ];
    for (event, state, action) in events {
        let (t, a) = step(s, event);
        assert_eq!(t, state);
        assert_eq!(a, action);
        s = t;
    }
}

#[test]
fn no_run_while_device_is_absent() {
    let mut s = SupervisorState::Reconnecting;
    for event in [
        SupervisorEvent::DevicePresent(false),
        SupervisorEvent::Opened(true),
        SupervisorEvent::RunEnded(RunOutcome::Success),
        SupervisorEvent::DevicePresent(false),
    ] {
        let (t, a) = step(s, event);
        assert_eq!(t, SupervisorState::Reconnecting);
        assert_eq!(a, SupervisorAction::PollDevice);
        s = t;
    }
}

#[test]
fn open_failure_and_fatal_error_terminate() {
    let (t, a) = step(SupervisorState::Opening, SupervisorEvent::Opened(false));
    assert_eq!(t, SupervisorState::Terminated);
    assert_eq!(a, SupervisorAction::Abort);
    let (t, a) = step(SupervisorState::Running, SupervisorEvent::RunEnded(RunOutcome::Fatal));
    assert_eq!(t, SupervisorState::Terminated);
    assert_eq!(a, SupervisorAction::Stop);
}

#[test]
fn read_failures_are_sorted() {
    assert_eq!(classify_read_failure(true, Some(22)), ReadFailure::TimedOut);
    assert_eq!(classify_read_failure(false, Some(22)), ReadFailure::Disconnected);
    assert_eq!(classify_read_failure(false, Some(1167)), ReadFailure::Disconnected);
    assert_eq!(classify_read_failure(false, Some(5)), ReadFailure::Other);
    assert_eq!(classify_read_failure(false, None), ReadFailure::Other);
}

struct ScriptedPort {
    reads: Vec<Vec<u8>>,
}

impl rust_serial_tool::ReadSerial for ScriptedPort {
    fn read_serial(&mut self, buf: &mut [u8]) -> Result<usize, ErrorKind> {
        if self.reads.is_empty() {
            return Err(ErrorKind::IoError(std::io::Error::new(std::io::ErrorKind::Other, "gone")));
        }
        let next = self.reads.remove(0);
        buf[..next.len()].copy_from_slice(&next);
        Ok(next.len())
    }

    fn read_serial_exact(&mut self, buf: &mut [u8]) -> Result<(), ErrorKind> {
        let n = self.read_serial(buf)?;
        if n == buf.len() { Ok(()) } else { Err(ErrorKind::ConnectionError) }
    }
}

#[test]
fn handshake_steps_over_reads() {
    let mut port = ScriptedPort { reads: vec![b"up\x03".to_vec(), vec![], vec![3, 3, b'!']] };
    let mut buf = [0u8; 16];
    let first = handshake_step(&mut port, &mut buf, 0).unwrap();
    assert!(!first.complete);
    assert_eq!(first.count, 1);
    assert_eq!(first.echo, b"up".to_vec());
    let quiet = handshake_step(&mut port, &mut buf, first.count).unwrap();
    assert!(!quiet.complete);
    assert_eq!(quiet.count, 1);
    let last = handshake_step(&mut port, &mut buf, quiet.count).unwrap();
    assert!(last.complete);
    assert!(last.echo.is_empty());
    assert!(matches!(handshake_step(&mut port, &mut buf, 0), Err(ErrorKind::ConnectionError)));
}

#[test]
fn io_errors_convert() {
    let e: ErrorKind = std::io::Error::new(std::io::ErrorKind::Other, "x").into();
    assert!(matches!(e, ErrorKind::IoError(_)));
    assert!(!e.is_recoverable());
}

fn io_err(kind: std::io::ErrorKind) -> std::io::Error {
    std::io::Error::new(kind, "x")
}

#[test]
fn reads_are_settled() {
    assert!(matches!(settle_read(Ok(7), false, None), Ok(7)));
    assert!(matches!(settle_read(Err(io_err(std::io::ErrorKind::TimedOut)), true, None), Ok(0)));
    assert!(matches!(
        settle_read(Err(io_err(std::io::ErrorKind::Other)), false, Some(22)),
        Err(ErrorKind::ConnectionError)
    ));
    assert!(matches!(
        settle_read(Err(io_err(std::io::ErrorKind::Other)), false, Some(1167)),
        Err(ErrorKind::ConnectionError)
    ));
    match settle_read(Err(io_err(std::io::ErrorKind::BrokenPipe)), false, None) {
        Err(ErrorKind::IoError(e)) => assert_eq!(e.kind(), std::io::ErrorKind::BrokenPipe),
        _ => panic!("expected the I/O error itself"),
    }
}

#[test]
fn exact_read_steps() {
    assert!(matches!(exact_step(0, 2, Ok(1), false), Ok(1)));
    assert!(matches!(exact_step(1, 2, Ok(0), false), Ok(1)));
    assert!(matches!(exact_step(1, 2, Err(ErrorKind::IoError(io_err(std::io::ErrorKind::Interrupted))), true), Ok(1)));
    assert!(matches!(
        exact_step(1, 2, Err(ErrorKind::IoError(io_err(std::io::ErrorKind::Other))), false),
        Err(ErrorKind::IoError(_))
    ));
    assert!(matches!(exact_step(0, 2, Err(ErrorKind::ConnectionError), true), Err(ErrorKind::ConnectionError)));
    assert!(keep_reading(0, 2, 0));
    assert!(!keep_reading(2, 2, 0));
    assert!(!keep_reading(0, 0, 0));
    assert!(!keep_reading(1, 2, READ_EXACT_ATTEMPTS));
    assert!(exact_result(2, 2).is_ok());
    assert!(exact_result(0, 0).is_ok());
    assert!(matches!(exact_result(1, 2), Err(ErrorKind::ConnectionError)));
}
