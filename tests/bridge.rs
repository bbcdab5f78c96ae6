use std::sync::atomic::AtomicU8;

use rust_serial_tool::bridge::{
    is_running_code, after_console_input, after_serial_failure, bridge_result, console_text, translate_newlines,
};
use rust_serial_tool::executor::bounded_outcome;
use rust_serial_tool::{is_ok, BridgeFlag, ErrorKind};

#[test]
fn interrupt_byte_ends_the_bridge_cleanly() {
    let flag = after_console_input(BridgeFlag::Running, &[b'l', b's', 0x03]);
    assert_eq!(flag, BridgeFlag::UserInterrupted);
    assert!(bridge_result(flag).is_ok());
}

#[test]
fn plain_console_input_keeps_the_bridge_running() {
    assert_eq!(after_console_input(BridgeFlag::Running, b"ls\n"), BridgeFlag::Running);
    assert_eq!(after_console_input(BridgeFlag::Running, b""), BridgeFlag::Running);
}

#[test]
fn flag_is_written_once() {
    assert_eq!(after_console_input(BridgeFlag::ConnectionFailed, &[3]), BridgeFlag::ConnectionFailed);
    assert_eq!(after_serial_failure(BridgeFlag::UserInterrupted), BridgeFlag::UserInterrupted);
    assert_eq!(after_serial_failure(BridgeFlag::Running), BridgeFlag::ConnectionFailed);
}

#[test]
fn failed_link_is_a_connection_error() {
    assert!(matches!(bridge_result(BridgeFlag::ConnectionFailed), Err(ErrorKind::ConnectionError)));
    assert!(bridge_result(BridgeFlag::Running).is_ok());
}

#[test]
fn flag_codes() {
    for f in [BridgeFlag::Running, BridgeFlag::ConnectionFailed, BridgeFlag::UserInterrupted] {
        assert_eq!(BridgeFlag::from_code(f.code()), f);
    }
    assert_eq!(BridgeFlag::Running.code(), 0);
    assert_eq!(BridgeFlag::ConnectionFailed.code(), 1);
    assert_eq!(BridgeFlag::UserInterrupted.code(), 2);
    assert_eq!(BridgeFlag::from_code(9), BridgeFlag::UserInterrupted);
}

#[test]
fn shared_byte_reads_running_only_at_zero() {
    assert!(is_ok(&AtomicU8::new(0)));
    assert!(!is_ok(&AtomicU8::new(1)));
    assert!(!is_ok(&AtomicU8::new(2)));
}

#[test]
fn line_feed_gets_a_carriage_return() {
    let out = translate_newlines(&vec!['a', '\n', 'b', '\n']);
    assert_eq!(out, vec!['a', '\r', '\n', 'b', '\r', '\n']);
    assert!(translate_newlines(&vec![]).is_empty());
}

#[test]
fn device_bytes_become_console_text() {
    assert_eq!(console_text(b"hi\n"), vec!['h', 'i', '\r', '\n']);
    assert_eq!(console_text(&[0xC3, 0xA9]), vec!['é']);
    assert_eq!(console_text(&[b'a', 0xFF, b'\n']), vec!['a', '\u{FFFD}', '\r', '\n']);
    assert!(console_text(b"").is_empty());
}

#[test]
fn bounded_wait_outcomes() {
    assert!(bounded_outcome(Ok(()), true).is_ok());
    assert!(matches!(bounded_outcome(Ok(()), false), Err(ErrorKind::TimeoutError)));
    assert!(matches!(bounded_outcome(Err(ErrorKind::ConnectionError), true), Err(ErrorKind::ConnectionError)));
    assert!(matches!(bounded_outcome(Err(ErrorKind::ConnectionError), false), Err(ErrorKind::ConnectionError)));
}

#[test]
fn only_code_zero_is_running() {
    assert!(is_running_code(0));
    assert!(!is_running_code(1));
    assert!(!is_running_code(2));
    assert!(!is_running_code(255));
}
