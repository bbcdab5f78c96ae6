use vstd::prelude::*;
use crate::error::ErrorKind;
use crate::protocol::{scan_count, scan_echo, scan_markers, HandshakeScan, MARKERS_NEEDED};

verus! {

#[verifier::external_type_specification]
#[verifier::external_body]
pub struct ExTTYPort(serialport::TTYPort);

/// The serial device this tool talks to.
pub type SerialPort = serialport::TTYPort;

/// Baud rate the link is opened at.
pub const SERIAL_BAUD: u32 = 921_600;

/// Milliseconds one read of the link waits for data before it returns empty.
pub const READ_TIMEOUT_MS: u64 = 1;

/// Reads an exact read makes before it gives up on a silent device.
pub const READ_EXACT_ATTEMPTS: u32 = 10_000;

/// OS error codes that mean the device was removed (Unix `EINVAL`, and
/// Windows `ERROR_DEVICE_NOT_CONNECTED`).
pub const OS_DEVICE_GONE: i32 = 22;
pub const OS_DEVICE_NOT_CONNECTED: i32 = 1167;

/// How a failed read of the link is taken.
#[derive(PartialEq, Eq, Structural, Clone, Copy, Debug)]
pub enum ReadFailure {
    /// No data within the read timeout: zero bytes, no error.
    TimedOut,
    /// The device went away.
    Disconnected,
    /// Anything else, passed on as an I/O error.
    Other,
}

/// Sorts a failed read by whether it timed out and by its OS error code.
pub fn classify_read_failure(timed_out: bool, os_code: Option<i32>) -> (r: ReadFailure)
    ensures
        timed_out ==> r == ReadFailure::TimedOut,
        !timed_out && (os_code == Some(OS_DEVICE_GONE) || os_code == Some(OS_DEVICE_NOT_CONNECTED))
            ==> r == ReadFailure::Disconnected,
        !timed_out && os_code != Some(OS_DEVICE_GONE) && os_code != Some(OS_DEVICE_NOT_CONNECTED)
            ==> r == ReadFailure::Other,
{
    if timed_out {
        return ReadFailure::TimedOut;
    }
    match os_code {
        Some(c) => if c == OS_DEVICE_GONE || c == OS_DEVICE_NOT_CONNECTED {
            ReadFailure::Disconnected
        } else {
            ReadFailure::Other
        },
        None => ReadFailure::Other,
    }
}

/// Relies on `io::Read::read` of `TTYPort` (a `read(2)` of the device after
/// waiting for data): fills part of `buf[from..]` and returns how much,
/// never more than that part holds; the bytes before `from` stay.
#[verifier::external_body]
fn read_port(port: &mut SerialPort, buf: &mut [u8], from: usize) -> (r: core::result::Result<usize, std::io::Error>)
    requires
        from <= old(buf)@.len(),
    ensures
        final(buf)@.len() == old(buf)@.len(),
        forall|i: int| 0 <= i < from ==> final(buf)@[i] == old(buf)@[i],
        r is Ok ==> r->Ok_0 <= old(buf)@.len() - from,
{
    std::io::Read::read(port, &mut buf[from..])
}

/// The kinds of I/O error that reads of the link tell apart.
#[derive(PartialEq, Eq, Structural, Clone, Copy, Debug)]
pub enum IoKind {
    TimedOut,
    Interrupted,
    Other,
}

/// Relies on `io::Error::kind`: which kind of I/O error `e` is.
#[verifier::external_body]
fn io_kind(e: &std::io::Error) -> IoKind {
    match e.kind() {
        std::io::ErrorKind::TimedOut => IoKind::TimedOut,
        std::io::ErrorKind::Interrupted => IoKind::Interrupted,
        _ => IoKind::Other,
    }
}

/// Relies on `io::Error::raw_os_error`: the OS error code, if any.
#[verifier::external_body]
fn raw_os_error(e: &std::io::Error) -> Option<i32> {
    e.raw_os_error()
}

/// How one read of the link ends, given what the port returned and, for a
/// failure, whether it timed out and its OS error code: a count is passed
/// on, a timeout is zero bytes, a removed device is a connection error and
/// anything else the I/O error itself.
pub fn settle_read(raw: core::result::Result<usize, std::io::Error>, timed_out: bool, os_code: Option<i32>) -> (r: Result<usize, ErrorKind>)
    ensures
        raw is Ok ==> r == Ok::<usize, ErrorKind>(raw->Ok_0),
        raw is Err && timed_out ==> r == Ok::<usize, ErrorKind>(0),
        raw is Err && !timed_out && (os_code == Some(OS_DEVICE_GONE) || os_code == Some(OS_DEVICE_NOT_CONNECTED))
            ==> r == Err::<usize, ErrorKind>(ErrorKind::ConnectionError),
        raw is Err && !timed_out && os_code != Some(OS_DEVICE_GONE) && os_code != Some(OS_DEVICE_NOT_CONNECTED)
            ==> r == Err::<usize, ErrorKind>(ErrorKind::IoError(raw->Err_0)),
{
    match raw {
        Ok(n) => Ok(n),
        Err(e) => match classify_read_failure(timed_out, os_code) {
            ReadFailure::TimedOut => Ok(0),
            ReadFailure::Disconnected => Err(ErrorKind::ConnectionError),
            ReadFailure::Other => Err(ErrorKind::IoError(e)),
        },
    }
}

/// One read into `buf[from..]`, settled by `settle_read`.
fn read_from(port: &mut SerialPort, buf: &mut [u8], from: usize) -> (r: Result<usize, ErrorKind>)
    requires
        from <= old(buf)@.len(),
    ensures
        final(buf)@.len() == old(buf)@.len(),
        forall|i: int| 0 <= i < from ==> final(buf)@[i] == old(buf)@[i],
        r is Ok ==> r->Ok_0 <= old(buf)@.len() - from,
        r is Err ==> (r->Err_0 is ConnectionError || r->Err_0 is IoError),
{
    let raw = read_port(port, buf, from);
    let (timed_out, code) = match &raw {
        Ok(_) => (false, None),
        Err(e) => (io_kind(e) == IoKind::TimedOut, raw_os_error(e)),
    };
    settle_read(raw, timed_out, code)
}

/// Whether an exact read goes on: `buf` is not full yet and fewer than
/// `READ_EXACT_ATTEMPTS` reads were made.
pub fn keep_reading(filled: usize, len: usize, attempts: u32) -> (r: bool)
    ensures
        r == (filled < len && attempts < READ_EXACT_ATTEMPTS),
{
    filled < len && attempts < READ_EXACT_ATTEMPTS
}

/// What one read does to an exact read that has `filled` of `len` bytes:
/// a count adds to it, an interrupted read leaves it as it is (to be tried
/// again), any other error ends it with that error.
pub fn exact_step(filled: usize, len: usize, read: Result<usize, ErrorKind>, interrupted: bool) -> (r: Result<usize, ErrorKind>)
    requires
        filled <= len,
        read is Ok ==> read->Ok_0 <= len - filled,
    ensures
        read is Ok ==> r == Ok::<usize, ErrorKind>((filled + read->Ok_0) as usize),
        read is Err && read->Err_0 is IoError && interrupted ==> r == Ok::<usize, ErrorKind>(filled),
        read is Err && !(read->Err_0 is IoError && interrupted) ==> r == read,
        r is Ok ==> r->Ok_0 <= len,
{
    match read {
        Ok(n) => Ok(filled + n),
        Err(ErrorKind::IoError(e)) => {
            if interrupted {
                Ok(filled)
            } else {
                Err(ErrorKind::IoError(e))
            }
        },
        Err(e) => Err(e),
    }
}

/// How an exact read ends once it stops reading: complete, or short of
/// bytes, which is a connection error.
pub fn exact_result(filled: usize, len: usize) -> (r: Result<(), ErrorKind>)
    ensures
        r is Ok <==> filled >= len,
        r is Err ==> r->Err_0 is ConnectionError,
{
    if filled < len {
        Err(ErrorKind::ConnectionError)
    } else {
        Ok(())
    }
}

/// Reads of the serial link that tell a quiet device from a lost one.
pub trait ReadSerial {
    /// Reads what is there into `buf` and returns how many bytes came; none
    /// when the read timed out (see `settle_read`).
    fn read_serial(&mut self, buf: &mut [u8]) -> (r: Result<usize, ErrorKind>)
        ensures
            final(buf)@.len() == old(buf)@.len(),
            r is Ok ==> r->Ok_0 <= old(buf)@.len(),
            r is Err ==> (r->Err_0 is ConnectionError || r->Err_0 is IoError),
    ;

    /// Fills all of `buf`, read after read (see `keep_reading`,
    /// `exact_step`, `exact_result`): empty reads and interrupted reads are
    /// tried again, but at most `READ_EXACT_ATTEMPTS` reads are made in all;
    /// a `buf` still not full after them is a connection error. An empty
    /// `buf` needs no read.
    fn read_serial_exact(&mut self, buf: &mut [u8]) -> (r: Result<(), ErrorKind>)
        ensures
            final(buf)@.len() == old(buf)@.len(),
            old(buf)@.len() == 0 ==> r is Ok,
            r is Err ==> (r->Err_0 is ConnectionError || r->Err_0 is IoError),
    ;
}

impl ReadSerial for SerialPort {
    fn read_serial(&mut self, buf: &mut [u8]) -> (r: Result<usize, ErrorKind>) {
        read_from(self, buf, 0)
    }

    fn read_serial_exact(&mut self, buf: &mut [u8]) -> (r: Result<(), ErrorKind>) {
        let mut filled: usize = 0;
        let mut attempts: u32 = 0;
        while keep_reading(filled, buf.len(), attempts)
            invariant
                filled <= buf@.len(),
                attempts <= READ_EXACT_ATTEMPTS,
                buf@.len() == old(buf)@.len(),
            decreases READ_EXACT_ATTEMPTS - attempts,
        {
            attempts = attempts + 1;
            let read = read_from(self, buf, filled);
            let interrupted = match &read {
                Err(ErrorKind::IoError(e)) => io_kind(e) == IoKind::Interrupted,
                _ => false,
            };
            match exact_step(filled, buf.len(), read, interrupted) {
                Ok(f) => {
                    filled = f;
                },
                Err(e) => {
                    return Err(e);
                },
            }
        }
        exact_result(filled, buf.len())
    }
}

/// One read of the handshake: reads into `buf` and feeds what came into the
/// marker scan from run counter `count`. Any failed read is a connection
/// error.
pub fn handshake_step<S: ReadSerial>(port: &mut S, buf: &mut [u8], count: u8) -> (r: Result<HandshakeScan, ErrorKind>)
    requires
        count < MARKERS_NEEDED,
    ensures
        final(buf)@.len() == old(buf)@.len(),
        r is Err ==> r->Err_0 is ConnectionError,
        r is Ok ==> exists|n: int|
            0 <= n <= final(buf)@.len() && r->Ok_0.count == scan_count(count as nat, #[trigger] final(buf)@.take(n))
                && r->Ok_0.complete == (r->Ok_0.count >= MARKERS_NEEDED)
                && r->Ok_0.echo@ == scan_echo(count as nat, final(buf)@.take(n)),
{
    match port.read_serial(buf) {
        Ok(n) => {
            let scan = scan_markers(count, &buf[0..n]);
            assert(buf@.subrange(0, n as int) =~= buf@.take(n as int));
            Ok(scan)
        },
        Err(_) => Err(ErrorKind::ConnectionError),
    }
}

} // verus!
