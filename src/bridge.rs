use vstd::prelude::*;
use core::sync::atomic::{AtomicU8, Ordering};
use crate::error::ErrorKind;
use crate::protocol::MARKER;

verus! {

/// The flag the two directions of the terminal bridge share. It leaves
/// `Running` at most once per run.
#[derive(PartialEq, Eq, Structural, Clone, Copy, Debug)]
pub enum BridgeFlag {
    Running,
    ConnectionFailed,
    UserInterrupted,
}

impl BridgeFlag {
    pub open spec fn spec_code(self) -> u8 {
        match self {
            BridgeFlag::Running => 0,
            BridgeFlag::ConnectionFailed => 1,
            BridgeFlag::UserInterrupted => 2,
        }
    }

    /// The value that stands for the flag in an atomic byte.
    pub fn code(self) -> (r: u8)
        ensures
            r == self.spec_code(),
    {
        match self {
            BridgeFlag::Running => 0,
            BridgeFlag::ConnectionFailed => 1,
            BridgeFlag::UserInterrupted => 2,
        }
    }

    /// The flag an atomic byte stands for; codes above 2 read as an interrupt.
    pub fn from_code(code: u8) -> (r: BridgeFlag)
        ensures
            code <= 2 ==> r.spec_code() == code,
            code > 2 ==> r == BridgeFlag::UserInterrupted,
    {
        if code == 0 {
            BridgeFlag::Running
        } else if code == 1 {
            BridgeFlag::ConnectionFailed
        } else {
            BridgeFlag::UserInterrupted
        }
    }
}

/// Whether a byte loaded from the shared flag says that the bridge is running.
pub fn is_running_code(code: u8) -> (r: bool)
    ensures
        r == (code == BridgeFlag::Running.spec_code()),
        r == (code == 0),
{
    code == BridgeFlag::Running.code()
}

/// Whether the shared byte still says that the bridge is running: what it
/// holds, loaded once, tested by `is_running_code`.
pub fn is_ok(flag: &AtomicU8) -> bool {
    is_running_code(flag.load(Ordering::Relaxed))
}

/// The flag after a failed read from the device.
pub fn after_serial_failure(flag: BridgeFlag) -> (r: BridgeFlag)
    ensures
        r == if flag == BridgeFlag::Running {
            BridgeFlag::ConnectionFailed
        } else {
            flag
        },
{
    if flag == BridgeFlag::Running {
        BridgeFlag::ConnectionFailed
    } else {
        flag
    }
}

/// The flag after the console handed over `input`: an interrupt byte among
/// it ends a running bridge as asked for by the user.
pub fn after_console_input(flag: BridgeFlag, input: &[u8]) -> (r: BridgeFlag)
    ensures
        r == if flag == BridgeFlag::Running && input@.contains(MARKER) {
            BridgeFlag::UserInterrupted
        } else {
            flag
        },
{
    if flag != BridgeFlag::Running {
        return flag;
    }
    let mut i: usize = 0;
    while i < input.len()
        invariant
            0 <= i <= input@.len(),
            flag == BridgeFlag::Running,
            forall|j: int| 0 <= j < i ==> input@[j] != MARKER,
        decreases input@.len() - i,
    {
        if input[i] == MARKER {
            assert(input@[i as int] == MARKER);
            return BridgeFlag::UserInterrupted;
        }
        i = i + 1;
    }
    flag
}

/// What the bridge reports once the flag has left `Running`: only a failed
/// link is an error; an interrupt is a normal end.
pub fn bridge_result(flag: BridgeFlag) -> (r: Result<(), ErrorKind>)
    ensures
        r is Err <==> flag == BridgeFlag::ConnectionFailed,
        r is Err ==> r->Err_0 is ConnectionError,
{
    if flag == BridgeFlag::ConnectionFailed {
        Err(ErrorKind::ConnectionError)
    } else {
        Ok(())
    }
}

// ---------------------------------------------------------- device text

/// Device text as the raw console wants it: each line feed preceded by a
/// carriage return.
pub open spec fn crlf(s: Seq<char>) -> Seq<char>
    decreases s.len(),
{
    if s.len() == 0 {
        Seq::empty()
    } else {
        crlf(s.drop_last()) + if s.last() == '\n' {
            seq!['\r', '\n']
        } else {
            seq![s.last()]
        }
    }
}

/// The text of `b` read as UTF-8, each invalid sequence replaced by U+FFFD.
pub uninterp spec fn lossy_text(b: Seq<u8>) -> Seq<char>;

/// Relies on `String::from_utf8_lossy`: the characters of the bytes as
/// UTF-8, with U+FFFD for invalid sequences; no bytes give no characters.
#[verifier::external_body]
fn decode_lossy(bytes: &[u8]) -> (r: Vec<char>)
    ensures
        r@ == lossy_text(bytes@),
        bytes@.len() == 0 ==> r@.len() == 0,
{
    String::from_utf8_lossy(bytes).chars().collect()
}

/// Puts a carriage return before each line feed of `text`.
pub fn translate_newlines(text: &Vec<char>) -> (r: Vec<char>)
    ensures
        r@ == crlf(text@),
{
    let mut r: Vec<char> = Vec::new();
    let mut i: usize = 0;
    while i < text.len()
        invariant
            0 <= i <= text@.len(),
            r@ == crlf(text@.take(i as int)),
        decreases text@.len() - i,
    {
        let c = text[i];
        assert(text@.take(i + 1).drop_last() =~= text@.take(i as int));
        if c == '\n' {
            r.push('\r');
        }
        r.push(c);
        assert(r@ =~= crlf(text@.take(i + 1)));
        i = i + 1;
    }
    assert(text@.take(i as int) =~= text@);
    r
}

/// The characters to write to the console for bytes read from the device.
pub fn console_text(bytes: &[u8]) -> (r: Vec<char>)
    ensures
        r@ == crlf(lossy_text(bytes@)),
{
    let text = decode_lossy(bytes);
    translate_newlines(&text)
}

} // verus!
