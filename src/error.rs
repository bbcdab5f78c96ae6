use vstd::prelude::*;

verus! {

#[verifier::external_type_specification]
#[verifier::external_body]
pub struct ExIoError(std::io::Error);

#[verifier::external_type_specification]
#[verifier::external_body]
pub struct ExSerialError(serialport::Error);

/// Every failure the loader and the terminal can meet.
#[derive(Debug)]
#[non_exhaustive]
pub enum ErrorKind {
    /// The device went away, or the link failed under a read or a write.
    ConnectionError,
    /// The device answered the size frame with anything but `OK`.
    ProtocolError,
    /// The bounded wait ran out before the operation finished.
    TimeoutError,
    /// A handle that should have been there was absent.
    NoneError(&'static str),
    /// The serial device could not be opened.
    SerialError(serialport::Error),
    /// Any other input/output failure.
    IoError(std::io::Error),
}

pub type Result<T> = core::result::Result<T, ErrorKind>;

impl ErrorKind {
    /// Errors after which the supervisor waits for the device and starts over.
    pub open spec fn spec_is_recoverable(&self) -> bool {
        self is ConnectionError || self is ProtocolError || self is TimeoutError
    }

    pub fn is_recoverable(&self) -> (r: bool)
        ensures
            r == self.spec_is_recoverable(),
    {
        match self {
            ErrorKind::ConnectionError | ErrorKind::ProtocolError | ErrorKind::TimeoutError => true,
            _ => false,
        }
    }
}

impl From<std::io::Error> for ErrorKind {
    fn from(e: std::io::Error) -> Self {
        ErrorKind::IoError(e)
    }
}

impl vstd::std_specs::convert::FromSpecImpl<std::io::Error> for ErrorKind {
    open spec fn obeys_from_spec() -> bool {
        true
    }

    open spec fn from_spec(e: std::io::Error) -> Self {
        ErrorKind::IoError(e)
    }
}

impl From<serialport::Error> for ErrorKind {
    fn from(e: serialport::Error) -> Self {
        ErrorKind::SerialError(e)
    }
}

impl vstd::std_specs::convert::FromSpecImpl<serialport::Error> for ErrorKind {
    open spec fn obeys_from_spec() -> bool {
        true
    }

    open spec fn from_spec(e: serialport::Error) -> Self {
        ErrorKind::SerialError(e)
    }
}

} // verus!
