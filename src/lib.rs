//! Serial image loader and terminal bridge: the wire protocol, the bridge's
//! shared flag, the bounded-wait outcome and the connection supervisor.

pub mod error;
pub mod protocol;
pub mod bridge;
pub mod executor;
pub mod supervisor;
pub mod serial;

pub use error::{ErrorKind, Result};
pub use bridge::{is_ok, BridgeFlag};
pub use serial::{ReadSerial, SerialPort, SERIAL_BAUD};
