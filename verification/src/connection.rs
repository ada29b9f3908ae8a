//! Serial connection manager: owns at most one open device handle and
//! exposes open, close and bounded-read operations over it.

use vstd::prelude::*;
use crate::events::CallerIdError;

verus! {

#[verifier::external_type_specification]
#[verifier::external_body]
pub struct ExTtyPort(serialport::TTYPort);

#[verifier::external_type_specification]
#[verifier::external_body]
pub struct ExSerialError(serialport::Error);

/// The fixed baud rate every device is opened at.
pub const OPEN_BAUD_RATE: u32 = 9600;

/// The bounded read timeout, in milliseconds, so no read ever blocks
/// indefinitely.
pub const READ_TIMEOUT_MS: u64 = 200;

/// The caller-ID enable command as sent on the wire: `AT+VCID=1` followed
/// by a carriage return.
pub open spec fn enable_command() -> Seq<char> {
    seq!['A', 'T', '+', 'V', 'C', 'I', 'D', '=', '1', '\r']
}

/// The text of the caller-ID enable command.
pub fn enable_command_text() -> (r: &'static str)
    ensures
        r@ == enable_command(),
{
    let s = "AT+VCID=1\r";
    proof {
        reveal_strlit("AT+VCID=1\r");
        assert(s@ =~= enable_command());
    }
    s
}

/// What one bounded read of the device yielded.
pub enum ReadOutcome {
    /// The bytes read; empty when the device had nothing to say.
    Data(Vec<u8>),
    /// The read timed out: the common idle-poll path, not an error.
    TimedOut,
    /// No device handle is open.
    Disconnected,
    /// A genuine I/O fault, with its detail.
    Failed(String),
}

/// Relies on serialport's builder and `SerialPortBuilder::open_native`:
/// opens the named device at the given baud rate with the given bounded
/// read timeout.
#[verifier::external_body]
fn open_device(name: &str, baud: u32, timeout_ms: u64) -> (r: Result<
    serialport::TTYPort,
    serialport::Error,
>) {
    serialport::new(name, baud).timeout(std::time::Duration::from_millis(timeout_ms)).open_native()
}

/// Relies on `std::io::Write::write_all` for `serialport::TTYPort`:
/// attempts to write all of `data`, reporting only whether it succeeded.
#[verifier::external_body]
fn write_all_device(port: &mut serialport::TTYPort, data: &[u8]) -> (r: bool) {
    std::io::Write::write_all(port, data).is_ok()
}

/// Relies on `std::io::Read::read` for `serialport::TTYPort`: a successful
/// read fills at most the buffer's length in bytes; a timeout surfaces as an
/// `io::ErrorKind::TimedOut` error; the error kinds are told apart.
#[verifier::external_body]
fn read_device(port: &mut serialport::TTYPort) -> (r: ReadOutcome)
    ensures
        r matches ReadOutcome::Data(bytes) ==> bytes@.len() <= 1024,
{
    let mut buf = [0u8; 1024];
    match std::io::Read::read(port, &mut buf) {
        Ok(n) => ReadOutcome::Data(buf[..n].to_vec()),
        Err(e) => match e.kind() {
            std::io::ErrorKind::TimedOut => ReadOutcome::TimedOut,
            std::io::ErrorKind::NotConnected => ReadOutcome::Disconnected,
            _ => ReadOutcome::Failed(format!("{}", e)),
        },
    }
}

/// Relies on `serialport::available_ports`: yields the names of the ports
/// the platform reports, in the reported order. The dependency's scan
/// aborts when the platform's device registry (on Linux, the sysfs tty
/// directory) is absent, so the body shields the call: a missing registry
/// is returned as an error instead.
#[verifier::external_body]
fn enumerate_ports() -> (r: Result<Vec<String>, serialport::Error>) {
    if !std::path::Path::new("/sys/class/tty").is_dir() {
        return Result::Err(serialport::Error::new(
            serialport::ErrorKind::Unknown,
            "the platform's serial device registry is unavailable",
        ));
    }
    serialport::available_ports().map(|ports| ports.into_iter().map(|p| p.port_name).collect())
}

/// Relies on `Display` for `serialport::Error`, which writes the error's
/// user-facing description.
#[verifier::external_body]
fn describe_error(e: &serialport::Error) -> (r: String) {
    format!("{}", e)
}

/// Ordered names of the serial devices the platform reports.
pub fn list_ports() -> (r: Result<Vec<String>, CallerIdError>)
    ensures
        r matches Err(e) ==> e is EnumerationError,
{
    match enumerate_ports() {
        Result::Ok(names) => Result::Ok(names),
        Result::Err(e) => Result::Err(CallerIdError::EnumerationError(describe_error(&e))),
    }
}

/// Owns at most one open serial device handle: the single slot below is the
/// only place a handle ever lives, so opening a new device replaces — and
/// thereby closes — the old one before the new handle is stored.
pub struct ConnectionManager {
    port: Option<serialport::TTYPort>,
}

impl ConnectionManager {
    /// Whether a device handle is currently open.
    pub closed spec fn connected(self) -> bool {
        self.port is Some
    }

    pub fn new() -> (r: ConnectionManager)
        ensures
            !r.connected(),
    {
        ConnectionManager { port: Option::None }
    }

    pub fn is_connected(&self) -> (r: bool)
        ensures
            r == self.connected(),
    {
        self.port.is_some()
    }

    /// Open `name` at `OPEN_BAUD_RATE` with the `READ_TIMEOUT_MS` bounded
    /// read timeout. Any previously open handle is dropped first, so no
    /// two handles are ever open at once; an open failure therefore leaves
    /// nothing open. On success the `enable_command` text is sent
    /// best-effort: the result reports whether that send succeeded, and
    /// the connection stands either way.
    pub fn connect(&mut self, name: &str) -> (r: Result<bool, CallerIdError>)
        ensures
            final(self).connected() == r is Ok,
            r matches Err(e) ==> e is ConnectionError,
    {
        self.port = Option::None;
        match open_device(name, OPEN_BAUD_RATE, READ_TIMEOUT_MS) {
            Result::Ok(p) => {
                let mut p = p;
                let cmd = enable_command_text();
                let sent = write_all_device(&mut p, cmd.as_bytes());
                self.port = Option::Some(p);
                Result::Ok(sent)
            },
            Result::Err(e) => Result::Err(CallerIdError::ConnectionError(describe_error(&e))),
        }
    }

    /// Release the handle; a no-op success when nothing is open.
    pub fn close(&mut self)
        ensures
            !final(self).connected(),
    {
        self.port = Option::None;
    }

    /// One bounded read from the device; without an open handle the read
    /// reports `Disconnected` and touches nothing.
    pub fn read_step(&mut self) -> (r: ReadOutcome)
        ensures
            final(self).connected() == old(self).connected(),
            !old(self).connected() ==> r is Disconnected && *final(self) == *old(self),
            r matches ReadOutcome::Data(bytes) ==> bytes@.len() <= 1024,
    {
        match self.port.take() {
            Option::Some(p) => {
                let mut p = p;
                let r = read_device(&mut p);
                self.port = Option::Some(p);
                r
            },
            Option::None => ReadOutcome::Disconnected,
        }
    }
}

} // verus!
