use vstd::prelude::*;

use vstd::string::StringSliceAdditionalSpecFns;

use crate::bounded::{host_bytes, host_empty, host_from_str, MAX_FRAME_LEN, MAX_HOST_LEN};

use crate::errors::MbusError;

verus! {

/// Where a Modbus TCP client connects.
pub struct ModbusTcpConfig {
    /// Host name or address; empty when the given text did not fit.
    pub host: heapless::String<MAX_HOST_LEN>,
    /// TCP port.
    pub port: u16,
}

impl ModbusTcpConfig {
    /// Builds a configuration; a host whose UTF-8 encoding is longer than 16
    /// bytes is replaced by the empty host.
    pub fn new(host: &str, port: u16) -> (r: ModbusTcpConfig)
        ensures
            r.port == port,
            host_bytes(r.host) == (if host.spec_bytes().len() <= MAX_HOST_LEN {
                host.spec_bytes()
            } else {
                Seq::<u8>::empty()
            }),
    {
        let host = match host_from_str(host) {
            Some(s) => s,
            None => host_empty(),
        };
        ModbusTcpConfig { host, port }
    }
}

/// Errors that can occur at the transport layer.
#[derive(Debug, PartialEq, Eq, Clone, Copy, Structural)]
pub enum TransportError {
    /// The connection attempt failed.
    ConnectionFailed,
    /// The connection was unexpectedly closed.
    ConnectionClosed,
    /// An I/O error occurred during send or receive.
    IoError,
    /// A timeout occurred during a network operation.
    Timeout,
    /// The received data was too large for the buffer.
    BufferTooSmall,
    /// An unexpected error occurred.
    Unexpected,
    /// The configuration does not suit the transport.
    InvalidConfiguration,
}

/// The protocol error that a transport error stands for.
pub open spec fn spec_transport_error_to_mbus(err: TransportError) -> MbusError {
    match err {
        TransportError::ConnectionFailed => MbusError::ConnectionFailed,
        TransportError::ConnectionClosed => MbusError::ConnectionClosed,
        TransportError::IoError => MbusError::IoError,
        TransportError::Timeout => MbusError::Timeout,
        TransportError::BufferTooSmall => MbusError::BufferTooSmall,
        TransportError::Unexpected => MbusError::Unexpected,
        TransportError::InvalidConfiguration => MbusError::InvalidConfiguration,
    }
}

impl TransportError {
    /// A human-readable description of the error.
    pub fn description(&self) -> (r: &'static str)
        ensures
            r@ == spec_transport_error_text(*self),
    {
        match self {
            TransportError::ConnectionFailed => "Connection failed",
            TransportError::ConnectionClosed => "Connection closed",
            TransportError::IoError => "I/O error",
            TransportError::Timeout => "Timeout",
            TransportError::BufferTooSmall => "Buffer too small",
            TransportError::Unexpected => "An unexpected error occurred",
            TransportError::InvalidConfiguration => "Invalid configuration",
        }
    }
}

/// The description text of a transport error.
pub open spec fn spec_transport_error_text(err: TransportError) -> Seq<char> {
    match err {
        TransportError::ConnectionFailed => "Connection failed"@,
        TransportError::ConnectionClosed => "Connection closed"@,
        TransportError::IoError => "I/O error"@,
        TransportError::Timeout => "Timeout"@,
        TransportError::BufferTooSmall => "Buffer too small"@,
        TransportError::Unexpected => "An unexpected error occurred"@,
        TransportError::InvalidConfiguration => "Invalid configuration"@,
    }
}

impl From<TransportError> for MbusError {
    fn from(err: TransportError) -> (r: MbusError) {
        match err {
            TransportError::ConnectionFailed => MbusError::ConnectionFailed,
            TransportError::ConnectionClosed => MbusError::ConnectionClosed,
            TransportError::IoError => MbusError::IoError,
            TransportError::Timeout => MbusError::Timeout,
            TransportError::BufferTooSmall => MbusError::BufferTooSmall,
            TransportError::Unexpected => MbusError::Unexpected,
            TransportError::InvalidConfiguration => MbusError::InvalidConfiguration,
        }
    }
}

impl vstd::std_specs::convert::FromSpecImpl<TransportError> for MbusError {
    open spec fn obeys_from_spec() -> bool {
        true
    }

    open spec fn from_spec(err: TransportError) -> MbusError {
        spec_transport_error_to_mbus(err)
    }
}

/// The kind of transport a client or server runs over.
#[derive(Debug, PartialEq, Eq, Clone, Copy, Structural)]
pub enum TransportType {
    /// Standard library TCP transport implementation.
    StdTcp,
    /// Standard library Serial transport implementation.
    StdSerial,
    /// Custom TCP transport implementation.
    CustomTcp,
    /// Custom Serial transport implementation.
    CustomSerial,
}

impl TransportType {
    /// Whether the transport carries Modbus TCP frames.
    pub open spec fn is_tcp(self) -> bool {
        self is StdTcp || self is CustomTcp
    }
}

/// The frames handed to a transport's `send`, oldest first.
pub type SentFrames = Seq<Seq<u8>>;

/// A Modbus transport: connects, sends and receives ADU frames.
///
/// A transport keeps its kind for its whole life: every operation leaves
/// [`Transport::spec_transport_type`] unchanged. It also keeps a record,
/// for specifications only, of the configuration it was last asked to
/// connect with and of every frame handed to `send`.
pub trait Transport {
    /// The transport's own error type.
    type Error;

    /// The kind of transport.
    spec fn spec_transport_type(&self) -> TransportType;

    /// The configuration of the last `connect` call, if any.
    spec fn spec_config(&self) -> Option<ModbusTcpConfig>;

    /// Every frame handed to `send` so far, oldest first.
    spec fn spec_sent(&self) -> SentFrames;

    /// Establishes the connection described by `config`.
    fn connect(&mut self, config: &ModbusTcpConfig) -> (r: Result<(), Self::Error>)
        ensures
            final(self).spec_transport_type() == old(self).spec_transport_type(),
            final(self).spec_config() == Some(*config),
            final(self).spec_sent() == old(self).spec_sent(),
    ;

    /// Closes the connection.
    fn disconnect(&mut self) -> (r: Result<(), Self::Error>)
        ensures
            final(self).spec_transport_type() == old(self).spec_transport_type(),
            final(self).spec_config() == old(self).spec_config(),
            final(self).spec_sent() == old(self).spec_sent(),
    ;

    /// Sends one ADU; the frame is recorded whether or not the send succeeds.
    fn send(&mut self, adu: &[u8]) -> (r: Result<(), Self::Error>)
        ensures
            final(self).spec_transport_type() == old(self).spec_transport_type(),
            final(self).spec_config() == old(self).spec_config(),
            final(self).spec_sent() == old(self).spec_sent().push(adu@),
    ;

    /// Receives one ADU.
    fn recv(&mut self) -> (r: Result<heapless::Vec<u8, MAX_FRAME_LEN>, Self::Error>)
        ensures
            final(self).spec_transport_type() == old(self).spec_transport_type(),
            final(self).spec_config() == old(self).spec_config(),
            final(self).spec_sent() == old(self).spec_sent(),
    ;

    /// Whether the transport is connected.
    fn is_connected(&self) -> bool;

    /// The kind of transport.
    fn transport_type(&self) -> (r: TransportType)
        ensures
            r == self.spec_transport_type(),
    ;
}

/// A Modbus TCP transport addressed by a `host:port` text: it manages the
/// connection and moves raw ADU bytes.
pub trait ModbusTcpTransport {
    /// The transport's own error type.
    type Error: Into<MbusError>;

    /// Establishes a TCP connection to `addr`, such as `"192.168.1.1:502"`.
    fn connect(&mut self, addr: &str) -> Result<(), Self::Error>;

    /// Closes the active connection.
    fn disconnect(&mut self) -> Result<(), Self::Error>;

    /// Sends one ADU.
    fn send(&mut self, adu: &[u8]) -> Result<(), Self::Error>;

    /// Receives one ADU.
    fn recv(&mut self) -> Result<heapless::Vec<u8, MAX_FRAME_LEN>, Self::Error>;

    /// Whether a connection is held.
    fn is_connected(&self) -> bool;
}

/// Errors that can occur at the Modbus TCP transport layer.
#[derive(Debug, PartialEq, Eq, Clone, Copy, Structural)]
pub enum ModbusTcpTransportError {
    /// The connection attempt failed.
    ConnectionFailed,
    /// The connection was unexpectedly closed.
    ConnectionClosed,
    /// An I/O error occurred during send or receive.
    IoError,
    /// A timeout occurred during a network operation.
    Timeout,
    /// The received data was too large for the buffer.
    BufferTooSmall,
    /// An unexpected error occurred.
    Unexpected,
}

/// The protocol error that a TCP transport error stands for.
pub open spec fn spec_tcp_transport_error_to_mbus(err: ModbusTcpTransportError) -> MbusError {
    match err {
        ModbusTcpTransportError::ConnectionFailed => MbusError::ConnectionFailed,
        ModbusTcpTransportError::ConnectionClosed => MbusError::ConnectionClosed,
        ModbusTcpTransportError::IoError => MbusError::IoError,
        ModbusTcpTransportError::Timeout => MbusError::Timeout,
        ModbusTcpTransportError::BufferTooSmall => MbusError::BufferTooSmall,
        ModbusTcpTransportError::Unexpected => MbusError::Unexpected,
    }
}

impl From<ModbusTcpTransportError> for MbusError {
    fn from(err: ModbusTcpTransportError) -> (r: MbusError) {
        match err {
            ModbusTcpTransportError::ConnectionFailed => MbusError::ConnectionFailed,
            ModbusTcpTransportError::ConnectionClosed => MbusError::ConnectionClosed,
            ModbusTcpTransportError::IoError => MbusError::IoError,
            ModbusTcpTransportError::Timeout => MbusError::Timeout,
            ModbusTcpTransportError::BufferTooSmall => MbusError::BufferTooSmall,
            ModbusTcpTransportError::Unexpected => MbusError::Unexpected,
        }
    }
}

impl vstd::std_specs::convert::FromSpecImpl<ModbusTcpTransportError> for MbusError {
    open spec fn obeys_from_spec() -> bool {
        true
    }

    open spec fn from_spec(err: ModbusTcpTransportError) -> MbusError {
        spec_tcp_transport_error_to_mbus(err)
    }
}

/// The I/O error kinds that the transports tell apart.
#[derive(Debug, PartialEq, Eq, Clone, Copy, Structural)]
pub enum IoErrorKind {
    /// The remote refused the connection.
    ConnectionRefused,
    /// The address could not be found.
    NotFound,
    /// The pipe was closed by the peer.
    BrokenPipe,
    /// The peer reset the connection.
    ConnectionReset,
    /// The peer aborted the connection.
    ConnectionAborted,
    /// End of stream reached before the expected data.
    UnexpectedEof,
    /// The operation would block.
    WouldBlock,
    /// The operation timed out.
    TimedOut,
    /// Any other kind.
    Other,
}

/// How the blocking TCP transport classifies an I/O error.
pub open spec fn spec_tcp_io_error(kind: IoErrorKind) -> ModbusTcpTransportError {
    match kind {
        IoErrorKind::ConnectionRefused | IoErrorKind::NotFound => ModbusTcpTransportError::ConnectionFailed,
        IoErrorKind::BrokenPipe | IoErrorKind::ConnectionReset | IoErrorKind::UnexpectedEof => ModbusTcpTransportError::ConnectionClosed,
        IoErrorKind::WouldBlock | IoErrorKind::TimedOut => ModbusTcpTransportError::Timeout,
        _ => ModbusTcpTransportError::IoError,
    }
}

/// How the serial transport classifies an I/O error.
pub open spec fn spec_serial_io_error(kind: IoErrorKind) -> TransportError {
    match kind {
        IoErrorKind::TimedOut => TransportError::Timeout,
        IoErrorKind::BrokenPipe | IoErrorKind::ConnectionReset | IoErrorKind::UnexpectedEof => TransportError::ConnectionClosed,
        _ => TransportError::IoError,
    }
}

/// How the asynchronous TCP transport classifies an I/O error.
pub open spec fn spec_async_io_error(kind: IoErrorKind) -> MbusError {
    match kind {
        IoErrorKind::ConnectionRefused | IoErrorKind::NotFound => MbusError::ConnectionFailed,
        IoErrorKind::BrokenPipe | IoErrorKind::ConnectionReset | IoErrorKind::ConnectionAborted
        | IoErrorKind::UnexpectedEof => MbusError::ConnectionClosed,
        IoErrorKind::WouldBlock | IoErrorKind::TimedOut => MbusError::Timeout,
        _ => MbusError::IoError,
    }
}

/// Maps an I/O error kind to the blocking TCP transport's error.
pub fn tcp_map_io_error(kind: IoErrorKind) -> (r: ModbusTcpTransportError)
    ensures
        r == spec_tcp_io_error(kind),
{
    match kind {
        IoErrorKind::ConnectionRefused | IoErrorKind::NotFound => ModbusTcpTransportError::ConnectionFailed,
        IoErrorKind::BrokenPipe | IoErrorKind::ConnectionReset | IoErrorKind::UnexpectedEof => ModbusTcpTransportError::ConnectionClosed,
        IoErrorKind::WouldBlock | IoErrorKind::TimedOut => ModbusTcpTransportError::Timeout,
        _ => ModbusTcpTransportError::IoError,
    }
}

/// Maps an I/O error kind to the serial transport's error.
pub fn serial_map_io_error(kind: IoErrorKind) -> (r: TransportError)
    ensures
        r == spec_serial_io_error(kind),
{
    match kind {
        IoErrorKind::TimedOut => TransportError::Timeout,
        IoErrorKind::BrokenPipe | IoErrorKind::ConnectionReset | IoErrorKind::UnexpectedEof => TransportError::ConnectionClosed,
        _ => TransportError::IoError,
    }
}

/// Maps an I/O error kind to the asynchronous TCP transport's error.
pub fn async_map_io_error(kind: IoErrorKind) -> (r: MbusError)
    ensures
        r == spec_async_io_error(kind),
{
    match kind {
        IoErrorKind::ConnectionRefused | IoErrorKind::NotFound => MbusError::ConnectionFailed,
        IoErrorKind::BrokenPipe | IoErrorKind::ConnectionReset | IoErrorKind::ConnectionAborted
        | IoErrorKind::UnexpectedEof => MbusError::ConnectionClosed,
        IoErrorKind::WouldBlock | IoErrorKind::TimedOut => MbusError::Timeout,
        _ => MbusError::IoError,
    }
}

/// Serial framing mode.
#[derive(Debug, PartialEq, Eq, Clone, Copy, Structural)]
pub enum SerialMode {
    /// Modbus RTU binary framing with CRC-16.
    Rtu,
    /// Modbus ASCII framing with LRC.
    Ascii,
}

/// Retry backoff schedule.
#[derive(Debug, PartialEq, Eq, Clone, Copy, Structural)]
pub enum BackoffStrategy {
    /// Retry immediately.
    Immediate,
    /// Retry after a fixed delay.
    Fixed {
        /// The delay in milliseconds.
        delay_ms: u32,
    },
    /// Retry with exponentially increasing delay, capped.
    Exponential {
        /// The first delay in milliseconds.
        base_delay_ms: u32,
        /// The cap in milliseconds.
        max_delay_ms: u32,
    },
    /// Retry with linearly increasing delay, capped.
    Linear {
        /// The first delay in milliseconds.
        initial_delay_ms: u32,
        /// The increment per retry in milliseconds.
        increment_ms: u32,
        /// The cap in milliseconds.
        max_delay_ms: u32,
    },
}

/// Random spread added on top of a backoff delay.
#[derive(Debug, PartialEq, Eq, Clone, Copy, Structural)]
pub enum JitterStrategy {
    /// No jitter.
    Disabled,
    /// Plus or minus `percent` percent.
    Percentage {
        /// The spread in percent.
        percent: u8,
    },
}


/// The transports agree on what an I/O failure means: the blocking and the
/// asynchronous TCP transports classify every kind alike, except that only
/// the asynchronous one counts an aborted connection as closed; on every
/// transport a timed-out operation is a timeout and a broken pipe, a reset
/// or an early end of stream means the connection closed. Converting a
/// transport error to a protocol error keeps distinct errors distinct.
pub proof fn lemma_io_errors_classified_alike(kind: IoErrorKind, e1: TransportError, e2: TransportError)
    ensures
        kind != IoErrorKind::ConnectionAborted ==> spec_tcp_transport_error_to_mbus(spec_tcp_io_error(kind))
            == spec_async_io_error(kind),
        kind == IoErrorKind::TimedOut ==> spec_tcp_io_error(kind) == ModbusTcpTransportError::Timeout
            && spec_serial_io_error(kind) == TransportError::Timeout && spec_async_io_error(kind) == MbusError::Timeout,
        (kind == IoErrorKind::BrokenPipe || kind == IoErrorKind::ConnectionReset || kind == IoErrorKind::UnexpectedEof)
            ==> spec_tcp_io_error(kind) == ModbusTcpTransportError::ConnectionClosed && spec_serial_io_error(kind)
            == TransportError::ConnectionClosed && spec_async_io_error(kind) == MbusError::ConnectionClosed,
        spec_transport_error_to_mbus(e1) == spec_transport_error_to_mbus(e2) ==> e1 == e2,
        spec_transport_error_to_mbus(spec_serial_io_error(kind)) == spec_async_io_error(kind) || kind
            == IoErrorKind::ConnectionRefused || kind == IoErrorKind::NotFound || kind == IoErrorKind::WouldBlock
            || kind == IoErrorKind::ConnectionAborted,
{
}

} // verus!
