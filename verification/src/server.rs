//! Server-side decisions: request validation for Read Discrete Inputs and
//! the receive buffer that accumulates partial frames.

use vstd::prelude::*;

use crate::bounded::{frame_as_slice, frame_bytes, frame_clear, frame_extend, frame_new, MAX_FRAME_LEN};
use crate::data_unit::{spec_parse_adu, u16_from_be, AdditionalAddress, MbapHeader, ModbusMessage, PduView, MAX_ADU_FRAME_LEN};
use crate::tcp_framing::{announced_len, MBAP_PREFIX_LEN};
use crate::errors::MbusError;
use crate::function_codes::FunctionCode;
use crate::models::bits::ceil8;

verus! {

/// Read Discrete Inputs (0x02): smallest quantity a request may ask for.
pub const FC02_MIN_QUANTITY: u16 = 1;
/// Read Discrete Inputs (0x02): largest quantity a request may ask for.
pub const FC02_MAX_QUANTITY: u16 = 2000;

/// Number of bytes that hold `quantity` packed bits.
pub fn packed_bit_len(quantity: u16) -> (r: usize)
    ensures
        r == ceil8(quantity as int),
{
    (quantity as usize + 7) / 8
}

/// The verdict on the address window of a Read Discrete Inputs request:
/// the number of reply bytes, or the error the server answers with.
pub open spec fn spec_read_discrete_inputs_window(address: u16, quantity: u16) -> Result<usize, MbusError> {
    if !(FC02_MIN_QUANTITY <= quantity <= FC02_MAX_QUANTITY) {
        Err(MbusError::InvalidQuantity)
    } else if address + (quantity - 1) > u16::MAX {
        Err(MbusError::InvalidAddress)
    } else {
        Ok(ceil8(quantity as int) as usize)
    }
}

/// Validates the address window of a Read Discrete Inputs request.
///
/// Fails with `InvalidQuantity` unless `1 <= quantity <= 2000` and with
/// `InvalidAddress` when the window runs past address 65535; otherwise
/// returns how many packed bytes the reply must carry.
pub fn read_discrete_inputs_window(address: u16, quantity: u16) -> (r: Result<usize, MbusError>)
    ensures
        r == spec_read_discrete_inputs_window(address, quantity),
{
    if quantity < FC02_MIN_QUANTITY || quantity > FC02_MAX_QUANTITY {
        return Err(MbusError::InvalidQuantity);
    }
    if address.checked_add(quantity - 1).is_none() {
        return Err(MbusError::InvalidAddress);
    }
    Ok(packed_bit_len(quantity))
}

/// Checks the byte count that the application filled into a reply buffer of
/// `buf_len` bytes against the expected packed length.
///
/// Fails with `InvalidByteCount` when the count exceeds the buffer or
/// differs from `expected_len`.
pub fn check_read_discrete_inputs_reply(length: u8, expected_len: usize, buf_len: usize) -> (r: Result<(), MbusError>)
    requires
        expected_len <= u8::MAX,
    ensures
        r is Ok <==> (length <= buf_len && length == expected_len),
        r matches Err(e) ==> e == MbusError::InvalidByteCount,
{
    if length as usize > buf_len || length != expected_len as u8 {
        return Err(MbusError::InvalidByteCount);
    }
    Ok(())
}

/// The groups of request handlers a server was built with.
#[derive(Debug, Clone, Copy, PartialEq, Eq, Structural)]
pub struct ServedFunctions {
    /// Coil reads and writes.
    pub coils: bool,
    /// Holding-register reads and writes.
    pub holding_registers: bool,
    /// Input-register reads.
    pub input_registers: bool,
    /// Discrete-input reads.
    pub discrete_inputs: bool,
}

/// What a server does with a decoded request.
#[derive(Debug, Clone, Copy, PartialEq, Eq, Structural)]
pub enum ServerRoute {
    /// Drop it without an answer: it is addressed to another unit, or is a
    /// broadcast.
    Ignore,
    /// Hand it to the handler for this function code.
    Handle(FunctionCode),
    /// Answer with an `InvalidFunctionCode` exception: no handler for this
    /// function code is built in.
    Reject(FunctionCode),
}

/// Whether a handler for `fc` is built in.
pub open spec fn spec_served(fc: FunctionCode, served: ServedFunctions) -> bool {
    match fc {
        FunctionCode::ReadCoils | FunctionCode::WriteSingleCoil | FunctionCode::WriteMultipleCoils => served.coils,
        FunctionCode::ReadHoldingRegisters | FunctionCode::WriteSingleRegister | FunctionCode::WriteMultipleRegisters => served.holding_registers,
        FunctionCode::ReadInputRegisters => served.input_registers,
        FunctionCode::ReadDiscreteInputs => served.discrete_inputs,
        _ => false,
    }
}

/// The route of a request with function code `fc` that arrived for unit
/// `wire_address` at a server with address `own_address`.
pub open spec fn spec_route_request(own_address: u8, wire_address: u8, fc: FunctionCode, served: ServedFunctions) -> ServerRoute {
    if wire_address != own_address {
        ServerRoute::Ignore
    } else if spec_served(fc, served) {
        ServerRoute::Handle(fc)
    } else {
        ServerRoute::Reject(fc)
    }
}

/// Decides what the server does with a decoded request: requests for
/// another unit, broadcasts included, are dropped; requests for a built-in
/// handler go to it; all others are answered with an exception.
pub fn route_request(own_address: u8, wire_address: u8, fc: FunctionCode, served: ServedFunctions) -> (r: ServerRoute)
    ensures
        r == spec_route_request(own_address, wire_address, fc, served),
{
    if wire_address != own_address {
        return ServerRoute::Ignore;
    }
    let handled = match fc {
        FunctionCode::ReadCoils | FunctionCode::WriteSingleCoil | FunctionCode::WriteMultipleCoils => served.coils,
        FunctionCode::ReadHoldingRegisters | FunctionCode::WriteSingleRegister | FunctionCode::WriteMultipleRegisters => served.holding_registers,
        FunctionCode::ReadInputRegisters => served.input_registers,
        FunctionCode::ReadDiscreteInputs => served.discrete_inputs,
        _ => false,
    };
    if handled {
        ServerRoute::Handle(fc)
    } else {
        ServerRoute::Reject(fc)
    }
}

/// Whether a receive error means the connection is gone: the error is one
/// of the connection errors or an I/O error, or the transport no longer
/// reports itself connected. The server then disconnects and drops its
/// buffered bytes.
pub fn is_connection_loss(err: MbusError, connected: bool) -> (r: bool)
    ensures
        r == (err == MbusError::ConnectionClosed || err == MbusError::ConnectionFailed || err
            == MbusError::ConnectionLost || err == MbusError::IoError || !connected),
{
    match err {
        MbusError::ConnectionClosed | MbusError::ConnectionFailed | MbusError::ConnectionLost | MbusError::IoError => true,
        _ => !connected,
    }
}

/// The verdict on the buffered bytes before a frame is decoded: the frame
/// length derived from its header (`None` while too few bytes are there to
/// tell), checked against the largest frame and against what is buffered.
pub open spec fn spec_frame_length_check(derived: Option<usize>, buffered: usize) -> Result<usize, MbusError> {
    match derived {
        None => Err(MbusError::BufferTooSmall),
        Some(len) => if len > MAX_ADU_FRAME_LEN {
            Err(MbusError::BasicParseError)
        } else if buffered < len {
            Err(MbusError::BufferTooSmall)
        } else {
            Ok(len)
        },
    }
}

/// Checks the derived length of the next frame: unknown or not yet fully
/// buffered means waiting for more bytes (`BufferTooSmall`); longer than
/// an ADU frame can be is a `BasicParseError`.
pub fn frame_length_check(derived: Option<usize>, buffered: usize) -> (r: Result<usize, MbusError>)
    ensures
        r == spec_frame_length_check(derived, buffered),
{
    let expected = match derived {
        Some(len) => len,
        None => {
            return Err(MbusError::BufferTooSmall);
        },
    };
    if expected > MAX_ADU_FRAME_LEN {
        return Err(MbusError::BasicParseError);
    }
    if buffered < expected {
        return Err(MbusError::BufferTooSmall);
    }
    Ok(expected)
}

/// The receive buffer of a server: bytes of partially received frames.
pub struct ServerRxBuffer {
    rxed_frame: heapless::Vec<u8, MAX_FRAME_LEN>,
}

impl View for ServerRxBuffer {
    type V = Seq<u8>;

    closed spec fn view(&self) -> Seq<u8> {
        frame_bytes(self.rxed_frame)
    }
}

/// The buffer after an ingest attempt that returned `result`: a complete
/// frame of `consumed` bytes is removed, an incomplete frame keeps
/// everything, and any other error drops the first byte to resynchronise.
pub open spec fn spec_after_ingest(buf: Seq<u8>, result: Result<usize, MbusError>) -> Seq<u8> {
    match result {
        Ok(consumed) => if consumed < buf.len() {
            buf.skip(consumed as int)
        } else {
            Seq::empty()
        },
        Err(MbusError::BufferTooSmall) => buf,
        Err(_) => if buf.len() > 1 {
            buf.skip(1)
        } else {
            Seq::empty()
        },
    }
}

impl ServerRxBuffer {
    /// Creates an empty buffer.
    pub fn new() -> (r: ServerRxBuffer)
        ensures
            r@ == Seq::<u8>::empty(),
    {
        ServerRxBuffer { rxed_frame: frame_new() }
    }

    /// Drops every buffered byte, as after a lost connection.
    pub fn clear(&mut self)
        ensures
            final(self)@ == Seq::<u8>::empty(),
    {
        frame_clear(&mut self.rxed_frame);
    }

    /// The buffered bytes.
    pub fn as_slice(&self) -> (r: &[u8])
        ensures
            r@ == self@,
    {
        frame_as_slice(&self.rxed_frame)
    }

    /// Appends received transport bytes; when they do not fit in one ADU
    /// frame (260 bytes) the whole buffer is discarded instead.
    pub fn append(&mut self, frame: &[u8])
        ensures
            old(self)@.len() + frame@.len() <= MAX_ADU_FRAME_LEN ==> final(self)@ == old(self)@ + frame@,
            old(self)@.len() + frame@.len() > MAX_ADU_FRAME_LEN ==> final(self)@ == Seq::<u8>::empty(),
    {
        if frame_extend(&mut self.rxed_frame, frame).is_err() {
            frame_clear(&mut self.rxed_frame);
        }
    }

    /// Keeps the bytes from position `start` on, moved to the front.
    fn keep_from(&mut self, start: usize)
        requires
            start <= old(self)@.len(),
        ensures
            final(self)@ == old(self)@.skip(start as int),
    {
        let current = frame_as_slice(&self.rxed_frame);
        let rest = vstd::slice::slice_to_vec(vstd::slice::slice_subrange(current, start, current.len()));
        frame_clear(&mut self.rxed_frame);
        let _ = frame_extend(&mut self.rxed_frame, rest.as_slice());
        assert(rest@ =~= old(self)@.skip(start as int));
    }

    /// Removes the first `consumed` bytes (everything, when `consumed` is
    /// not smaller than the buffer).
    pub fn drain(&mut self, consumed: usize)
        ensures
            final(self)@ == spec_after_ingest(old(self)@, Ok::<usize, MbusError>(consumed)),
    {
        let len = frame_as_slice(&self.rxed_frame).len();
        if consumed < len {
            self.keep_from(consumed);
        } else {
            frame_clear(&mut self.rxed_frame);
        }
    }

    /// Drops the first byte to resynchronise after a parse error.
    pub fn resync(&mut self)
        ensures
            final(self)@ == (if old(self)@.len() > 1 {
                old(self)@.skip(1)
            } else {
                Seq::<u8>::empty()
            }),
    {
        let len = frame_as_slice(&self.rxed_frame).len();
        if len > 1 {
            self.keep_from(1);
        } else {
            frame_clear(&mut self.rxed_frame);
        }
    }

    /// Applies the outcome of one ingest attempt and says whether the
    /// receive loop should try again: it stops on an incomplete frame or
    /// when the buffer is empty.
    pub fn after_ingest(&mut self, result: Result<usize, MbusError>) -> (r: bool)
        ensures
            final(self)@ == spec_after_ingest(old(self)@, result),
            r == (!(result matches Err(MbusError::BufferTooSmall)) && final(self)@.len() > 0),
    {
        match result {
            Ok(consumed) => self.drain(consumed),
            Err(MbusError::BufferTooSmall) => {
                return false;
            },
            Err(_) => self.resync(),
        }
        frame_as_slice(&self.rxed_frame).len() > 0
    }
}
/// Each ingest step that does not wait for more bytes makes the buffer
/// strictly shorter (when it was not empty and a complete frame consumed at
/// least one byte), so the receive loop ends.
pub proof fn lemma_after_ingest_shrinks(buf: Seq<u8>, result: Result<usize, MbusError>)
    requires
        buf.len() > 0,
        !(result matches Err(MbusError::BufferTooSmall)),
        result matches Ok(consumed) ==> consumed > 0,
    ensures
        spec_after_ingest(buf, result).len() < buf.len(),
{
}


/// The length of the next frame that the MBAP header at the front of `buf`
/// announces, once the six prefix bytes are there.
pub open spec fn spec_tcp_derived_len(buf: Seq<u8>) -> Option<usize> {
    if buf.len() >= MBAP_PREFIX_LEN {
        Some(announced_len(buf) as usize)
    } else {
        None
    }
}

/// The outcome of one ingest attempt on the buffered bytes `buf` of a TCP
/// server: the length check, then the decoding of the frame it delimits.
pub open spec fn spec_server_ingest(buf: Seq<u8>) -> Result<usize, MbusError> {
    match spec_frame_length_check(spec_tcp_derived_len(buf), buf.len() as usize) {
        Err(e) => Err(e),
        Ok(len) => match spec_parse_adu(buf.take(len as int)) {
            Err(e) => Err(e),
            Ok(_) => Ok(len),
        },
    }
}

/// The next request that a TCP server takes from its buffered bytes `buf`,
/// with the bytes left: bytes that do not start a valid frame are dropped
/// one at a time, an incomplete frame waits for more bytes, and a complete
/// frame is decoded and removed.
pub open spec fn spec_next_request(buf: Seq<u8>) -> (Option<(MbapHeader, PduView)>, Seq<u8>)
    decreases buf.len(),
{
    if buf.len() == 0 {
        (None, buf)
    } else {
        match spec_server_ingest(buf) {
            Ok(len) => (spec_parse_adu(buf.take(len as int)).ok(), spec_after_ingest(buf, Ok(len))),
            Err(MbusError::BufferTooSmall) => (None, buf),
            Err(_) => if buf.len() > 1 {
                spec_next_request(buf.skip(1))
            } else {
                (None, Seq::empty())
            },
        }
    }
}

/// One ingest attempt on the buffered bytes of a TCP server: checks the
/// announced length, decodes the frame and routes the request it holds.
pub fn server_ingest_tcp(buf: &[u8], own_address: u8, served: ServedFunctions) -> (r: (
    Result<usize, MbusError>,
    Option<(ModbusMessage, ServerRoute)>,
))
    ensures
        r.0 == spec_server_ingest(buf@),
        r.0 is Ok <==> r.1 is Some,
        r.1 matches Some((m, route)) ==> spec_parse_adu(buf@.take(r.0->Ok_0 as int)) == Ok::<
            (MbapHeader, PduView),
            MbusError,
        >((m.header(), m.pdu@)) && route == spec_route_request(
            own_address,
            m.header().unit_id,
            m.pdu@.function_code,
            served,
        ),
{
    let derived = if buf.len() >= MBAP_PREFIX_LEN {
        Some(MBAP_PREFIX_LEN + u16_from_be(buf[4], buf[5]) as usize)
    } else {
        None
    };
    let len = match frame_length_check(derived, buf.len()) {
        Ok(len) => len,
        Err(e) => {
            return (Err(e), None);
        },
    };
    let frame = vstd::slice::slice_subrange(buf, 0, len);
    assert(frame@ =~= buf@.take(len as int));
    match ModbusMessage::from_adu_bytes(frame) {
        Ok(message) => {
            let AdditionalAddress::MbapHeader(header) = message.additional_address;
            let route = route_request(own_address, header.unit_id, message.pdu.function_code(), served);
            (Ok(len), Some((message, route)))
        },
        Err(e) => (Err(e), None),
    }
}

impl ServerRxBuffer {
    /// Takes the next request from the buffered bytes of a TCP server, with
    /// its route; `None` when no complete frame is buffered. Bytes that do
    /// not start a valid frame are dropped one at a time on the way.
    pub fn next_request(&mut self, own_address: u8, served: ServedFunctions) -> (r: Option<(ModbusMessage, ServerRoute)>)
        ensures
            final(self)@ == spec_next_request(old(self)@).1,
            r is Some <==> spec_next_request(old(self)@).0 is Some,
            r matches Some((m, route)) ==> spec_next_request(old(self)@).0 == Some((m.header(), m.pdu@))
                && route == spec_route_request(own_address, m.header().unit_id, m.pdu@.function_code, served),
    {
        loop
            invariant
                spec_next_request(self@) == spec_next_request(old(self)@),
            decreases self@.len(),
        {
            let ghost before = self@;
            let (result, request) = server_ingest_tcp(self.as_slice(), own_address, served);
            let again = self.after_ingest(result);
            match request {
                Some(found) => {
                    return Some(found);
                },
                None => {},
            }
            if !again {
                proof {
                    if before.len() > 0 && !(result matches Err(MbusError::BufferTooSmall)) {
                        assert(self@.len() == 0);
                    }
                }
                return None;
            }
            proof {
                assert(before.len() > 0);
                lemma_after_ingest_shrinks(before, result);
            }
        }
    }
}


/// How requests are routed, group by group: a request for another unit
/// (broadcasts included) is dropped; at the server's own unit the coil
/// functions (0x01, 0x05, 0x0F) are handled exactly when coils are served,
/// the holding-register functions (0x03, 0x06, 0x10) exactly when holding
/// registers are, Read Input Registers (0x04) exactly when input registers
/// are, and Read Discrete Inputs (0x02) exactly when discrete inputs are;
/// every other function code is answered with an exception.
pub proof fn lemma_route_request_groups(own_address: u8, wire_address: u8, fc: FunctionCode, served: ServedFunctions)
    ensures
        wire_address != own_address ==> spec_route_request(own_address, wire_address, fc, served) == ServerRoute::Ignore,
        wire_address == own_address ==> ({
            let r = spec_route_request(own_address, wire_address, fc, served);
            &&& (fc == FunctionCode::ReadCoils || fc == FunctionCode::WriteSingleCoil || fc
                == FunctionCode::WriteMultipleCoils) ==> r == (if served.coils {
                ServerRoute::Handle(fc)
            } else {
                ServerRoute::Reject(fc)
            })
            &&& (fc == FunctionCode::ReadHoldingRegisters || fc == FunctionCode::WriteSingleRegister || fc
                == FunctionCode::WriteMultipleRegisters) ==> r == (if served.holding_registers {
                ServerRoute::Handle(fc)
            } else {
                ServerRoute::Reject(fc)
            })
            &&& fc == FunctionCode::ReadInputRegisters ==> r == (if served.input_registers {
                ServerRoute::Handle(fc)
            } else {
                ServerRoute::Reject(fc)
            })
            &&& fc == FunctionCode::ReadDiscreteInputs ==> r == (if served.discrete_inputs {
                ServerRoute::Handle(fc)
            } else {
                ServerRoute::Reject(fc)
            })
            &&& !(fc == FunctionCode::ReadCoils || fc == FunctionCode::WriteSingleCoil || fc
                == FunctionCode::WriteMultipleCoils || fc == FunctionCode::ReadHoldingRegisters || fc
                == FunctionCode::WriteSingleRegister || fc == FunctionCode::WriteMultipleRegisters || fc
                == FunctionCode::ReadInputRegisters || fc == FunctionCode::ReadDiscreteInputs) ==> r
                == ServerRoute::Reject(fc)
        }),
{
}


/// A Read Discrete Inputs request is served exactly when it asks for 1 to
/// 2000 inputs whose addresses all fit below 65536, and its reply then
/// carries the fewest bytes that hold one bit per input; a buffered frame is
/// taken only once it is complete and at most 260 bytes long.
pub proof fn lemma_server_request_bounds(address: u16, quantity: u16, derived: Option<usize>, buffered: usize)
    ensures
        spec_read_discrete_inputs_window(address, quantity) is Ok <==> (1 <= quantity <= 2000 && address + quantity
            <= 65536),
        spec_read_discrete_inputs_window(address, quantity) matches Ok(n) ==> 8 * n >= quantity && 8 * (n - 1)
            < quantity,
        spec_frame_length_check(derived, buffered) matches Ok(len) ==> derived == Some(len) && len <= 260 && len
            <= buffered,
        (derived matches Some(len) && len <= 260 && len <= buffered) ==> spec_frame_length_check(derived, buffered)
            is Ok,
{
}

} // verus!
