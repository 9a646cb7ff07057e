use vstd::prelude::*;

use crate::data_unit::{
    be_bytes, be_u16, u16_from_be, u16_to_be, zeros, AdditionalAddress, Data, MbapHeader,
    ModbusMessage, Pdu, PduView, MAX_PDU_DATA_LEN,
};
use crate::errors::MbusError;
use crate::function_codes::FunctionCode;
use crate::models::bits::{bit_set, ceil8, is_packing, lemma_bit_ops, lemma_byte_zero, lemma_unpack_packing, unpack};
use crate::models::coil::{Coils as ModelCoils, CoilsView, MAX_COILS_PER_PDU, MAX_COIL_BYTES};
use crate::transport::TransportType;
use crate::bounded::{coil_bits, coil_bits_new, coil_bits_push};

verus! {

/// Largest quantity a Read Coils request may ask for.
pub const MAX_READ_COILS: u16 = 2000;
/// Largest quantity a Write Multiple Coils request may carry.
pub const MAX_WRITE_COILS: u16 = 1968;

// ---------------------------------------------------------------------------
// Specifications of the requests and responses
// ---------------------------------------------------------------------------

/// The 252-byte data area that starts with `prefix` and is zero afterwards.
pub open spec fn data_area(prefix: Seq<u8>) -> Seq<u8> {
    prefix + zeros((MAX_PDU_DATA_LEN - prefix.len()) as nat)
}

/// The Read Coils (0x01) request for `quantity` coils from `address`.
pub open spec fn spec_read_coils_request(address: u16, quantity: u16) -> Result<PduView, MbusError> {
    if !(1 <= quantity <= MAX_READ_COILS) {
        Err(MbusError::InvalidPduLength)
    } else {
        Ok(
            PduView {
                function_code: FunctionCode::ReadCoils,
                bytes: data_area(be_bytes(address) + be_bytes(quantity)),
                data_len: 4,
            },
        )
    }
}

/// The coil states a Read Coils response carries, or the error reported.
pub open spec fn spec_parse_read_coils(p: PduView, expected_quantity: u16) -> Result<Seq<bool>, MbusError> {
    let d = p.payload();
    if p.function_code != FunctionCode::ReadCoils {
        Err(MbusError::ParseError)
    } else if d.len() == 0 {
        Err(MbusError::InvalidPduLength)
    } else if d[0] + 1 != d.len() {
        Err(MbusError::InvalidPduLength)
    } else if d[0] != ceil8(expected_quantity as int) {
        Err(MbusError::ParseError)
    } else if expected_quantity > MAX_COILS_PER_PDU {
        Err(MbusError::BufferTooSmall)
    } else {
        Ok(unpack(d.skip(1), expected_quantity as nat))
    }
}

/// The raw value that stands for a coil state on the wire.
pub open spec fn coil_wire_value(value: bool) -> u16 {
    if value {
        0xFF00
    } else {
        0x0000
    }
}

/// The Write Single Coil (0x05) request.
pub open spec fn spec_write_single_coil_request(address: u16, value: bool) -> PduView {
    PduView {
        function_code: FunctionCode::WriteSingleCoil,
        bytes: data_area(be_bytes(address) + be_bytes(coil_wire_value(value))),
        data_len: 4,
    }
}

/// The verdict on a Write Single Coil response.
pub open spec fn spec_parse_write_single_coil(p: PduView, expected_address: u16, expected_value: bool) -> Result<(), MbusError> {
    let d = p.payload();
    if p.function_code != FunctionCode::WriteSingleCoil {
        Err(MbusError::ParseError)
    } else if d.len() != 4 {
        Err(MbusError::InvalidPduLength)
    } else if be_u16(d[0], d[1]) != expected_address {
        Err(MbusError::ParseError)
    } else if be_u16(d[2], d[3]) != coil_wire_value(expected_value) {
        Err(MbusError::ParseError)
    } else {
        Ok(())
    }
}

/// The verdict on a Write Multiple Coils response.
pub open spec fn spec_parse_write_multiple_coils(p: PduView, expected_address: u16, expected_quantity: u16) -> Result<(), MbusError> {
    let d = p.payload();
    if p.function_code != FunctionCode::WriteMultipleCoils {
        Err(MbusError::ParseError)
    } else if d.len() != 4 {
        Err(MbusError::InvalidPduLength)
    } else if be_u16(d[0], d[1]) != expected_address || be_u16(d[2], d[3]) != expected_quantity {
        Err(MbusError::ParseError)
    } else {
        Ok(())
    }
}

/// Whether a Write Multiple Coils request accepts `quantity` and `values`.
pub open spec fn write_multiple_coils_accepts(quantity: u16, values: Seq<bool>) -> bool {
    1 <= quantity <= MAX_WRITE_COILS && values.len() == quantity
}

/// `p` is the Write Multiple Coils (0x0F) request for `values` from
/// `address`: address, quantity and byte count, then the packed states, then zeros.
pub open spec fn is_write_multiple_coils_request(p: PduView, address: u16, values: Seq<bool>) -> bool {
    let q = values.len() as int;
    let bc = ceil8(q);
    &&& p.function_code == FunctionCode::WriteMultipleCoils
    &&& p.bytes.len() == MAX_PDU_DATA_LEN
    &&& p.data_len == 5 + bc
    &&& p.bytes.take(5) == be_bytes(address) + be_bytes(q as u16) + seq![bc as u8]
    &&& is_packing(p.bytes.subrange(5, 5 + bc), values)
    &&& forall|j: int| 5 + bc <= j < MAX_PDU_DATA_LEN ==> p.bytes[j] == 0u8
}

// ---------------------------------------------------------------------------
// Services
// ---------------------------------------------------------------------------

/// Builds complete client ADUs for coil requests.
pub struct Coils {}

impl Coils {
    /// Creates the service.
    pub fn new() -> (r: Coils) {
        Coils {}
    }

    /// Builds the Modbus TCP ADU of a Read Coils request: an MBAP header
    /// with the given transaction and unit ids and a length of the PDU data
    /// plus one, followed by the request PDU.
    pub fn read_multiple(
        &self,
        txn_id: u16,
        unit_id: u8,
        address: u16,
        quantity: u16,
        transport_type: TransportType,
    ) -> (r: Result<ModbusMessage, MbusError>)
        requires
            transport_type.is_tcp(),
        ensures
            match r {
                Ok(m) => spec_read_coils_request(address, quantity) == Ok::<PduView, MbusError>(m.pdu@)
                    && m.header() == (MbapHeader { transaction_id: txn_id, protocol_id: 0, length: 5, unit_id }),
                Err(e) => spec_read_coils_request(address, quantity) == Err::<PduView, MbusError>(e),
            },
    {
        let pdu = ModbusCoilService::read_coils_request(address, quantity)?;
        let mbap_header = MbapHeader::new(txn_id, pdu.data_len() as u16 + 1, unit_id);
        Ok(ModbusMessage::new(AdditionalAddress::MbapHeader(mbap_header), pdu))
    }
}

/// Builds coil request PDUs and checks coil response PDUs.
pub struct ModbusCoilService {}

impl ModbusCoilService {
    /// Builds a Read Coils (0x01) request PDU.
    ///
    /// Fails with `InvalidPduLength` unless `1 <= quantity <= 2000`.
    pub fn read_coils_request(address: u16, quantity: u16) -> (r: Result<Pdu, MbusError>)
        ensures
            match r {
                Ok(p) => spec_read_coils_request(address, quantity) == Ok::<PduView, MbusError>(p@),
                Err(e) => spec_read_coils_request(address, quantity) == Err::<PduView, MbusError>(e),
            },
    {
        if quantity < 1 || quantity > MAX_READ_COILS {
            return Err(MbusError::InvalidPduLength);
        }
        let mut data_bytes = [0u8; MAX_PDU_DATA_LEN];
        let (a0, a1) = u16_to_be(address);
        let (q0, q1) = u16_to_be(quantity);
        data_bytes[0] = a0;
        data_bytes[1] = a1;
        data_bytes[2] = q0;
        data_bytes[3] = q1;
        assert(data_bytes@ =~= data_area(be_bytes(address) + be_bytes(quantity)));
        Ok(Pdu::new(FunctionCode::ReadCoils, Data::Bytes(data_bytes), 4))
    }

    /// Extracts the coil states from a Read Coils response PDU.
    ///
    /// Fails with `ParseError` on another function code or when the byte
    /// count is not `ceil(expected_quantity / 8)`, with `InvalidPduLength`
    /// when the data is empty or its length disagrees with the byte count,
    /// and with `BufferTooSmall` when more than 2000 states would result.
    pub fn parse_read_coils_response(pdu: &Pdu, expected_quantity: u16) -> (r: Result<heapless::Vec<bool, MAX_COILS_PER_PDU>, MbusError>)
        ensures
            match r {
                Ok(v) => spec_parse_read_coils(pdu@, expected_quantity) == Ok::<Seq<bool>, MbusError>(coil_bits(v)),
                Err(e) => spec_parse_read_coils(pdu@, expected_quantity) == Err::<Seq<bool>, MbusError>(e),
            },
    {
        if pdu.function_code() != FunctionCode::ReadCoils {
            return Err(MbusError::ParseError);
        }
        let data_slice = pdu.payload();
        let n = data_slice.len();
        if n == 0 {
            return Err(MbusError::InvalidPduLength);
        }
        let byte_count = data_slice[0] as usize;
        if byte_count + 1 != n {
            return Err(MbusError::InvalidPduLength);
        }
        let expected_byte_count = (expected_quantity as usize + 7) / 8;
        if byte_count != expected_byte_count {
            return Err(MbusError::ParseError);
        }
        let ghost d = pdu@.payload();
        let mut coils = coil_bits_new();
        let mut i: u16 = 0;
        while i < expected_quantity
            invariant
                d == data_slice@,
                d == pdu@.payload(),
                pdu@.function_code == FunctionCode::ReadCoils,
                d[0] == byte_count,
                n == d.len(),
                n == byte_count + 1,
                byte_count == ceil8(expected_quantity as int),
                i <= expected_quantity,
                i <= MAX_COILS_PER_PDU,
                coil_bits(coils) == unpack(d.skip(1), i as nat),
            decreases expected_quantity - i,
        {
            let byte_index = (i / 8) as usize;
            let bit_index = (i % 8) as u8;
            let byte = data_slice[1 + byte_index];
            let is_set = (byte >> bit_index) & 0x01 == 0x01;
            proof {
                lemma_bit_ops(byte, 0, bit_index);
                assert(d.skip(1)[(i / 8) as int] == byte);
            }
            match coil_bits_push(&mut coils, is_set) {
                Ok(()) => {},
                Err(_) => {
                    assert(i == MAX_COILS_PER_PDU);
                    assert(expected_quantity > MAX_COILS_PER_PDU);
                    return Err(MbusError::BufferTooSmall);
                },
            }
            assert(coil_bits(coils) =~= unpack(d.skip(1), (i + 1) as nat));
            i = i + 1;
        }
        Ok(coils)
    }

    /// Turns a Read Coils response into a block of coils starting at
    /// `from_address`: `None` when the response does not parse for
    /// `expected_quantity` coils or that quantity is zero; otherwise the
    /// block holds the response's coil-status bytes.
    pub fn handle_coil_response(pdu: &Pdu, expected_quantity: u16, from_address: u16) -> (r: Option<ModelCoils>)
        ensures
            r is Some <==> (spec_parse_read_coils(pdu@, expected_quantity) is Ok && expected_quantity >= 1),
            r matches Some(c) ==> c@ == (CoilsView {
                from_address,
                quantity: expected_quantity,
                values: pdu@.payload().skip(1) + zeros((MAX_COIL_BYTES - ceil8(expected_quantity as int)) as nat),
            }),
            r matches Some(c) ==> unpack(c@.values, expected_quantity as nat) == spec_parse_read_coils(pdu@, expected_quantity)->Ok_0,
    {
        match Self::parse_read_coils_response(pdu, expected_quantity) {
            Ok(_) => {},
            Err(_) => {
                return None;
            },
        }
        let coils = match ModelCoils::new(from_address, expected_quantity) {
            Ok(c) => c,
            Err(_) => {
                return None;
            },
        };
        let data = pdu.payload();
        let status = vstd::slice::slice_subrange(data, 1, data.len());
        let ghost bc = ceil8(expected_quantity as int);
        let r = coils.with_raw_values(status, expected_quantity);
        match r {
            Ok(c) => {
                assert(c@.values =~= pdu@.payload().skip(1) + zeros((MAX_COIL_BYTES - bc) as nat));
                assert(unpack(c@.values, expected_quantity as nat) =~= unpack(pdu@.payload().skip(1), expected_quantity as nat));
                Some(c)
            },
            Err(_) => None,
        }
    }

    /// Builds a Write Single Coil (0x05) request PDU: the address, then
    /// `0xFF00` for ON or `0x0000` for OFF. It always succeeds.
    pub fn write_single_coil_request(address: u16, value: bool) -> (r: Result<Pdu, MbusError>)
        ensures
            r matches Ok(p) && p@ == spec_write_single_coil_request(address, value),
    {
        let mut data_bytes = [0u8; MAX_PDU_DATA_LEN];
        let raw: u16 = if value {
            0xFF00
        } else {
            0x0000
        };
        let (a0, a1) = u16_to_be(address);
        let (v0, v1) = u16_to_be(raw);
        data_bytes[0] = a0;
        data_bytes[1] = a1;
        data_bytes[2] = v0;
        data_bytes[3] = v1;
        assert(data_bytes@ =~= data_area(be_bytes(address) + be_bytes(coil_wire_value(value))));
        Ok(Pdu::new(FunctionCode::WriteSingleCoil, Data::Bytes(data_bytes), 4))
    }

    /// Checks a Write Single Coil response against the request.
    ///
    /// Fails with `ParseError` on another function code or when the echoed
    /// address or value differs, and with `InvalidPduLength` when the data is
    /// not exactly four bytes.
    pub fn parse_write_single_coil_response(pdu: &Pdu, expected_address: u16, expected_value: bool) -> (r: Result<(), MbusError>)
        ensures
            r == spec_parse_write_single_coil(pdu@, expected_address, expected_value),
    {
        if pdu.function_code() != FunctionCode::WriteSingleCoil {
            return Err(MbusError::ParseError);
        }
        let data_slice = pdu.payload();
        if data_slice.len() != 4 {
            return Err(MbusError::InvalidPduLength);
        }
        let response_address = u16_from_be(data_slice[0], data_slice[1]);
        let response_value = u16_from_be(data_slice[2], data_slice[3]);
        if response_address != expected_address {
            return Err(MbusError::ParseError);
        }
        let expected_response_value: u16 = if expected_value {
            0xFF00
        } else {
            0x0000
        };
        if response_value != expected_response_value {
            return Err(MbusError::ParseError);
        }
        Ok(())
    }

    /// Builds a Write Multiple Coils (0x0F) request PDU: address, quantity,
    /// byte count, then the states packed eight to a byte, first state in the
    /// least significant bit.
    ///
    /// Fails with `InvalidPduLength` unless `1 <= quantity <= 1968` and the
    /// number of values equals `quantity`.
    pub fn write_multiple_coils_request(address: u16, quantity: u16, values: &[bool]) -> (r: Result<Pdu, MbusError>)
        ensures
            r is Ok <==> write_multiple_coils_accepts(quantity, values@),
            r matches Ok(p) ==> is_write_multiple_coils_request(p@, address, values@),
            r matches Err(e) ==> e == MbusError::InvalidPduLength,
    {
        if quantity < 1 || quantity > MAX_WRITE_COILS {
            return Err(MbusError::InvalidPduLength);
        }
        if values.len() != quantity as usize {
            return Err(MbusError::InvalidPduLength);
        }
        let n = values.len();
        assert(n == quantity);
        let byte_count = ((quantity as usize + 7) / 8) as u8;
        let mut data_bytes = [0u8; MAX_PDU_DATA_LEN];
        let (a0, a1) = u16_to_be(address);
        let (q0, q1) = u16_to_be(quantity);
        data_bytes[0] = a0;
        data_bytes[1] = a1;
        data_bytes[2] = q0;
        data_bytes[3] = q1;
        data_bytes[4] = byte_count;
        proof {
            assert forall|j: int, k: int| 5 <= j < MAX_PDU_DATA_LEN && 0 <= k < 8 implies !#[trigger] bit_set(data_bytes@[j], k) by {
                lemma_byte_zero(0u8);
                assert(data_bytes@[j] == 0u8);
            }
        }
        let mut i: usize = 0;
        while i < n
            invariant
                i <= n,
                n == values@.len(),
                n == quantity,
                quantity <= MAX_WRITE_COILS,
                data_bytes@.len() == MAX_PDU_DATA_LEN,
                data_bytes@.take(5) == be_bytes(address) + be_bytes(quantity) + seq![byte_count],
                forall|j: int, k: int|
                    5 <= j < MAX_PDU_DATA_LEN && 0 <= k < 8 ==> #[trigger] bit_set(data_bytes@[j], k)
                        == (8 * (j - 5) + k < i && values@[8 * (j - 5) + k]),
            decreases n - i,
        {
            let ghost before = data_bytes@;
            if values[i] {
                let byte_index = 5 + i / 8;
                let bit_index = (i % 8) as u8;
                data_bytes[byte_index] = data_bytes[byte_index] | (1u8 << bit_index);
                proof {
                    assert forall|j: int, k: int| 5 <= j < MAX_PDU_DATA_LEN && 0 <= k < 8 implies #[trigger] bit_set(data_bytes@[j], k)
                        == (8 * (j - 5) + k < i + 1 && values@[8 * (j - 5) + k]) by {
                        if j == byte_index {
                            lemma_bit_ops(before[j], bit_index, k as u8);
                            assert((8 * (j - 5) + k == i) == (k == bit_index));
                            assert(bit_set(before[j], k) == ((before[j] & (1u8 << (k as u8))) != 0));
                        } else {
                            assert(data_bytes@[j] == before[j]);
                            assert(8 * (j - 5) + k != i);
                        }
                    }
                }
            }
            assert(data_bytes@.take(5) =~= before.take(5));
            i = i + 1;
        }
        proof {
            let bc = ceil8(n as int);
            assert(bc == byte_count);
            let packed = data_bytes@.subrange(5, 5 + bc);
            assert forall|j: int, k: int| 0 <= j < packed.len() && 0 <= k < 8 implies #[trigger] bit_set(packed[j], k)
                == (8 * j + k < values@.len() && values@[8 * j + k]) by {
                assert(packed[j] == data_bytes@[j + 5]);
                assert(bit_set(data_bytes@[j + 5], k) == (8 * (j + 5 - 5) + k < n && values@[8 * (j + 5 - 5) + k]));
            }
            assert forall|j: int| 5 + bc <= j < MAX_PDU_DATA_LEN implies data_bytes@[j] == 0u8 by {
                lemma_byte_zero(data_bytes@[j]);
                assert(!bit_set(data_bytes@[j], 0));
                assert(!bit_set(data_bytes@[j], 1));
                assert(!bit_set(data_bytes@[j], 2));
                assert(!bit_set(data_bytes@[j], 3));
                assert(!bit_set(data_bytes@[j], 4));
                assert(!bit_set(data_bytes@[j], 5));
                assert(!bit_set(data_bytes@[j], 6));
                assert(!bit_set(data_bytes@[j], 7));
            }
        }
        Ok(Pdu::new(FunctionCode::WriteMultipleCoils, Data::Bytes(data_bytes), 5 + byte_count))
    }

    /// Checks a Write Multiple Coils response against the request.
    ///
    /// Fails with `ParseError` on another function code or when the echoed
    /// address or quantity differs, and with `InvalidPduLength` when the data
    /// is not exactly four bytes.
    pub fn parse_write_multiple_coils_response(pdu: &Pdu, expected_address: u16, expected_quantity: u16) -> (r: Result<(), MbusError>)
        ensures
            r == spec_parse_write_multiple_coils(pdu@, expected_address, expected_quantity),
    {
        if pdu.function_code() != FunctionCode::WriteMultipleCoils {
            return Err(MbusError::ParseError);
        }
        let data_slice = pdu.payload();
        if data_slice.len() != 4 {
            return Err(MbusError::InvalidPduLength);
        }
        let response_address = u16_from_be(data_slice[0], data_slice[1]);
        let response_quantity = u16_from_be(data_slice[2], data_slice[3]);
        if response_address != expected_address || response_quantity != expected_quantity {
            return Err(MbusError::ParseError);
        }
        Ok(())
    }
}

// ---------------------------------------------------------------------------
// Laws
// ---------------------------------------------------------------------------

/// A server that echoes a Write Single Coil request gives a response that
/// the client accepts for that address and value.
pub proof fn lemma_write_single_coil_echo_accepted(address: u16, value: bool)
    ensures
        spec_parse_write_single_coil(spec_write_single_coil_request(address, value), address, value)
            == Ok::<(), MbusError>(()),
{
    let p = spec_write_single_coil_request(address, value);
    crate::data_unit::lemma_be_roundtrip(address);
    crate::data_unit::lemma_be_roundtrip(coil_wire_value(value));
    assert(p.payload() =~= be_bytes(address) + be_bytes(coil_wire_value(value)));
}

/// A Read Coils response whose coil-status bytes are the packing of some
/// states (as Write Multiple Coils packs them) parses back to exactly those
/// states: both directions use the same bit order.
pub proof fn lemma_read_coils_unpacks_packing(p: PduView, packed: Seq<u8>, values: Seq<bool>)
    requires
        1 <= values.len() <= MAX_COILS_PER_PDU,
        is_packing(packed, values),
        p.function_code == FunctionCode::ReadCoils,
        p.payload() == seq![packed.len() as u8] + packed,
    ensures
        spec_parse_read_coils(p, values.len() as u16) == Ok::<Seq<bool>, MbusError>(values),
{
    let d = p.payload();
    assert(d.skip(1) =~= packed);
    lemma_unpack_packing(packed, values);
}


/// The coil requests on the wire: a Read Coils request is built exactly for
/// 1 to 2000 coils and carries function code 0x01, then the start address
/// and the quantity, high byte first; a Write Single Coil request carries
/// 0x05, the address, then `FF 00` for ON and `00 00` for OFF; a Write
/// Multiple Coils request is accepted exactly for 1 to 1968 coils with one
/// value per coil.
pub proof fn lemma_coil_requests_on_the_wire(address: u16, quantity: u16, value: bool, values: Seq<bool>)
    ensures
        spec_read_coils_request(address, quantity) is Ok <==> 1 <= quantity <= 2000,
        spec_read_coils_request(address, quantity) matches Ok(p) ==> p.wire() == seq![
            0x01u8,
            (address / 256) as u8,
            (address % 256) as u8,
            (quantity / 256) as u8,
            (quantity % 256) as u8,
        ],
        spec_write_single_coil_request(address, value).wire() == seq![
            0x05u8,
            (address / 256) as u8,
            (address % 256) as u8,
            if value { 0xFFu8 } else { 0x00u8 },
            0x00u8,
        ],
        write_multiple_coils_accepts(quantity, values) <==> (1 <= quantity <= 1968 && values.len() == quantity),
{
    if spec_read_coils_request(address, quantity) is Ok {
        let p = spec_read_coils_request(address, quantity)->Ok_0;
        assert(p.wire() =~= seq![
            0x01u8,
            (address / 256) as u8,
            (address % 256) as u8,
            (quantity / 256) as u8,
            (quantity % 256) as u8,
        ]);
    }
    let w = spec_write_single_coil_request(address, value);
    assert(w.wire() =~= seq![
        0x05u8,
        (address / 256) as u8,
        (address % 256) as u8,
        if value { 0xFFu8 } else { 0x00u8 },
        0x00u8,
    ]);
}

} // verus!
