use vstd::prelude::*;

use crate::errors::MbusError;
use crate::function_codes::{fc_byte, fc_of_byte, FunctionCode};
use crate::transport::TransportType;

verus! {

/// Maximum number of data bytes that follow the function code in a PDU.
pub const MAX_PDU_DATA_LEN: usize = 252;
/// Maximum length of a complete Modbus ADU frame.
pub const MAX_ADU_FRAME_LEN: usize = 260;
/// Length of the Modbus TCP MBAP header (transaction id, protocol id, length, unit id).
pub const MBAP_HEADER_LEN: usize = 7;

// ---------------------------------------------------------------------------
// Big-endian helpers
// ---------------------------------------------------------------------------

/// High byte of a 16-bit value in network order.
pub open spec fn be_hi(x: u16) -> u8 {
    (x / 256) as u8
}

/// Low byte of a 16-bit value in network order.
pub open spec fn be_lo(x: u16) -> u8 {
    (x % 256) as u8
}

/// The two network-order bytes of a 16-bit value.
pub open spec fn be_bytes(x: u16) -> Seq<u8> {
    seq![be_hi(x), be_lo(x)]
}

/// The 16-bit value whose network-order bytes are `hi`, `lo`.
pub open spec fn be_u16(hi: u8, lo: u8) -> u16 {
    (hi * 256 + lo) as u16
}

/// A run of `n` zero bytes.
pub open spec fn zeros(n: nat) -> Seq<u8> {
    Seq::new(n, |i: int| 0u8)
}

/// Splitting a value into its network-order bytes and joining them gives it back.
pub proof fn lemma_be_roundtrip(x: u16)
    ensures
        be_u16(be_hi(x), be_lo(x)) == x,
{
}

/// Returns the network-order bytes of `x`.
pub fn u16_to_be(x: u16) -> (r: (u8, u8))
    ensures
        r.0 == be_hi(x),
        r.1 == be_lo(x),
{
    ((x / 256) as u8, (x % 256) as u8)
}

/// Joins two network-order bytes into a 16-bit value.
pub fn u16_from_be(hi: u8, lo: u8) -> (r: u16)
    ensures
        r == be_u16(hi, lo),
        r == hi * 256 + lo,
{
    (hi as u16) * 256 + (lo as u16)
}

// ---------------------------------------------------------------------------
// PDU
// ---------------------------------------------------------------------------

/// The data area of a PDU.
#[derive(Debug, Clone, Copy)]
pub enum Data {
    /// Raw bytes; only the first `data_len` of them belong to the PDU.
    Bytes([u8; MAX_PDU_DATA_LEN]),
}

impl Data {
    /// All bytes of the data area.
    pub open spec fn bytes(self) -> Seq<u8> {
        match self {
            Data::Bytes(b) => b@,
        }
    }
}

/// A Modbus Protocol Data Unit: a function code and up to 252 data bytes.
#[derive(Debug, Clone, Copy)]
pub struct Pdu {
    function_code: FunctionCode,
    data: Data,
    data_len: u8,
}

/// The mathematical content of a [`Pdu`].
pub struct PduView {
    /// The function code.
    pub function_code: FunctionCode,
    /// All bytes of the data area (252 of them).
    pub bytes: Seq<u8>,
    /// How many of `bytes` belong to the PDU.
    pub data_len: nat,
}

impl PduView {
    /// The data bytes that belong to the PDU.
    pub open spec fn payload(self) -> Seq<u8> {
        self.bytes.take(self.data_len as int)
    }

    /// The PDU as it travels on the wire: function code, then payload.
    pub open spec fn wire(self) -> Seq<u8> {
        seq![fc_byte(self.function_code)] + self.payload()
    }

    /// A well-formed PDU view: a 252-byte area and a length within it.
    pub open spec fn wf(self) -> bool {
        &&& self.bytes.len() == MAX_PDU_DATA_LEN
        &&& self.data_len <= MAX_PDU_DATA_LEN
    }
}

impl View for Pdu {
    type V = PduView;

    closed spec fn view(&self) -> PduView {
        PduView { function_code: self.function_code, bytes: self.data.bytes(), data_len: self.data_len as nat }
    }
}

/// The PDU that a wire byte sequence (function code followed by data)
/// decodes to, or the error that decoding reports.
pub open spec fn spec_parse_pdu(s: Seq<u8>) -> Result<PduView, MbusError> {
    if s.len() == 0 || s.len() > MAX_PDU_DATA_LEN + 1 {
        Err(MbusError::InvalidPduLength)
    } else {
        match fc_of_byte(s[0]) {
            None => Err(MbusError::UnsupportedFunction(s[0])),
            Some(fc) => Ok(
                PduView {
                    function_code: fc,
                    bytes: s.skip(1) + zeros((MAX_PDU_DATA_LEN - (s.len() - 1)) as nat),
                    data_len: (s.len() - 1) as nat,
                },
            ),
        }
    }
}

impl Pdu {
    #[verifier::type_invariant]
    spec fn inv(self) -> bool {
        self.data_len <= MAX_PDU_DATA_LEN
    }

    /// Builds a PDU from a function code, a data area and the number of data
    /// bytes that belong to it.
    pub fn new(function_code: FunctionCode, data: Data, data_len: u8) -> (r: Pdu)
        requires
            data_len <= MAX_PDU_DATA_LEN,
        ensures
            r@ == (PduView { function_code, bytes: data.bytes(), data_len: data_len as nat }),
    {
        Pdu { function_code, data, data_len }
    }

    /// The function code.
    pub fn function_code(&self) -> (r: FunctionCode)
        ensures
            r == self@.function_code,
    {
        self.function_code
    }

    /// The data area.
    pub fn data(&self) -> (r: &Data)
        ensures
            r.bytes() == self@.bytes,
            r.bytes().len() == MAX_PDU_DATA_LEN,
            self@.wf(),
    {
        proof {
            use_type_invariant(self);
        }
        &self.data
    }

    /// The number of data bytes that belong to the PDU.
    pub fn data_len(&self) -> (r: u8)
        ensures
            r == self@.data_len,
            r <= MAX_PDU_DATA_LEN,
            self@.wf(),
    {
        proof {
            use_type_invariant(self);
        }
        self.data_len
    }

    /// The data bytes that belong to the PDU.
    pub fn payload(&self) -> (r: &[u8])
        ensures
            r@ == self@.payload(),
    {
        proof {
            use_type_invariant(self);
        }
        let Data::Bytes(b) = &self.data;
        vstd::slice::slice_subrange(b.as_slice(), 0, self.data_len as usize)
    }

    /// Decodes a PDU from its wire bytes: the function code byte, then the data.
    ///
    /// Fails with `InvalidPduLength` when the input is empty or holds more than
    /// 252 data bytes, and with `UnsupportedFunction` when the first byte names
    /// no public function code.
    pub fn from_bytes(bytes: &[u8]) -> (r: Result<Pdu, MbusError>)
        ensures
            match r {
                Ok(p) => spec_parse_pdu(bytes@) == Ok::<PduView, MbusError>(p@),
                Err(e) => spec_parse_pdu(bytes@) == Err::<PduView, MbusError>(e),
            },
    {
        let n = bytes.len();
        if n == 0 || n > MAX_PDU_DATA_LEN + 1 {
            return Err(MbusError::InvalidPduLength);
        }
        let fc = match FunctionCode::from_u8(bytes[0]) {
            Some(fc) => fc,
            None => return Err(MbusError::UnsupportedFunction(bytes[0])),
        };
        let mut data = [0u8; MAX_PDU_DATA_LEN];
        let mut i: usize = 1;
        while i < n
            invariant
                1 <= i <= n,
                n == bytes@.len(),
                n <= MAX_PDU_DATA_LEN + 1,
                data@.len() == MAX_PDU_DATA_LEN,
                forall|j: int| 0 <= j < i - 1 ==> data@[j] == bytes@[j + 1],
                forall|j: int| i - 1 <= j < MAX_PDU_DATA_LEN ==> data@[j] == 0u8,
            decreases n - i,
        {
            data[i - 1] = bytes[i];
            i = i + 1;
        }
        let p = Pdu { function_code: fc, data: Data::Bytes(data), data_len: (n - 1) as u8 };
        assert(p@.bytes =~= bytes@.skip(1) + zeros((MAX_PDU_DATA_LEN - (n - 1)) as nat));
        Ok(p)
    }

    /// Encodes the PDU as wire bytes: the function code byte, then the data.
    pub fn to_bytes(&self) -> (r: Vec<u8>)
        ensures
            r@ == self@.wire(),
    {
        proof {
            use_type_invariant(self);
        }
        let mut out: Vec<u8> = Vec::new();
        out.push(self.function_code.to_u8());
        let Data::Bytes(b) = &self.data;
        let len = self.data_len as usize;
        let mut i: usize = 0;
        while i < len
            invariant
                i <= len,
                len == self@.data_len,
                len <= MAX_PDU_DATA_LEN,
                b@ == self@.bytes,
                b@.len() == MAX_PDU_DATA_LEN,
                out@ == seq![fc_byte(self@.function_code)] + self@.bytes.take(i as int),
            decreases len - i,
        {
            out.push(b[i]);
            assert(self@.bytes.take(i + 1) =~= self@.bytes.take(i as int).push(b@[i as int]));
            i = i + 1;
        }
        out
    }
}

/// Decoding the wire form of a well-formed PDU gives back its function code
/// and its payload.
pub proof fn lemma_pdu_roundtrip(p: PduView)
    requires
        p.wf(),
    ensures
        spec_parse_pdu(p.wire()) matches Ok(q) && q.function_code == p.function_code
            && q.payload() == p.payload() && q.wf(),
{
    crate::function_codes::lemma_function_code_roundtrip(p.function_code, 0);
    let w = p.wire();
    assert(w[0] == fc_byte(p.function_code));
    assert(w.skip(1) =~= p.payload());
    let q = spec_parse_pdu(w)->Ok_0;
    assert(q.payload() =~= p.payload());
}

// ---------------------------------------------------------------------------
// ADU (Modbus TCP)
// ---------------------------------------------------------------------------

/// The Modbus TCP MBAP header.
#[derive(Debug, Clone, Copy, PartialEq, Eq, Structural)]
pub struct MbapHeader {
    /// Transaction identifier chosen by the client.
    pub transaction_id: u16,
    /// Protocol identifier; always 0 for Modbus.
    pub protocol_id: u16,
    /// Number of bytes that follow the length field (unit id and PDU).
    pub length: u16,
    /// Unit identifier of the addressed server.
    pub unit_id: u8,
}

impl MbapHeader {
    /// Builds a Modbus header (protocol id 0).
    pub fn new(transaction_id: u16, length: u16, unit_id: u8) -> (r: MbapHeader)
        ensures
            r == (MbapHeader { transaction_id, protocol_id: 0, length, unit_id }),
    {
        MbapHeader { transaction_id, protocol_id: 0, length, unit_id }
    }
}

/// The seven wire bytes of an MBAP header.
pub open spec fn spec_mbap_bytes(h: MbapHeader) -> Seq<u8> {
    be_bytes(h.transaction_id) + be_bytes(h.protocol_id) + be_bytes(h.length) + seq![h.unit_id]
}

/// The addressing part of an ADU.
#[derive(Debug, Clone, Copy)]
pub enum AdditionalAddress {
    /// The MBAP header of a Modbus TCP frame.
    MbapHeader(MbapHeader),
}

/// A complete Modbus message: addressing information and a PDU.
#[derive(Debug, Clone, Copy)]
pub struct ModbusMessage {
    /// The addressing part (MBAP header for TCP).
    pub additional_address: AdditionalAddress,
    /// The protocol data unit.
    pub pdu: Pdu,
}

/// The wire bytes of a TCP ADU with header `h` and PDU `p`.
pub open spec fn spec_adu_bytes(h: MbapHeader, p: PduView) -> Seq<u8> {
    spec_mbap_bytes(h) + p.wire()
}

/// The header and PDU that a TCP ADU decodes to, or the error reported.
pub open spec fn spec_parse_adu(s: Seq<u8>) -> Result<(MbapHeader, PduView), MbusError> {
    if s.len() < MBAP_HEADER_LEN + 1 {
        Err(MbusError::InvalidPduLength)
    } else if be_u16(s[2], s[3]) != 0 {
        Err(MbusError::ParseError)
    } else if be_u16(s[4], s[5]) != s.len() - 6 {
        Err(MbusError::BufferLenMissmatch)
    } else {
        match spec_parse_pdu(s.skip(MBAP_HEADER_LEN as int)) {
            Err(e) => Err(e),
            Ok(p) => Ok(
                (
                    MbapHeader {
                        transaction_id: be_u16(s[0], s[1]),
                        protocol_id: 0,
                        length: be_u16(s[4], s[5]),
                        unit_id: s[6],
                    },
                    p,
                ),
            ),
        }
    }
}

impl ModbusMessage {
    /// Builds a message from its addressing part and PDU.
    pub fn new(additional_address: AdditionalAddress, pdu: Pdu) -> (r: ModbusMessage)
        ensures
            r.additional_address == additional_address,
            r.pdu@ == pdu@,
    {
        ModbusMessage { additional_address, pdu }
    }

    /// The MBAP header of the message.
    pub open spec fn header(self) -> MbapHeader {
        match self.additional_address {
            AdditionalAddress::MbapHeader(h) => h,
        }
    }

    /// Encodes the message as a Modbus TCP ADU: the MBAP header, then the PDU.
    pub fn to_bytes(&self) -> (r: Vec<u8>)
        ensures
            r@ == spec_adu_bytes(self.header(), self.pdu@),
    {
        let AdditionalAddress::MbapHeader(h) = self.additional_address;
        let mut out: Vec<u8> = Vec::new();
        let (a, b) = u16_to_be(h.transaction_id);
        out.push(a);
        out.push(b);
        let (a, b) = u16_to_be(h.protocol_id);
        out.push(a);
        out.push(b);
        let (a, b) = u16_to_be(h.length);
        out.push(a);
        out.push(b);
        out.push(h.unit_id);
        assert(out@ =~= spec_mbap_bytes(h));
        let mut pdu_bytes = self.pdu.to_bytes();
        out.append(&mut pdu_bytes);
        out
    }

    /// Decodes a Modbus TCP ADU.
    ///
    /// Fails with `InvalidPduLength` when the frame is shorter than a header
    /// and a function code, `ParseError` when the protocol id is not 0,
    /// `BufferLenMissmatch` when the length field does not count the bytes that
    /// follow it, and otherwise as [`Pdu::from_bytes`] on the rest.
    pub fn from_adu_bytes(frame: &[u8]) -> (r: Result<ModbusMessage, MbusError>)
        ensures
            match r {
                Ok(m) => spec_parse_adu(frame@) == Ok::<(MbapHeader, PduView), MbusError>(
                    (m.header(), m.pdu@),
                ),
                Err(e) => spec_parse_adu(frame@) == Err::<(MbapHeader, PduView), MbusError>(e),
            },
    {
        let n = frame.len();
        if n < MBAP_HEADER_LEN + 1 {
            return Err(MbusError::InvalidPduLength);
        }
        let transaction_id = u16_from_be(frame[0], frame[1]);
        let protocol_id = u16_from_be(frame[2], frame[3]);
        let length = u16_from_be(frame[4], frame[5]);
        let unit_id = frame[6];
        if protocol_id != 0 {
            return Err(MbusError::ParseError);
        }
        if length as usize != n - 6 {
            return Err(MbusError::BufferLenMissmatch);
        }
        let rest = vstd::slice::slice_subrange(frame, MBAP_HEADER_LEN, n);
        assert(rest@ =~= frame@.skip(MBAP_HEADER_LEN as int));
        let pdu = Pdu::from_bytes(rest)?;
        let header = MbapHeader { transaction_id, protocol_id: 0, length, unit_id };
        Ok(ModbusMessage { additional_address: AdditionalAddress::MbapHeader(header), pdu })
    }
}

/// Decoding the wire form of a TCP ADU whose header is consistent (protocol
/// id 0, length counting the unit id and the PDU) gives back its header, its
/// function code and its payload.
pub proof fn lemma_adu_roundtrip(h: MbapHeader, p: PduView)
    requires
        p.wf(),
        h.protocol_id == 0,
        h.length == p.data_len + 2,
    ensures
        spec_parse_adu(spec_adu_bytes(h, p)) matches Ok((h2, q)) && h2 == h && q.function_code
            == p.function_code && q.payload() == p.payload(),
{
    let s = spec_adu_bytes(h, p);
    lemma_be_roundtrip(h.transaction_id);
    lemma_be_roundtrip(h.protocol_id);
    lemma_be_roundtrip(h.length);
    lemma_pdu_roundtrip(p);
    assert(s.skip(MBAP_HEADER_LEN as int) =~= p.wire());
    assert(s[0] == be_hi(h.transaction_id));
    assert(s[1] == be_lo(h.transaction_id));
    assert(s[2] == be_hi(h.protocol_id));
    assert(s[3] == be_lo(h.protocol_id));
    assert(s[4] == be_hi(h.length));
    assert(s[5] == be_lo(h.length));
    assert(s[6] == h.unit_id);
}

/// Decodes a received frame according to the transport's framing; `None`
/// when the frame does not decode.
pub fn decode_transport_frame(frame: &[u8], transport_type: TransportType) -> (r: Option<ModbusMessage>)
    requires
        transport_type.is_tcp(),
    ensures
        match r {
            Some(m) => spec_parse_adu(frame@) == Ok::<(MbapHeader, PduView), MbusError>(
                (m.header(), m.pdu@),
            ),
            None => spec_parse_adu(frame@) is Err,
        },
{
    match ModbusMessage::from_adu_bytes(frame) {
        Ok(msg) => Some(msg),
        Err(_e) => None,
    }
}


/// Decoding a PDU keeps its bytes: a sequence that decodes is exactly the
/// wire form of what it decodes to, and one decodes exactly when it holds a
/// known function code byte and at most 252 data bytes.
pub proof fn lemma_pdu_decoding_keeps_bytes(s: Seq<u8>)
    ensures
        spec_parse_pdu(s) is Ok <==> (1 <= s.len() <= 253 && fc_of_byte(s[0]) is Some),
        spec_parse_pdu(s) matches Ok(p) ==> p.wire() == s && p.wf(),
{
    if spec_parse_pdu(s) is Ok {
        let p = spec_parse_pdu(s)->Ok_0;
        crate::function_codes::lemma_function_code_roundtrip(p.function_code, s[0]);
        assert(p.payload() =~= s.skip(1));
        assert(p.wire() =~= s);
    }
}

/// A TCP ADU decodes only when its protocol id bytes are zero, its length
/// field counts exactly the bytes after it and the rest is a PDU; the
/// transaction id is read from the first two bytes, high byte first, and
/// the unit id from the seventh. Every such byte sequence decodes.
pub proof fn lemma_adu_decoding_reads_fields(s: Seq<u8>)
    ensures
        spec_parse_adu(s) matches Ok((h, p)) ==> ({
            &&& s.len() >= 8
            &&& s[2] == 0 && s[3] == 0
            &&& s[4] * 256 + s[5] == s.len() - 6
            &&& h.transaction_id == s[0] * 256 + s[1]
            &&& h.unit_id == s[6]
            &&& p.wire() == s.skip(7)
        }),
        (s.len() >= 8 && s.len() <= 260 && s[2] == 0 && s[3] == 0 && s[4] * 256 + s[5] == s.len() - 6 && fc_of_byte(s[7])
            is Some) ==> spec_parse_adu(s) is Ok,
{
    lemma_pdu_decoding_keeps_bytes(s.skip(7));
    assert(be_u16(s[2], s[3]) == s[2] * 256 + s[3]);
    assert(be_u16(s[4], s[5]) == s[4] * 256 + s[5]);
    assert(be_u16(s[0], s[1]) == s[0] * 256 + s[1]);
    if s.len() >= 8 {
        assert(s.skip(7)[0] == s[7]);
    }
}

} // verus!
