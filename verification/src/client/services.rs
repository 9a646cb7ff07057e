use vstd::prelude::*;

use crate::app::CoilResponse;
use crate::bounded::frame_as_slice;
use crate::client::coils::{spec_parse_read_coils, spec_read_coils_request, ModbusCoilService};
use crate::data_unit::{
    spec_adu_bytes, spec_parse_adu, zeros, AdditionalAddress, MbapHeader, ModbusMessage, PduView,
};
use crate::errors::MbusError;
use crate::models::bits::ceil8;
use crate::models::coil::{Coils as ModelCoils, CoilsView, MAX_COIL_BYTES};
use crate::function_codes::FunctionCode;
use crate::transport::{ModbusTcpConfig, Transport};

verus! {

/// A request that was sent and whose response is still awaited.
#[derive(Debug, Clone, Copy, PartialEq, Eq, Structural)]
pub struct ExpectedResponse {
    /// Transaction id of the request.
    pub txn_id: u16,
    /// Unit id the request was addressed to.
    pub unit_id: u8,
    /// Number of coils requested.
    pub expected_quantity: u16,
    /// Address of the first coil requested.
    pub from_address: u16,
    /// Whether the request read a single coil.
    pub single_read: bool,
}

/// Whether a response with these ids answers the pending request `e`.
pub open spec fn answers(e: ExpectedResponse, txn_id: u16, unit_id: u8) -> bool {
    e.txn_id == txn_id && e.unit_id == unit_id
}

/// The first position at or after `i` whose request a response with these
/// ids answers.
pub open spec fn first_match_from(s: Seq<ExpectedResponse>, txn_id: u16, unit_id: u8, i: int) -> Option<int>
    decreases s.len() - i,
{
    if i < 0 || i >= s.len() {
        None
    } else if answers(s[i], txn_id, unit_id) {
        Some(i)
    } else {
        first_match_from(s, txn_id, unit_id, i + 1)
    }
}

/// The first pending request that a response with these ids answers.
pub open spec fn first_match(s: Seq<ExpectedResponse>, txn_id: u16, unit_id: u8) -> Option<int> {
    first_match_from(s, txn_id, unit_id, 0)
}

/// `s` with its element at `i` replaced by the last one, and the last removed.
pub open spec fn spec_swap_remove(s: Seq<ExpectedResponse>, i: int) -> Seq<ExpectedResponse> {
    s.update(i, s.last()).drop_last()
}

/// The pending requests after a response with these ids was matched.
pub open spec fn spec_take_pending(s: Seq<ExpectedResponse>, txn_id: u16, unit_id: u8) -> Seq<ExpectedResponse> {
    match first_match(s, txn_id, unit_id) {
        None => s,
        Some(i) => spec_swap_remove(s, i),
    }
}

/// The pending requests after a received frame was ingested: only a
/// well-formed Read Coils response consumes a pending request.
pub open spec fn spec_pending_after_frame(s: Seq<ExpectedResponse>, frame: Seq<u8>) -> Seq<ExpectedResponse> {
    match spec_parse_adu(frame) {
        Ok((h, p)) => if p.function_code == FunctionCode::ReadCoils {
            spec_take_pending(s, h.transaction_id, h.unit_id)
        } else {
            s
        },
        Err(_) => s,
    }
}

/// The Modbus TCP ADU of a Read Coils request: the MBAP length counts the
/// unit id, the function code and the four data bytes.
pub open spec fn spec_read_coils_adu(txn_id: u16, unit_id: u8, address: u16, quantity: u16) -> Result<Seq<u8>, MbusError> {
    match spec_read_coils_request(address, quantity) {
        Ok(p) => Ok(
            spec_adu_bytes(
                MbapHeader { transaction_id: txn_id, protocol_id: 0, length: (p.data_len + 2) as u16, unit_id },
                p,
            ),
        ),
        Err(e) => Err(e),
    }
}

/// Builds the Modbus TCP ADU of a Read Coils request.
///
/// Fails with `InvalidPduLength` unless `1 <= quantity <= 2000`.
pub fn read_coils_adu(txn_id: u16, unit_id: u8, address: u16, quantity: u16) -> (r: Result<Vec<u8>, MbusError>)
    ensures
        match r {
            Ok(v) => spec_read_coils_adu(txn_id, unit_id, address, quantity) == Ok::<Seq<u8>, MbusError>(v@),
            Err(e) => spec_read_coils_adu(txn_id, unit_id, address, quantity) == Err::<Seq<u8>, MbusError>(e),
        },
{
    let pdu_request = ModbusCoilService::read_coils_request(address, quantity)?;
    let pdu_bytes_len = pdu_request.to_bytes().len() as u16;
    let mbap_header = MbapHeader::new(txn_id, pdu_bytes_len + 1, unit_id);
    let adu = ModbusMessage::new(AdditionalAddress::MbapHeader(mbap_header), pdu_request);
    Ok(adu.to_bytes())
}

/// The application callback that a received frame leads to.
pub enum CoilDelivery {
    /// No callback runs.
    Nothing,
    /// `read_coils_response(txn_id, unit_id, &coils, quantity)` runs.
    Coils { txn_id: u16, unit_id: u8, coils: ModelCoils, quantity: u16 },
    /// `read_single_coil_response(txn_id, unit_id, address, value)` runs.
    SingleCoil { txn_id: u16, unit_id: u8, address: u16, value: bool },
}

/// The application's record of callbacks after `d`: unchanged when no
/// callback runs, otherwise `d` appended.
pub open spec fn deliveries_after(log: Seq<CoilDelivery>, d: CoilDelivery) -> Seq<CoilDelivery> {
    if d is Nothing {
        log
    } else {
        log.push(d)
    }
}

/// The pending request, by position, that a received frame answers: the
/// first one with the frame's ids, when the frame is a well-formed Read
/// Coils response.
pub open spec fn spec_frame_match(s: Seq<ExpectedResponse>, frame: Seq<u8>) -> Option<int> {
    match spec_parse_adu(frame) {
        Ok((h, p)) => if p.function_code == FunctionCode::ReadCoils {
            first_match(s, h.transaction_id, h.unit_id)
        } else {
            None
        },
        Err(_) => None,
    }
}

/// `d` is the callback for a Read Coils response with header `h` and PDU
/// `p` given the pending requests `s`. With no matching request nothing
/// runs. Otherwise the matched request says how many coils from which
/// address were asked for; a response that does not parse for that many
/// coils (or a zero quantity) runs nothing. A single-coil read reports the
/// coil as set when the first status byte is not zero; a multi-coil read
/// hands over the coils holding the response's status bytes.
pub open spec fn is_coil_delivery(d: CoilDelivery, s: Seq<ExpectedResponse>, h: MbapHeader, p: PduView) -> bool {
    match first_match(s, h.transaction_id, h.unit_id) {
        None => d is Nothing,
        Some(i) => {
            let e = s[i];
            if !(spec_parse_read_coils(p, e.expected_quantity) is Ok && e.expected_quantity >= 1) {
                d is Nothing
            } else if e.single_read {
                d == CoilDelivery::SingleCoil {
                    txn_id: h.transaction_id,
                    unit_id: h.unit_id,
                    address: e.from_address,
                    value: p.payload()[1] != 0,
                }
            } else {
                d matches CoilDelivery::Coils { txn_id, unit_id, coils, quantity } && txn_id == h.transaction_id
                    && unit_id == h.unit_id && quantity == e.expected_quantity && coils@ == (CoilsView {
                    from_address: e.from_address,
                    quantity: e.expected_quantity,
                    values: p.payload().skip(1) + zeros((MAX_COIL_BYTES - ceil8(e.expected_quantity as int)) as nat),
                })
            }
        },
    }
}

/// `d` is the callback for the received `frame`: nothing for a frame that
/// does not decode or is not a Read Coils response.
pub open spec fn is_frame_delivery(d: CoilDelivery, s: Seq<ExpectedResponse>, frame: Seq<u8>) -> bool {
    match spec_parse_adu(frame) {
        Ok((h, p)) => if p.function_code == FunctionCode::ReadCoils {
            is_coil_delivery(d, s, h, p)
        } else {
            d is Nothing
        },
        Err(_) => d is Nothing,
    }
}

/// Position of the first pending request that a response with these ids answers.
fn first_expected(pending: &[ExpectedResponse], txn_id: u16, unit_id: u8) -> (r: Option<usize>)
    ensures
        match r {
            Some(i) => first_match(pending@, txn_id, unit_id) == Some(i as int) && i < pending@.len(),
            None => first_match(pending@, txn_id, unit_id) is None,
        },
{
    let n = pending.len();
    let mut i: usize = 0;
    while i < n
        invariant
            i <= n,
            n == pending@.len(),
            first_match(pending@, txn_id, unit_id) == first_match_from(pending@, txn_id, unit_id, i as int),
        decreases n - i,
    {
        let r = pending[i];
        if r.txn_id == txn_id && r.unit_id == unit_id {
            return Some(i);
        }
        i = i + 1;
    }
    None
}

/// Decides what a received TCP frame does, given the pending requests:
/// which pending request it consumes (by position) and which application
/// callback runs, with which arguments.
pub fn coil_delivery(pending: &[ExpectedResponse], frame: &[u8]) -> (r: (Option<usize>, CoilDelivery))
    ensures
        match r.0 {
            Some(i) => spec_frame_match(pending@, frame@) == Some(i as int) && i < pending@.len(),
            None => spec_frame_match(pending@, frame@) is None,
        },
        is_frame_delivery(r.1, pending@, frame@),
{
    let message = match ModbusMessage::from_adu_bytes(frame) {
        Ok(m) => m,
        Err(_) => {
            return (None, CoilDelivery::Nothing);
        },
    };
    if message.pdu.function_code() != FunctionCode::ReadCoils {
        return (None, CoilDelivery::Nothing);
    }
    let AdditionalAddress::MbapHeader(mbap_header) = message.additional_address;
    let index = match first_expected(pending, mbap_header.transaction_id, mbap_header.unit_id) {
        Some(i) => i,
        None => {
            return (None, CoilDelivery::Nothing);
        },
    };
    let expected_response = pending[index];
    let expected_quantity = expected_response.expected_quantity;
    let from_address = expected_response.from_address;
    let coil_response = match ModbusCoilService::handle_coil_response(&message.pdu, expected_quantity, from_address) {
        Some(response) => response,
        None => {
            return (Some(index), CoilDelivery::Nothing);
        },
    };
    if expected_response.single_read {
        let values = coil_response.values();
        let coil_value = values[0];
        proof {
            assert(values@[0] == message.pdu@.payload()[1]);
        }
        (
            Some(index),
            CoilDelivery::SingleCoil {
                txn_id: mbap_header.transaction_id,
                unit_id: mbap_header.unit_id,
                address: from_address,
                value: coil_value != 0,
            },
        )
    } else {
        (
            Some(index),
            CoilDelivery::Coils {
                txn_id: mbap_header.transaction_id,
                unit_id: mbap_header.unit_id,
                coils: coil_response,
                quantity: expected_quantity,
            },
        )
    }
}

/// A Modbus client: sends requests over a transport, remembers up to `N`
/// of them, and hands matching responses to the application.
pub struct ClientServices<TRANSPORT, const N: usize, APP> {
    /// The application that receives responses.
    pub app: APP,
    transport: TRANSPORT,
    expected_responses: Vec<ExpectedResponse>,
}

impl<TRANSPORT: Transport, const N: usize, APP: CoilResponse> ClientServices<TRANSPORT, N, APP> {
    /// The requests awaiting a response, oldest first except where a
    /// matched request was replaced by the last one.
    pub closed spec fn pending(&self) -> Seq<ExpectedResponse> {
        self.expected_responses@
    }

    /// The transport the client runs over.
    pub closed spec fn transport_view(&self) -> TRANSPORT {
        self.transport
    }

    /// The application that receives responses.
    pub closed spec fn app_view(&self) -> APP {
        self.app
    }

    /// Connects `transport` with `config` and creates a client with no
    /// pending request.
    ///
    /// Fails with `ConnectionFailed` when the transport does not connect.
    pub fn new(transport: TRANSPORT, app: APP, config: ModbusTcpConfig) -> (r: Result<Self, MbusError>)
        ensures
            r matches Ok(c) ==> c.pending() == Seq::<ExpectedResponse>::empty()
                && c.transport_view().spec_transport_type() == transport.spec_transport_type()
                && c.transport_view().spec_config() == Some(config)
                && c.transport_view().spec_sent() == transport.spec_sent()
                && c.app_view() == app,
            r matches Err(e) ==> e == MbusError::ConnectionFailed,
    {
        let mut transport = transport;
        match transport.connect(&config) {
            Ok(()) => {},
            Err(_e) => {
                return Err(MbusError::ConnectionFailed);
            },
        }
        Ok(ClientServices { app, transport, expected_responses: Vec::new() })
    }

    /// The transport.
    pub fn transport(&self) -> (r: &TRANSPORT)
        ensures
            *r == self.transport_view(),
    {
        &self.transport
    }

    /// The requests awaiting a response.
    pub fn expected_responses(&self) -> (r: &[ExpectedResponse])
        ensures
            r@ == self.pending(),
    {
        self.expected_responses.as_slice()
    }

    /// Receives one frame, if the transport has one, and ingests it.
    pub fn poll(&mut self)
        requires
            old(self).transport_view().spec_transport_type().is_tcp(),
        ensures
            final(self).transport_view().spec_transport_type() == old(self).transport_view().spec_transport_type(),
            final(self).transport_view().spec_config() == old(self).transport_view().spec_config(),
            final(self).transport_view().spec_sent() == old(self).transport_view().spec_sent(),
            exists|frame: Seq<u8>, d: CoilDelivery|
                #[trigger] is_frame_delivery(d, old(self).pending(), frame)
                && final(self).pending() == spec_pending_after_frame(old(self).pending(), frame)
                && final(self).app_view().spec_deliveries() == deliveries_after(old(self).app_view().spec_deliveries(), d),
    {
        let ghost before = self.pending();
        let ghost log = self.app.spec_deliveries();
        match self.transport.recv() {
            Ok(frame) => {
                let bytes = frame_as_slice(&frame);
                assert(self.pending() == before);
                assert(self.app.spec_deliveries() == log);
                self.ingest_frame(bytes);
                let ghost d = choose|d: CoilDelivery|
                    #[trigger] is_frame_delivery(d, before, bytes@)
                    && self.app.spec_deliveries() == deliveries_after(log, d);
                assert(is_frame_delivery(d, before, bytes@));
                assert(self.pending() == spec_pending_after_frame(before, bytes@));
            },
            Err(_e) => {
                let ghost empty = Seq::<u8>::empty();
                assert(spec_pending_after_frame(old(self).pending(), empty) == old(self).pending());
                assert(is_frame_delivery(CoilDelivery::Nothing, before, empty));
            },
        }
    }

    /// Sends a Read Coils request for `quantity` coils from `address`.
    pub fn read_multiple_coils(&mut self, txn_id: u16, unit_id: u8, address: u16, quantity: u16) -> (r: Result<(), MbusError>)
        requires
            old(self).transport_view().spec_transport_type().is_tcp(),
        ensures
            final(self).transport_view().spec_transport_type() == old(self).transport_view().spec_transport_type(),
            final(self).transport_view().spec_config() == old(self).transport_view().spec_config(),
            final(self).app_view() == old(self).app_view(),
            read_coils_outcome(old(self).pending(), final(self).pending(), r, N, txn_id, unit_id, address, quantity, false),
            final(self).transport_view().spec_sent() == sent_after_read_coils(old(self).transport_view().spec_sent(), old(self).pending(), N, txn_id, unit_id, address, quantity),
    {
        self.read_coils(txn_id, unit_id, address, quantity, false)
    }

    /// Sends a Read Coils request for the single coil at `address`.
    pub fn read_single_coil(&mut self, txn_id: u16, unit_id: u8, address: u16) -> (r: Result<(), MbusError>)
        requires
            old(self).transport_view().spec_transport_type().is_tcp(),
        ensures
            final(self).transport_view().spec_transport_type() == old(self).transport_view().spec_transport_type(),
            final(self).transport_view().spec_config() == old(self).transport_view().spec_config(),
            final(self).app_view() == old(self).app_view(),
            read_coils_outcome(old(self).pending(), final(self).pending(), r, N, txn_id, unit_id, address, 1, true),
            final(self).transport_view().spec_sent() == sent_after_read_coils(old(self).transport_view().spec_sent(), old(self).pending(), N, txn_id, unit_id, address, 1),
    {
        self.read_coils(txn_id, unit_id, address, 1, true)
    }

    fn read_coils(&mut self, txn_id: u16, unit_id: u8, address: u16, quantity: u16, single_read: bool) -> (r: Result<(), MbusError>)
        requires
            old(self).transport_view().spec_transport_type().is_tcp(),
        ensures
            final(self).transport_view().spec_transport_type() == old(self).transport_view().spec_transport_type(),
            final(self).transport_view().spec_config() == old(self).transport_view().spec_config(),
            final(self).app_view() == old(self).app_view(),
            read_coils_outcome(old(self).pending(), final(self).pending(), r, N, txn_id, unit_id, address, quantity, single_read),
            final(self).transport_view().spec_sent() == sent_after_read_coils(old(self).transport_view().spec_sent(), old(self).pending(), N, txn_id, unit_id, address, quantity),
    {
        let adu = read_coils_adu(txn_id, unit_id, address, quantity)?;
        if self.expected_responses.len() >= N {
            return Err(MbusError::TooManyRequests);
        }
        self.expected_responses.push(
            ExpectedResponse { txn_id, unit_id, expected_quantity: quantity, from_address: address, single_read },
        );
        match self.transport.send(adu.as_slice()) {
            Ok(()) => Ok(()),
            Err(_e) => Err(MbusError::SendFailed),
        }
    }

    /// Ingests a received frame: a well-formed Read Coils response that
    /// answers a pending request removes that request and is handed to the
    /// application; anything else is ignored. The request removed and the
    /// callback made are those that [`coil_delivery`] decides.
    pub fn ingest_frame(&mut self, frame: &[u8])
        requires
            old(self).transport_view().spec_transport_type().is_tcp(),
        ensures
            final(self).transport_view() == old(self).transport_view(),
            final(self).pending() == spec_pending_after_frame(old(self).pending(), frame@),
            exists|d: CoilDelivery|
                #[trigger] is_frame_delivery(d, old(self).pending(), frame@)
                && final(self).app_view().spec_deliveries() == deliveries_after(old(self).app_view().spec_deliveries(), d),
    {
        let (index, delivery) = coil_delivery(self.expected_responses.as_slice(), frame);
        match index {
            Some(i) => {
                let _ = self.expected_responses.swap_remove(i);
            },
            None => {},
        }
        self.handle_coil_response(delivery);
    }

    /// Makes the application callback that `delivery` describes.
    fn handle_coil_response(&mut self, delivery: CoilDelivery)
        ensures
            final(self).transport_view() == old(self).transport_view(),
            final(self).pending() == old(self).pending(),
            final(self).app_view().spec_deliveries() == deliveries_after(old(self).app_view().spec_deliveries(), delivery),
    {
        match delivery {
            CoilDelivery::Nothing => {},
            CoilDelivery::Coils { txn_id, unit_id, coils, quantity } => {
                self.app.read_coils_response(txn_id, unit_id, &coils, quantity);
            },
            CoilDelivery::SingleCoil { txn_id, unit_id, address, value } => {
                self.app.read_single_coil_response(txn_id, unit_id, address, value);
            },
        }
    }
}

/// The frames sent after a Read Coils request: nothing new when the
/// quantity is invalid or the table of pending requests is full; otherwise
/// the request's ADU is handed to the transport.
pub open spec fn sent_after_read_coils(
    sent: Seq<Seq<u8>>,
    before: Seq<ExpectedResponse>,
    capacity: usize,
    txn_id: u16,
    unit_id: u8,
    address: u16,
    quantity: u16,
) -> Seq<Seq<u8>> {
    match spec_read_coils_adu(txn_id, unit_id, address, quantity) {
        Err(_) => sent,
        Ok(adu) => if before.len() >= capacity {
            sent
        } else {
            sent.push(adu)
        },
    }
}

/// What sending a Read Coils request does to the pending requests and what
/// it returns: an invalid quantity is refused first, then a full table;
/// otherwise the request is recorded and the send either succeeds or
/// reports `SendFailed` (the request stays recorded either way).
pub open spec fn read_coils_outcome(
    before: Seq<ExpectedResponse>,
    after: Seq<ExpectedResponse>,
    r: Result<(), MbusError>,
    capacity: usize,
    txn_id: u16,
    unit_id: u8,
    address: u16,
    quantity: u16,
    single_read: bool,
) -> bool {
    if spec_read_coils_request(address, quantity) is Err {
        r == Err::<(), MbusError>(MbusError::InvalidPduLength) && after == before
    } else if before.len() >= capacity {
        r == Err::<(), MbusError>(MbusError::TooManyRequests) && after == before
    } else {
        &&& after == before.push(
            ExpectedResponse { txn_id, unit_id, expected_quantity: quantity, from_address: address, single_read },
        )
        &&& (r is Ok || r == Err::<(), MbusError>(MbusError::SendFailed))
    }
}

proof fn lemma_first_match_none(s: Seq<ExpectedResponse>, txn_id: u16, unit_id: u8, i: int)
    requires
        0 <= i,
        forall|j: int| i <= j < s.len() ==> !answers(#[trigger] s[j], txn_id, unit_id),
    ensures
        first_match_from(s, txn_id, unit_id, i) is None,
    decreases s.len() - i,
{
    if i < s.len() {
        lemma_first_match_none(s, txn_id, unit_id, i + 1);
    }
}

proof fn lemma_first_match_last(s: Seq<ExpectedResponse>, txn_id: u16, unit_id: u8, i: int)
    requires
        0 <= i < s.len(),
        answers(s.last(), txn_id, unit_id),
        forall|j: int| i <= j < s.len() - 1 ==> !answers(#[trigger] s[j], txn_id, unit_id),
    ensures
        first_match_from(s, txn_id, unit_id, i) == Some(s.len() - 1),
    decreases s.len() - i,
{
    if i < s.len() - 1 {
        lemma_first_match_last(s, txn_id, unit_id, i + 1);
    }
}

proof fn lemma_first_match_found(s: Seq<ExpectedResponse>, txn_id: u16, unit_id: u8, i: int)
    ensures
        first_match_from(s, txn_id, unit_id, i) matches Some(k) ==> i <= k < s.len() && answers(
            s[k],
            txn_id,
            unit_id,
        ),
    decreases s.len() - i,
{
    if 0 <= i < s.len() && !answers(s[i], txn_id, unit_id) {
        lemma_first_match_found(s, txn_id, unit_id, i + 1);
    }
}

/// A response that answers no pending request leaves the pending requests
/// unchanged.
pub proof fn lemma_unanswered_response_ignored(s: Seq<ExpectedResponse>, txn_id: u16, unit_id: u8)
    requires
        forall|j: int| 0 <= j < s.len() ==> !answers(#[trigger] s[j], txn_id, unit_id),
    ensures
        spec_take_pending(s, txn_id, unit_id) == s,
{
    lemma_first_match_none(s, txn_id, unit_id, 0);
}

/// Matching a response removes exactly one pending request, one that the
/// response answers, and keeps every other pending request.
pub proof fn lemma_matched_response_removes_one(s: Seq<ExpectedResponse>, txn_id: u16, unit_id: u8)
    requires
        first_match(s, txn_id, unit_id) is Some,
    ensures
        ({
            let i = first_match(s, txn_id, unit_id)->Some_0;
            let t = spec_take_pending(s, txn_id, unit_id);
            &&& 0 <= i < s.len()
            &&& answers(s[i], txn_id, unit_id)
            &&& t.len() == s.len() - 1
            &&& forall|j: int| 0 <= j < s.len() && j != i ==> t.contains(#[trigger] s[j])
        }),
{
    lemma_first_match_found(s, txn_id, unit_id, 0);
    let i = first_match(s, txn_id, unit_id)->Some_0;
    let t = spec_take_pending(s, txn_id, unit_id);
    assert forall|j: int| 0 <= j < s.len() && j != i implies t.contains(#[trigger] s[j]) by {
        if j == s.len() - 1 {
            assert(t[i] == s[j]);
        } else {
            assert(t[j] == s[j]);
        }
    }
}

/// Recording a request whose ids no other pending request uses, then
/// ingesting a well-formed Read Coils response with those ids, gives back
/// exactly the pending requests from before: the response consumes its
/// request and nothing else.
pub proof fn lemma_response_consumes_request(s: Seq<ExpectedResponse>, e: ExpectedResponse, h: MbapHeader, p: PduView)
    requires
        forall|j: int| 0 <= j < s.len() ==> !answers(#[trigger] s[j], e.txn_id, e.unit_id),
        p.wf(),
        p.function_code == FunctionCode::ReadCoils,
        h.transaction_id == e.txn_id,
        h.unit_id == e.unit_id,
        h.protocol_id == 0,
        h.length == p.data_len + 2,
    ensures
        spec_pending_after_frame(s.push(e), spec_adu_bytes(h, p)) == s,
{
    crate::data_unit::lemma_adu_roundtrip(h, p);
    let s2 = s.push(e);
    assert forall|j: int| 0 <= j < s2.len() - 1 implies !answers(#[trigger] s2[j], e.txn_id, e.unit_id) by {
        assert(s2[j] == s[j]);
    }
    lemma_first_match_last(s2, e.txn_id, e.unit_id, 0);
    assert(spec_swap_remove(s2, s.len() as int) =~= s);
}


/// The first request at or after `i` with both ids, told by its fields.
proof fn lemma_first_match_ids(s: Seq<ExpectedResponse>, txn_id: u16, unit_id: u8, i: int)
    requires
        0 <= i,
    ensures
        first_match_from(s, txn_id, unit_id, i) matches Some(k) ==> ({
            &&& i <= k < s.len()
            &&& s[k].txn_id == txn_id
            &&& s[k].unit_id == unit_id
            &&& forall|j: int| i <= j < k ==> !(#[trigger] s[j].txn_id == txn_id && s[j].unit_id == unit_id)
        }),
        first_match_from(s, txn_id, unit_id, i) is None ==> forall|j: int|
            i <= j < s.len() ==> !(#[trigger] s[j].txn_id == txn_id && s[j].unit_id == unit_id),
    decreases s.len() - i,
{
    if i < s.len() && !(s[i].txn_id == txn_id && s[i].unit_id == unit_id) {
        lemma_first_match_ids(s, txn_id, unit_id, i + 1);
    }
}

/// A received frame consumes a pending request only when it is a
/// well-formed Read Coils response whose transaction id and unit id are
/// both those of the request; it consumes the oldest such request, and it
/// consumes none when no pending request carries both of its ids.
pub proof fn lemma_frame_match_same_ids(s: Seq<ExpectedResponse>, frame: Seq<u8>)
    ensures
        spec_frame_match(s, frame) matches Some(i) ==> (spec_parse_adu(frame) matches Ok((h, p))
            && p.function_code == FunctionCode::ReadCoils && 0 <= i < s.len() && s[i].txn_id == h.transaction_id
            && s[i].unit_id == h.unit_id && forall|j: int|
            0 <= j < i ==> !(#[trigger] s[j].txn_id == h.transaction_id && s[j].unit_id == h.unit_id)),
        spec_frame_match(s, frame) is None ==> (spec_parse_adu(frame) matches Ok((h, p)) ==> (p.function_code
            == FunctionCode::ReadCoils ==> forall|j: int|
            0 <= j < s.len() ==> !(#[trigger] s[j].txn_id == h.transaction_id && s[j].unit_id == h.unit_id))),
{
    match spec_parse_adu(frame) {
        Ok((h, p)) => {
            lemma_first_match_ids(s, h.transaction_id, h.unit_id, 0);
        },
        Err(_) => {},
    }
}

/// What the application is handed comes from the frame and from the
/// request it answers: the frame's transaction id and unit id, and the
/// matched request's address and quantity; a multi-coil read yields the
/// coils callback and a single-coil read the single-coil callback.
pub proof fn lemma_delivery_from_matched_request(d: CoilDelivery, s: Seq<ExpectedResponse>, frame: Seq<u8>)
    requires
        is_frame_delivery(d, s, frame),
        !(d is Nothing),
    ensures
        spec_parse_adu(frame) matches Ok((h, p)) && spec_frame_match(s, frame) matches Some(i) && 0 <= i < s.len()
            && s[i].txn_id == h.transaction_id && s[i].unit_id == h.unit_id && (match d {
            CoilDelivery::Coils { txn_id, unit_id, coils, quantity } => {
                &&& txn_id == h.transaction_id
                &&& unit_id == h.unit_id
                &&& !s[i].single_read
                &&& quantity == s[i].expected_quantity
                &&& coils@.from_address == s[i].from_address
                &&& coils@.quantity == s[i].expected_quantity
            },
            CoilDelivery::SingleCoil { txn_id, unit_id, address, value } => {
                &&& txn_id == h.transaction_id
                &&& unit_id == h.unit_id
                &&& s[i].single_read
                &&& address == s[i].from_address
            },
            CoilDelivery::Nothing => false,
        }),
{
    lemma_frame_match_same_ids(s, frame);
    match spec_parse_adu(frame) {
        Ok((h, p)) => {
            lemma_first_match_ids(s, h.transaction_id, h.unit_id, 0);
        },
        Err(_) => {},
    }
}

} // verus!
