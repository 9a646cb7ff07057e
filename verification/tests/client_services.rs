use std::cell::RefCell;
use std::collections::VecDeque;

use modbus_rs::app::{CoilResponse, DeliveryLog};
use modbus_rs::client::services::{coil_delivery, read_coils_adu, ClientServices, CoilDelivery, ExpectedResponse};
use modbus_rs::errors::MbusError;
use modbus_rs::models::coil::Coils;
use modbus_rs::transport::{ModbusTcpConfig, SentFrames, Transport, TransportType};

// --- Mock Transport Implementation ---
#[derive(Debug, Default)]
struct MockTransport {
    pub sent_frames: RefCell<VecDeque<Vec<u8>>>,
    pub recv_frames: RefCell<VecDeque<heapless::Vec<u8, 260>>>,
    pub connect_should_fail: bool,
    pub send_should_fail: bool,
    pub is_connected_flag: RefCell<bool>,
}

impl Transport for MockTransport {
    type Error = MbusError;

    fn spec_transport_type(&self) -> TransportType {
        TransportType::StdTcp
    }

    fn spec_config(&self) -> Option<ModbusTcpConfig> {
        panic!("a specification item, not called at run time")
    }

    fn spec_sent(&self) -> SentFrames {
        panic!("a specification item, not called at run time")
    }

    fn connect(&mut self, _config: &ModbusTcpConfig) -> Result<(), Self::Error> {
        if self.connect_should_fail {
            return Err(MbusError::ConnectionFailed);
        }
        *self.is_connected_flag.borrow_mut() = true;
        Ok(())
    }

    fn disconnect(&mut self) -> Result<(), Self::Error> {
        *self.is_connected_flag.borrow_mut() = false;
        Ok(())
    }

    fn send(&mut self, adu: &[u8]) -> Result<(), Self::Error> {
        if self.send_should_fail {
            return Err(MbusError::SendFailed);
        }
        self.sent_frames.borrow_mut().push_back(adu.to_vec());
        Ok(())
    }

    fn recv(&mut self) -> Result<heapless::Vec<u8, 260>, Self::Error> {
        self.recv_frames.borrow_mut().pop_front().ok_or(MbusError::Timeout)
    }

    fn is_connected(&self) -> bool {
        *self.is_connected_flag.borrow()
    }

    fn transport_type(&self) -> TransportType {
        TransportType::StdTcp
    }
}

// --- Mock App Implementation ---
#[derive(Debug, Default)]
struct MockApp {
    pub received_coil_responses: RefCell<Vec<(u16, u8, Coils, u16)>>,
}

impl CoilResponse for MockApp {
    fn spec_deliveries(&self) -> DeliveryLog {
        panic!("a specification item, not called at run time")
    }

    fn read_coils_response(&mut self, txn_id: u16, unit_id: u8, coils: &Coils, quantity: u16) {
        self.received_coil_responses.borrow_mut().push((txn_id, unit_id, coils.clone(), quantity));
    }

    fn read_single_coil_response(&mut self, txn_id: u16, unit_id: u8, address: u16, value: bool) {
        let coils = Coils::new(address, 1)
            .unwrap()
            .with_raw_values(&[if value { 0x01 } else { 0x00 }], 1)
            .unwrap();
        self.received_coil_responses.borrow_mut().push((txn_id, unit_id, coils, 1));
    }
}

fn new_client() -> ClientServices<MockTransport, 10, MockApp> {
    let transport = MockTransport::default();
    let app = MockApp::default();
    let config = ModbusTcpConfig::new("127.0.0.1", 502);
    ClientServices::<MockTransport, 10, MockApp>::new(transport, app, config).unwrap()
}

#[test]
fn test_client_services_new_success() {
    let transport = MockTransport::default();
    let app = MockApp::default();
    let config = ModbusTcpConfig::new("127.0.0.1", 502);

    let client_services = ClientServices::<MockTransport, 10, MockApp>::new(transport, app, config);
    assert!(client_services.is_ok());
    assert!(client_services.unwrap().transport().is_connected());
}

#[test]
fn test_client_services_new_connection_failure() {
    let mut transport = MockTransport::default();
    transport.connect_should_fail = true;
    let app = MockApp::default();
    let config = ModbusTcpConfig::new("127.0.0.1", 502);

    let client_services = ClientServices::<MockTransport, 10, MockApp>::new(transport, app, config);
    assert!(client_services.is_err());
    assert_eq!(client_services.err().unwrap(), MbusError::ConnectionFailed);
}

#[test]
fn test_read_multiple_coils_sends_valid_adu() {
    let mut client_services = new_client();

    client_services.read_multiple_coils(0x0001, 0x01, 0x0000, 8).unwrap();

    let sent_frames = client_services.transport().sent_frames.borrow();
    assert_eq!(sent_frames.len(), 1);
    let sent_adu = sent_frames.front().unwrap();

    let expected_adu: [u8; 12] = [
        0x00, 0x01, // Transaction ID
        0x00, 0x00, // Protocol ID
        0x00, 0x06, // Length
        0x01,       // Unit ID
        0x01,       // Function Code (Read Coils)
        0x00, 0x00, // Starting Address
        0x00, 0x08, // Quantity of Coils
    ];
    assert_eq!(sent_adu.as_slice(), &expected_adu);
}

#[test]
fn test_read_multiple_coils_invalid_quantity() {
    let mut client_services = new_client();
    let result = client_services.read_multiple_coils(0x0001, 0x01, 0x0000, 0);
    assert_eq!(result.unwrap_err(), MbusError::InvalidPduLength);
}

#[test]
fn test_read_multiple_coils_send_failure() {
    let mut transport = MockTransport::default();
    transport.send_should_fail = true;
    let app = MockApp::default();
    let config = ModbusTcpConfig::new("127.0.0.1", 502);
    let mut client_services = ClientServices::<MockTransport, 10, MockApp>::new(transport, app, config).unwrap();

    let result = client_services.read_multiple_coils(0x0001, 0x01, 0x0000, 8);
    assert_eq!(result.unwrap_err(), MbusError::SendFailed);
}

#[test]
fn test_client_services_read_coils_e2e_success() {
    let mut client_services = new_client();

    let txn_id = 0x0001;
    let unit_id = 0x01;
    let address = 0x0000;
    let quantity = 8;
    client_services.read_multiple_coils(txn_id, unit_id, address, quantity).unwrap();

    let sent_adu = client_services.transport().sent_frames.borrow_mut().pop_front().unwrap();
    assert_eq!(sent_adu.as_slice(), &[0x00, 0x01, 0x00, 0x00, 0x00, 0x06, 0x01, 0x01, 0x00, 0x00, 0x00, 0x08]);

    assert_eq!(client_services.expected_responses().len(), 1);
    let expected_req = &client_services.expected_responses()[0];
    assert_eq!(expected_req.txn_id, txn_id);
    assert_eq!(expected_req.unit_id, unit_id);
    assert_eq!(expected_req.expected_quantity, quantity);
    assert_eq!(expected_req.from_address, address);

    let response_adu = [0x00, 0x01, 0x00, 0x00, 0x00, 0x04, 0x01, 0x01, 0x01, 0xB3];
    client_services.ingest_frame(&response_adu);

    let received_responses = client_services.app.received_coil_responses.borrow();
    assert_eq!(received_responses.len(), 1);

    let (rcv_txn_id, rcv_unit_id, rcv_coils, rcv_quantity) = &received_responses[0];
    assert_eq!(*rcv_txn_id, txn_id);
    assert_eq!(*rcv_unit_id, unit_id);
    assert_eq!(rcv_coils.from_address(), address);
    assert_eq!(rcv_coils.quantity(), quantity);
    assert_eq!(rcv_coils.values(), &[0xB3]);
    assert_eq!(*rcv_quantity, quantity);

    assert!(client_services.expected_responses().is_empty());
}

#[test]
fn test_ingest_frame_wrong_fc() {
    let mut client_services = new_client();
    let response_adu = [0x00, 0x01, 0x00, 0x00, 0x00, 0x04, 0x01, 0x03, 0x01, 0xB3];
    client_services.ingest_frame(&response_adu);
    let received_responses = client_services.app.received_coil_responses.borrow();
    assert!(received_responses.is_empty());
}

#[test]
fn test_ingest_frame_malformed_adu() {
    let mut client_services = new_client();
    let malformed_adu = [0x01, 0x02, 0x03];
    client_services.ingest_frame(&malformed_adu);
    let received_responses = client_services.app.received_coil_responses.borrow();
    assert!(received_responses.is_empty());
}

#[test]
fn test_ingest_frame_unknown_txn_id() {
    let mut client_services = new_client();
    let response_adu = [0x00, 0x01, 0x00, 0x00, 0x00, 0x04, 0x01, 0x01, 0x01, 0xB3];
    client_services.ingest_frame(&response_adu);
    let received_responses = client_services.app.received_coil_responses.borrow();
    assert!(received_responses.is_empty());
}

#[test]
fn test_ingest_frame_pdu_parse_failure() {
    let mut client_services = new_client();
    client_services.read_multiple_coils(0x0001, 0x01, 0x0000, 8).unwrap();

    let response_adu = [0x00, 0x01, 0x00, 0x00, 0x00, 0x05, 0x01, 0x01, 0x01, 0xB3, 0x00];
    client_services.ingest_frame(&response_adu);

    let received_responses = client_services.app.received_coil_responses.borrow();
    assert!(received_responses.is_empty());
    assert!(client_services.expected_responses().is_empty());
}

#[test]
fn test_client_services_read_single_coil_e2e_success() {
    let mut client_services = new_client();

    let txn_id = 0x0002;
    let unit_id = 0x01;
    let address = 0x0005;

    client_services.read_single_coil(txn_id, unit_id, address).unwrap();

    let sent_adu = client_services.transport().sent_frames.borrow_mut().pop_front().unwrap();
    let expected_adu: [u8; 12] = [
        0x00, 0x02,
        0x00, 0x00,
        0x00, 0x06,
        0x01,
        0x01,
        0x00, 0x05,
        0x00, 0x01,
    ];
    assert_eq!(sent_adu.as_slice(), &expected_adu);

    let response_adu = [0x00, 0x02, 0x00, 0x00, 0x00, 0x04, 0x01, 0x01, 0x01, 0x01];
    client_services.ingest_frame(&response_adu);

    let received_responses = client_services.app.received_coil_responses.borrow();
    assert_eq!(received_responses.len(), 1);

    let (rcv_txn_id, rcv_unit_id, rcv_coils, rcv_quantity) = &received_responses[0];
    assert_eq!(*rcv_txn_id, txn_id);
    assert_eq!(*rcv_unit_id, unit_id);
    assert_eq!(rcv_coils.from_address(), address);
    assert_eq!(rcv_coils.quantity(), 1);
    assert_eq!(rcv_coils.values(), &[0x01]);
    assert_eq!(*rcv_quantity, 1);

    assert!(client_services.expected_responses().is_empty());
}

#[test]
fn test_read_single_coil_request_sends_valid_adu() {
    let mut client_services = new_client();

    client_services.read_single_coil(0x0002, 0x01, 0x0005).unwrap();

    let sent_frames = client_services.transport().sent_frames.borrow();
    assert_eq!(sent_frames.len(), 1);
    let sent_adu = sent_frames.front().unwrap();
    let expected_adu: [u8; 12] = [
        0x00, 0x02,
        0x00, 0x00,
        0x00, 0x06,
        0x01,
        0x01,
        0x00, 0x05,
        0x00, 0x01,
    ];
    assert_eq!(sent_adu.as_slice(), &expected_adu);

    assert_eq!(client_services.expected_responses().len(), 1);
    assert!(client_services.expected_responses()[0].single_read);
}

#[test]
fn test_client_services_read_single_coil() {
    // A read of one coil answered by a scripted transport.
    let mut client = new_client();
    client.read_single_coil(2, 0, 1).unwrap();
    {
        let sent = client.transport().sent_frames.borrow();
        assert_eq!(
            sent.front().unwrap().as_slice(),
            &[0x00, 0x02, 0x00, 0x00, 0x00, 0x06, 0x00, 0x01, 0x00, 0x01, 0x00, 0x01]
        );
    }
    let response = heapless::Vec::<u8, 260>::from_slice(&[0x00, 0x02, 0x00, 0x00, 0x00, 0x04, 0x00, 0x01, 0x01, 0x01]).unwrap();
    client.transport().recv_frames.borrow_mut().push_back(response);
    client.poll();

    let received_responses = client.app.received_coil_responses.borrow();
    assert_eq!(received_responses.len(), 1);
    let (rcv_txn_id, rcv_unit_id, rcv_coils, rcv_quantity) = &received_responses[0];
    assert_eq!(*rcv_txn_id, 2);
    assert_eq!(*rcv_unit_id, 0);
    assert_eq!(rcv_coils.from_address(), 1);
    assert_eq!(rcv_coils.quantity(), 1);
    assert_eq!(rcv_coils.values(), &[0x01]);
    assert_eq!(*rcv_quantity, 1);
}

#[test]
fn pipeline_limit_refuses_extra_requests() {
    let transport = MockTransport::default();
    let app = MockApp::default();
    let config = ModbusTcpConfig::new("127.0.0.1", 502);
    let mut client = ClientServices::<MockTransport, 2, MockApp>::new(transport, app, config).unwrap();
    assert_eq!(client.read_multiple_coils(1, 1, 0, 8), Ok(()));
    assert_eq!(client.read_multiple_coils(2, 1, 0, 8), Ok(()));
    assert_eq!(client.read_multiple_coils(3, 1, 0, 8), Err(MbusError::TooManyRequests));
    assert_eq!(client.expected_responses().len(), 2);
    // Answer the first request; the second stays pending.
    client.ingest_frame(&[0x00, 0x01, 0x00, 0x00, 0x00, 0x04, 0x01, 0x01, 0x01, 0xFF]);
    assert_eq!(client.expected_responses().len(), 1);
    assert_eq!(client.expected_responses()[0].txn_id, 2);
    // A second answer with the same ids finds nothing to consume.
    client.ingest_frame(&[0x00, 0x01, 0x00, 0x00, 0x00, 0x04, 0x01, 0x01, 0x01, 0xFF]);
    assert_eq!(client.expected_responses().len(), 1);
    assert_eq!(client.app.received_coil_responses.borrow().len(), 1);
}

#[test]
fn poll_without_frames_changes_nothing() {
    let mut client = new_client();
    client.read_single_coil(7, 1, 3).unwrap();
    client.poll();
    assert_eq!(client.expected_responses().len(), 1);
}

#[test]
fn read_coils_adu_bytes() {
    assert_eq!(
        read_coils_adu(0x1234, 0x11, 0x0102, 0x0010).unwrap(),
        vec![0x12, 0x34, 0x00, 0x00, 0x00, 0x06, 0x11, 0x01, 0x01, 0x02, 0x00, 0x10]
    );
    assert_eq!(read_coils_adu(1, 1, 0, 2001), Err(MbusError::InvalidPduLength));
}

#[test]
fn tcp_config_host_limit() {
    let cfg = ModbusTcpConfig::new("192.168.100.200", 502);
    assert_eq!(cfg.host.as_str(), "192.168.100.200");
    assert_eq!(cfg.port, 502);
    let long = ModbusTcpConfig::new("a-very-long-hostname.example", 1502);
    assert_eq!(long.host.as_str(), "");
    assert_eq!(long.port, 1502);
}

fn pending(txn_id: u16, unit_id: u8, from_address: u16, expected_quantity: u16, single_read: bool) -> ExpectedResponse {
    ExpectedResponse { txn_id, unit_id, expected_quantity, from_address, single_read }
}

#[test]
fn delivery_of_read_coils_response() {
    let table = [pending(9, 9, 0, 1, false), pending(1, 1, 0, 8, false)];
    let frame = [0x00, 0x01, 0x00, 0x00, 0x00, 0x04, 0x01, 0x01, 0x01, 0xB3];
    match coil_delivery(&table, &frame) {
        (Some(1), CoilDelivery::Coils { txn_id, unit_id, coils, quantity }) => {
            assert_eq!((txn_id, unit_id, quantity), (1, 1, 8));
            assert_eq!(coils.from_address(), 0);
            assert_eq!(coils.quantity(), 8);
            assert_eq!(coils.values(), &[0xB3]);
        }
        _ => panic!("expected a coils delivery"),
    }
    // A byte count that does not match consumes the request but runs nothing.
    let bad = [0x00, 0x01, 0x00, 0x00, 0x00, 0x05, 0x01, 0x01, 0x01, 0xB3, 0x00];
    assert!(matches!(coil_delivery(&table, &bad), (Some(1), CoilDelivery::Nothing)));
    // Unknown ids and other function codes run nothing and consume nothing.
    let unknown = [0x00, 0x07, 0x00, 0x00, 0x00, 0x04, 0x01, 0x01, 0x01, 0xB3];
    assert!(matches!(coil_delivery(&table, &unknown), (None, CoilDelivery::Nothing)));
    let other = [0x00, 0x01, 0x00, 0x00, 0x00, 0x04, 0x01, 0x03, 0x01, 0xB3];
    assert!(matches!(coil_delivery(&table, &other), (None, CoilDelivery::Nothing)));
}

#[test]
fn delivery_of_single_coil_response() {
    let table = [pending(2, 0, 1, 1, true)];
    let frame = [0x00, 0x02, 0x00, 0x00, 0x00, 0x04, 0x00, 0x01, 0x01, 0x01];
    assert!(matches!(
        coil_delivery(&table, &frame),
        (Some(0), CoilDelivery::SingleCoil { txn_id: 2, unit_id: 0, address: 1, value: true })
    ));
    let off = [0x00, 0x02, 0x00, 0x00, 0x00, 0x04, 0x00, 0x01, 0x01, 0x00];
    assert!(matches!(
        coil_delivery(&table, &off),
        (Some(0), CoilDelivery::SingleCoil { txn_id: 2, unit_id: 0, address: 1, value: false })
    ));
}
