use modbus_rs::client::coils::ModbusCoilService;
use modbus_rs::data_unit::{
    decode_transport_frame, u16_from_be, u16_to_be, AdditionalAddress, MbapHeader, ModbusMessage, Pdu,
};
use modbus_rs::errors::MbusError;
use modbus_rs::ffi::config::{map_backoff, map_jitter, serial_mode_from_c, MbusBackoffStrategy, MbusSerialMode};
use modbus_rs::ffi::models::{MbusCoils, MbusDiscreteInputs, MbusRegisters};
use modbus_rs::function_codes::FunctionCode;
use modbus_rs::models::coil::Coils;
use modbus_rs::models::discrete_input::DiscreteInputs;
use modbus_rs::models::register::Registers;
use modbus_rs::server::{
    check_read_discrete_inputs_reply, frame_length_check, is_connection_loss, packed_bit_len, read_discrete_inputs_window,
    route_request, server_ingest_tcp, ServedFunctions, ServerRoute, ServerRxBuffer,
};
use modbus_rs::tcp_framing::{mbap_adu_len, TcpFrameBuffer};
use modbus_rs::transport::{
    async_map_io_error, serial_map_io_error, tcp_map_io_error, BackoffStrategy, IoErrorKind, JitterStrategy,
    ModbusTcpTransportError, SerialMode, TransportError, TransportType,
};

#[test]
fn function_code_bytes_roundtrip() {
    assert_eq!(FunctionCode::ReadCoils.to_u8(), 0x01);
    assert_eq!(FunctionCode::WriteMultipleCoils.to_u8(), 0x0F);
    assert_eq!(FunctionCode::EncapsulatedInterfaceTransport.to_u8(), 0x2B);
    assert_eq!(FunctionCode::from_u8(0x10), Some(FunctionCode::WriteMultipleRegisters));
    assert_eq!(FunctionCode::from_u8(0x09), None);
    for b in 0u8..=255 {
        if let Some(fc) = FunctionCode::from_u8(b) {
            assert_eq!(fc.to_u8(), b);
        }
    }
}

#[test]
fn big_endian_helpers() {
    assert_eq!(u16_to_be(0x1234), (0x12, 0x34));
    assert_eq!(u16_from_be(0xAB, 0xCD), 0xABCD);
    assert_eq!(u16_from_be(u16_to_be(0xFF00).0, u16_to_be(0xFF00).1), 0xFF00);
}

#[test]
fn pdu_from_bytes_errors() {
    assert_eq!(Pdu::from_bytes(&[]).unwrap_err(), MbusError::InvalidPduLength);
    assert_eq!(Pdu::from_bytes(&[0x09, 0x00]).unwrap_err(), MbusError::UnsupportedFunction(0x09));
    let too_long = [0x01u8; 254];
    assert_eq!(Pdu::from_bytes(&too_long).unwrap_err(), MbusError::InvalidPduLength);
    let longest = [0x01u8; 253];
    assert_eq!(Pdu::from_bytes(&longest).unwrap().data_len(), 252);
}

#[test]
fn pdu_bytes_roundtrip() {
    let pdu = ModbusCoilService::write_single_coil_request(0x0102, true).unwrap();
    let bytes = pdu.to_bytes();
    assert_eq!(bytes, vec![0x05, 0x01, 0x02, 0xFF, 0x00]);
    let back = Pdu::from_bytes(&bytes).unwrap();
    assert_eq!(back.function_code(), FunctionCode::WriteSingleCoil);
    assert_eq!(back.payload(), pdu.payload());
}

#[test]
fn adu_bytes_roundtrip() {
    let pdu = ModbusCoilService::read_coils_request(1, 1).unwrap();
    let header = MbapHeader::new(2, 6, 0);
    let msg = ModbusMessage::new(AdditionalAddress::MbapHeader(header), pdu);
    let bytes = msg.to_bytes();
    assert_eq!(bytes, vec![0x00, 0x02, 0x00, 0x00, 0x00, 0x06, 0x00, 0x01, 0x00, 0x01, 0x00, 0x01]);
    let back = ModbusMessage::from_adu_bytes(&bytes).unwrap();
    let AdditionalAddress::MbapHeader(h) = back.additional_address;
    assert_eq!(h, header);
    assert_eq!(back.pdu.payload(), pdu.payload());
}

#[test]
fn adu_from_bytes_errors() {
    assert_eq!(ModbusMessage::from_adu_bytes(&[0, 1, 0, 0, 0, 2, 1]).unwrap_err(), MbusError::InvalidPduLength);
    assert_eq!(
        ModbusMessage::from_adu_bytes(&[0, 1, 0, 1, 0, 2, 1, 0x01]).unwrap_err(),
        MbusError::ParseError
    );
    assert_eq!(
        ModbusMessage::from_adu_bytes(&[0, 1, 0, 0, 0, 3, 1, 0x01]).unwrap_err(),
        MbusError::BufferLenMissmatch
    );
    assert_eq!(
        ModbusMessage::from_adu_bytes(&[0, 1, 0, 0, 0, 2, 1, 0x09]).unwrap_err(),
        MbusError::UnsupportedFunction(0x09)
    );
}

#[test]
fn decode_read_coils_response_frame() {
    let frame = [0x00, 0x02, 0x00, 0x00, 0x00, 0x04, 0x00, 0x01, 0x01, 0x01];
    let msg = decode_transport_frame(&frame, TransportType::StdTcp).expect("frame decodes");
    let AdditionalAddress::MbapHeader(h) = msg.additional_address;
    assert_eq!(h.transaction_id, 2);
    assert_eq!(h.unit_id, 0);
    let coils = ModbusCoilService::parse_read_coils_response(&msg.pdu, 1).unwrap();
    assert_eq!(coils.len(), 1);
    assert_eq!(coils[0], true);
    assert!(decode_transport_frame(&frame[..9], TransportType::CustomTcp).is_none());
}

#[test]
fn read_coils_response_over_capacity() {
    // 2008 coils need 251 bytes; the parsed states do not fit in 2000.
    let mut bytes = vec![0x01u8, 251];
    bytes.extend_from_slice(&[0xFF; 251]);
    let pdu = Pdu::from_bytes(&bytes).unwrap();
    assert_eq!(ModbusCoilService::parse_read_coils_response(&pdu, 2008).unwrap_err(), MbusError::BufferTooSmall);
}

#[test]
fn write_multiple_then_read_back_packing() {
    let values = [true, true, false, true, false, false, false, true, true];
    let req = ModbusCoilService::write_multiple_coils_request(7, 9, &values).unwrap();
    let payload = req.payload();
    let mut response = vec![0x01u8];
    response.extend_from_slice(&payload[4..]);
    let resp = Pdu::from_bytes(&response).unwrap();
    let parsed = ModbusCoilService::parse_read_coils_response(&resp, 9).unwrap();
    assert_eq!(parsed.as_slice(), &values);
}

#[test]
fn write_single_coil_echo_is_accepted() {
    let req = ModbusCoilService::write_single_coil_request(0x00AC, false).unwrap();
    assert_eq!(ModbusCoilService::parse_write_single_coil_response(&req, 0x00AC, false), Ok(()));
    assert_eq!(
        ModbusCoilService::parse_write_single_coil_response(&req, 0x00AC, true),
        Err(MbusError::ParseError)
    );
}

#[test]
fn transport_errors_convert() {
    assert_eq!(MbusError::from(TransportError::Timeout), MbusError::Timeout);
    assert_eq!(MbusError::from(TransportError::ConnectionClosed), MbusError::ConnectionClosed);
    assert_eq!(MbusError::from(ModbusTcpTransportError::BufferTooSmall), MbusError::BufferTooSmall);
    assert_eq!(MbusError::from(ModbusTcpTransportError::Unexpected), MbusError::Unexpected);
    assert_eq!(TransportError::IoError.description(), "I/O error");
    assert_eq!(TransportError::Unexpected.description(), "An unexpected error occurred");
}

#[test]
fn io_error_kinds_map() {
    assert_eq!(tcp_map_io_error(IoErrorKind::ConnectionRefused), ModbusTcpTransportError::ConnectionFailed);
    assert_eq!(tcp_map_io_error(IoErrorKind::NotFound), ModbusTcpTransportError::ConnectionFailed);
    assert_eq!(tcp_map_io_error(IoErrorKind::BrokenPipe), ModbusTcpTransportError::ConnectionClosed);
    assert_eq!(tcp_map_io_error(IoErrorKind::ConnectionReset), ModbusTcpTransportError::ConnectionClosed);
    assert_eq!(tcp_map_io_error(IoErrorKind::UnexpectedEof), ModbusTcpTransportError::ConnectionClosed);
    assert_eq!(tcp_map_io_error(IoErrorKind::WouldBlock), ModbusTcpTransportError::Timeout);
    assert_eq!(tcp_map_io_error(IoErrorKind::TimedOut), ModbusTcpTransportError::Timeout);
    assert_eq!(tcp_map_io_error(IoErrorKind::Other), ModbusTcpTransportError::IoError);
    assert_eq!(serial_map_io_error(IoErrorKind::TimedOut), TransportError::Timeout);
    assert_eq!(serial_map_io_error(IoErrorKind::WouldBlock), TransportError::IoError);
    assert_eq!(async_map_io_error(IoErrorKind::ConnectionAborted), MbusError::ConnectionClosed);
    assert_eq!(tcp_map_io_error(IoErrorKind::ConnectionAborted), ModbusTcpTransportError::IoError);
}

#[test]
fn mbap_length_field() {
    assert_eq!(mbap_adu_len(&[0, 2, 0, 0, 0, 6, 0]), Ok(12));
    assert_eq!(mbap_adu_len(&[0, 2, 0, 0, 0, 254, 0]), Ok(260));
    assert_eq!(mbap_adu_len(&[0, 2, 0, 0, 0, 255, 0]), Err(ModbusTcpTransportError::BufferTooSmall));
}

#[test]
fn frame_buffer_cuts_frames() {
    let mut buf = TcpFrameBuffer::new();
    assert_eq!(buf.take_frame(), Ok(None));
    let frame = [0x00, 0x02, 0x00, 0x00, 0x00, 0x04, 0x00, 0x01, 0x01, 0x01];
    assert_eq!(buf.push_bytes(&frame[..4]), Ok(()));
    assert_eq!(buf.take_frame(), Ok(None));
    assert_eq!(buf.push_bytes(&frame[4..]), Ok(()));
    assert_eq!(buf.push_bytes(&frame[..3]), Ok(()));
    assert_eq!(buf.take_frame(), Ok(Some(frame.to_vec())));
    assert_eq!(buf.len(), 3);
    assert_eq!(buf.take_frame(), Ok(None));
}

#[test]
fn frame_buffer_errors() {
    let mut buf = TcpFrameBuffer::new();
    assert_eq!(buf.push_bytes(&[0, 1, 0, 0, 0, 0, 7]), Ok(()));
    assert_eq!(buf.take_frame(), Err(MbusError::InvalidDataLen));
    assert_eq!(buf.len(), 0);
    assert_eq!(buf.push_bytes(&[0, 1, 0, 0, 0x01, 0x00]), Ok(()));
    assert_eq!(buf.take_frame(), Err(MbusError::BufferTooSmall));
    assert_eq!(buf.len(), 0);
    assert_eq!(buf.push_bytes(&[0u8; 520]), Ok(()));
    assert_eq!(buf.push_bytes(&[0u8; 1]), Err(MbusError::BufferTooSmall));
    assert_eq!(buf.len(), 0);
}

#[test]
fn ffi_config_mappings() {
    assert_eq!(map_backoff(MbusBackoffStrategy::MbusBackoffImmediate, 5, 9), BackoffStrategy::Immediate);
    assert_eq!(map_backoff(MbusBackoffStrategy::MbusBackoffFixed, 5, 9), BackoffStrategy::Fixed { delay_ms: 5 });
    assert_eq!(
        map_backoff(MbusBackoffStrategy::MbusBackoffExponential, 5, 9),
        BackoffStrategy::Exponential { base_delay_ms: 5, max_delay_ms: 9 }
    );
    assert_eq!(
        map_backoff(MbusBackoffStrategy::MbusBackoffLinear, 5, 9),
        BackoffStrategy::Linear { initial_delay_ms: 5, increment_ms: 5, max_delay_ms: 9 }
    );
    assert_eq!(map_jitter(0), JitterStrategy::Disabled);
    assert_eq!(map_jitter(20), JitterStrategy::Percentage { percent: 20 });
    assert_eq!(serial_mode_from_c(MbusSerialMode::MbusSerialRtu), SerialMode::Rtu);
    assert_eq!(serial_mode_from_c(MbusSerialMode::MbusSerialAscii), SerialMode::Ascii);
}

#[test]
fn ffi_handles_wrap_models() {
    let coils = MbusCoils(Coils::new(3, 4).unwrap());
    assert_eq!(coils.inner().from_address(), 3);
    let inputs = MbusDiscreteInputs::new(DiscreteInputs::new(8, 9).unwrap());
    assert_eq!(inputs.inner().quantity(), 9);
    let regs = MbusRegisters::new(Registers::new(1, 2).unwrap());
    assert_eq!(regs.inner().quantity(), 2);
}

#[test]
fn server_read_discrete_inputs_decisions() {
    assert_eq!(packed_bit_len(1), 1);
    assert_eq!(packed_bit_len(8), 1);
    assert_eq!(packed_bit_len(9), 2);
    assert_eq!(packed_bit_len(2000), 250);
    assert_eq!(read_discrete_inputs_window(0, 0), Err(MbusError::InvalidQuantity));
    assert_eq!(read_discrete_inputs_window(0, 2001), Err(MbusError::InvalidQuantity));
    assert_eq!(read_discrete_inputs_window(65535, 2), Err(MbusError::InvalidAddress));
    assert_eq!(read_discrete_inputs_window(65535, 1), Ok(1));
    assert_eq!(read_discrete_inputs_window(10, 17), Ok(3));
    assert_eq!(check_read_discrete_inputs_reply(3, 3, 252), Ok(()));
    assert_eq!(check_read_discrete_inputs_reply(2, 3, 252), Err(MbusError::InvalidByteCount));
    assert_eq!(check_read_discrete_inputs_reply(3, 3, 2), Err(MbusError::InvalidByteCount));
}

#[test]
fn server_rx_buffer_steps() {
    let mut rx = ServerRxBuffer::new();
    rx.append(&[1, 2, 3, 4, 5]);
    assert_eq!(rx.as_slice(), &[1, 2, 3, 4, 5]);
    assert!(!rx.after_ingest(Err(MbusError::BufferTooSmall)));
    assert_eq!(rx.as_slice(), &[1, 2, 3, 4, 5]);
    assert!(rx.after_ingest(Err(MbusError::ParseError)));
    assert_eq!(rx.as_slice(), &[2, 3, 4, 5]);
    assert!(rx.after_ingest(Ok(3)));
    assert_eq!(rx.as_slice(), &[5]);
    assert!(!rx.after_ingest(Ok(9)));
    assert_eq!(rx.as_slice(), &[] as &[u8]);
    rx.append(&[0u8; 260]);
    assert_eq!(rx.as_slice().len(), 260);
    rx.append(&[1]);
    assert_eq!(rx.as_slice().len(), 0);
}

fn io_kind(err: &std::io::Error) -> IoErrorKind {
    match err.kind() {
        std::io::ErrorKind::ConnectionRefused => IoErrorKind::ConnectionRefused,
        std::io::ErrorKind::NotFound => IoErrorKind::NotFound,
        std::io::ErrorKind::BrokenPipe => IoErrorKind::BrokenPipe,
        std::io::ErrorKind::ConnectionReset => IoErrorKind::ConnectionReset,
        std::io::ErrorKind::ConnectionAborted => IoErrorKind::ConnectionAborted,
        std::io::ErrorKind::UnexpectedEof => IoErrorKind::UnexpectedEof,
        std::io::ErrorKind::WouldBlock => IoErrorKind::WouldBlock,
        std::io::ErrorKind::TimedOut => IoErrorKind::TimedOut,
        _ => IoErrorKind::Other,
    }
}

fn map_io_error(err: std::io::Error) -> ModbusTcpTransportError {
    tcp_map_io_error(io_kind(&err))
}

#[test]
fn test_map_io_error() {
    let err = std::io::Error::new(std::io::ErrorKind::ConnectionRefused, "test");
    assert_eq!(map_io_error(err), ModbusTcpTransportError::ConnectionFailed);

    let err = std::io::Error::new(std::io::ErrorKind::NotFound, "test");
    assert_eq!(map_io_error(err), ModbusTcpTransportError::ConnectionFailed);

    let err = std::io::Error::new(std::io::ErrorKind::BrokenPipe, "test");
    assert_eq!(map_io_error(err), ModbusTcpTransportError::ConnectionClosed);

    let err = std::io::Error::new(std::io::ErrorKind::ConnectionReset, "test");
    assert_eq!(map_io_error(err), ModbusTcpTransportError::ConnectionClosed);

    let err = std::io::Error::new(std::io::ErrorKind::UnexpectedEof, "test");
    assert_eq!(map_io_error(err), ModbusTcpTransportError::ConnectionClosed);

    let err = std::io::Error::new(std::io::ErrorKind::WouldBlock, "test");
    assert_eq!(map_io_error(err), ModbusTcpTransportError::Timeout);

    let err = std::io::Error::new(std::io::ErrorKind::TimedOut, "test");
    assert_eq!(map_io_error(err), ModbusTcpTransportError::Timeout);

    let err = std::io::Error::new(std::io::ErrorKind::PermissionDenied, "test");
    assert_eq!(map_io_error(err), ModbusTcpTransportError::IoError);
}

#[test]
fn server_routes_requests() {
    let all = ServedFunctions { coils: true, holding_registers: true, input_registers: true, discrete_inputs: true };
    let none = ServedFunctions { coils: false, holding_registers: false, input_registers: false, discrete_inputs: false };
    assert_eq!(route_request(1, 2, FunctionCode::ReadCoils, all), ServerRoute::Ignore);
    assert_eq!(route_request(1, 0, FunctionCode::ReadCoils, all), ServerRoute::Ignore);
    assert_eq!(route_request(1, 1, FunctionCode::ReadCoils, all), ServerRoute::Handle(FunctionCode::ReadCoils));
    assert_eq!(route_request(1, 1, FunctionCode::ReadCoils, none), ServerRoute::Reject(FunctionCode::ReadCoils));
    assert_eq!(
        route_request(7, 7, FunctionCode::WriteMultipleRegisters, all),
        ServerRoute::Handle(FunctionCode::WriteMultipleRegisters)
    );
    assert_eq!(
        route_request(7, 7, FunctionCode::ReadDiscreteInputs, all),
        ServerRoute::Handle(FunctionCode::ReadDiscreteInputs)
    );
    assert_eq!(
        route_request(7, 7, FunctionCode::ReadDiscreteInputs, none),
        ServerRoute::Reject(FunctionCode::ReadDiscreteInputs)
    );
    assert_eq!(route_request(7, 7, FunctionCode::ReadFifoQueue, all), ServerRoute::Reject(FunctionCode::ReadFifoQueue));
}

#[test]
fn server_recv_errors_and_frame_lengths() {
    assert!(is_connection_loss(MbusError::ConnectionClosed, true));
    assert!(is_connection_loss(MbusError::IoError, true));
    assert!(!is_connection_loss(MbusError::Timeout, true));
    assert!(is_connection_loss(MbusError::Timeout, false));
    assert_eq!(frame_length_check(None, 10), Err(MbusError::BufferTooSmall));
    assert_eq!(frame_length_check(Some(261), 300), Err(MbusError::BasicParseError));
    assert_eq!(frame_length_check(Some(12), 11), Err(MbusError::BufferTooSmall));
    assert_eq!(frame_length_check(Some(12), 20), Ok(12));
    let mut buf = ServerRxBuffer::new();
    buf.append(&[1, 2, 3]);
    buf.clear();
    assert_eq!(buf.as_slice(), &[] as &[u8]);
}

#[test]
fn frame_buffer_stream_in_odd_chunks() {
    let f1 = [0x00, 0x01, 0x00, 0x00, 0x00, 0x03, 0x01, 0x05, 0x00];
    let f2 = [0x00, 0x02, 0x00, 0x00, 0x00, 0x04, 0x00, 0x01, 0x01, 0x01];
    let f3 = [0x00, 0x03, 0x00, 0x00, 0x00, 0x02, 0x07, 0x81];
    let stream: Vec<u8> = f1.iter().chain(f2.iter()).chain(f3.iter()).copied().collect();
    let mut buf = TcpFrameBuffer::new();
    let mut got: Vec<Vec<u8>> = Vec::new();
    for chunk in stream.chunks(5) {
        assert_eq!(buf.push_bytes(chunk), Ok(()));
        while let Ok(Some(frame)) = buf.take_frame() {
            got.push(frame);
        }
    }
    assert_eq!(got, vec![f1.to_vec(), f2.to_vec(), f3.to_vec()]);
    assert_eq!(buf.len(), 0);
}

#[test]
fn serial_port_params_checks_mode_and_stop_bits() {
    let mut s = modbus_rs::serial_config::serial_settings("rtu", "odd", 7, 2, 19200).unwrap();
    let p = modbus_rs::serial_config::serial_port_params(SerialMode::Rtu, s).unwrap();
    assert_eq!((p.baud_rate, p.data_bits, p.stop_bits), (19200, 7, 2));
    assert_eq!(p.parity, modbus_rs::serial_config::Parity::Odd);
    assert_eq!(
        modbus_rs::serial_config::serial_port_params(SerialMode::Ascii, s),
        Err(TransportError::InvalidConfiguration)
    );
    s.stop_bits = 3;
    assert_eq!(
        modbus_rs::serial_config::serial_port_params(SerialMode::Rtu, s),
        Err(TransportError::InvalidConfiguration)
    );
    assert_eq!(TransportError::InvalidConfiguration.description(), "Invalid configuration");
    assert_eq!(MbusError::from(TransportError::InvalidConfiguration), MbusError::InvalidConfiguration);
}

#[test]
fn server_takes_requests_from_buffered_bytes() {
    let all = ServedFunctions { coils: true, holding_registers: true, input_registers: true, discrete_inputs: true };
    let request = [0x00, 0x01, 0x00, 0x00, 0x00, 0x06, 0x01, 0x02, 0x00, 0x00, 0x00, 0x08];

    let (result, found) = server_ingest_tcp(&request, 1, all);
    assert_eq!(result, Ok(12));
    let (message, route) = found.unwrap();
    assert_eq!(route, ServerRoute::Handle(FunctionCode::ReadDiscreteInputs));
    assert_eq!(message.pdu.function_code(), FunctionCode::ReadDiscreteInputs);
    let (result, found) = server_ingest_tcp(&request, 9, all);
    assert_eq!(result, Ok(12));
    assert_eq!(found.unwrap().1, ServerRoute::Ignore);
    let (result, found) = server_ingest_tcp(&request[..8], 1, all);
    assert_eq!(result, Err(MbusError::BufferTooSmall));
    assert!(found.is_none());

    // A stray byte, a complete request, then the start of the next one.
    let mut rx = ServerRxBuffer::new();
    rx.append(&[0xFF]);
    rx.append(&request);
    rx.append(&[0x00, 0x02, 0x00]);
    let (message, route) = rx.next_request(1, all).unwrap();
    assert_eq!(route, ServerRoute::Handle(FunctionCode::ReadDiscreteInputs));
    let AdditionalAddress::MbapHeader(h) = message.additional_address;
    assert_eq!((h.transaction_id, h.unit_id), (1, 1));
    assert_eq!(rx.as_slice(), &[0x00, 0x02, 0x00]);
    assert!(rx.next_request(1, all).is_none());
    assert_eq!(rx.as_slice(), &[0x00, 0x02, 0x00]);
}
