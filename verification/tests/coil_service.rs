use modbus_rs::client::coils::{Coils, ModbusCoilService};
use modbus_rs::data_unit::{AdditionalAddress, Data, Pdu};
use modbus_rs::errors::MbusError;
use modbus_rs::function_codes::FunctionCode;
use modbus_rs::transport::TransportType;

// --- Read Coils Request Tests ---

#[test]
fn test_read_coils_request_valid() {
    let address = 0x0001;
    let quantity = 0x000A; // 10 coils
    let pdu = ModbusCoilService::read_coils_request(address, quantity).unwrap();

    assert_eq!(pdu.function_code(), FunctionCode::ReadCoils);
    assert_eq!(pdu.data_len(), 4);
    let Data::Bytes(data) = pdu.data();
    assert_eq!(&data[0..4], &[0x00, 0x01, 0x00, 0x0A]);
}

#[test]
fn test_read_coils_request_invalid_quantity_low() {
    let result = ModbusCoilService::read_coils_request(0x0001, 0);
    assert_eq!(result.unwrap_err(), MbusError::InvalidPduLength);
}

#[test]
fn test_read_coils_request_invalid_quantity_high() {
    let result = ModbusCoilService::read_coils_request(0x0001, 2001);
    assert_eq!(result.unwrap_err(), MbusError::InvalidPduLength);
}

// --- Parse Read Coils Response Tests ---

#[test]
fn test_parse_read_coils_response_valid() {
    // Response for reading 8 coils, values: 10110011 (0xB3)
    let response_bytes = [0x01, 0x01, 0xB3]; // FC, Byte Count, Coil Data
    let pdu = Pdu::from_bytes(&response_bytes).unwrap();
    let coils = ModbusCoilService::parse_read_coils_response(&pdu, 8).unwrap();

    assert_eq!(coils.len(), 8);
    assert_eq!(coils[0], true);
    assert_eq!(coils[1], true);
    assert_eq!(coils[2], false);
    assert_eq!(coils[3], false);
    assert_eq!(coils[4], true);
    assert_eq!(coils[5], true);
    assert_eq!(coils[6], false);
    assert_eq!(coils[7], true);
}

#[test]
fn test_parse_read_coils_response_multiple_bytes() {
    // Response for reading 10 coils, values: 10110011 (0xB3), 00000011 (0x03)
    let response_bytes = [0x01, 0x02, 0xB3, 0x03];
    let pdu = Pdu::from_bytes(&response_bytes).unwrap();
    let coils = ModbusCoilService::parse_read_coils_response(&pdu, 10).unwrap();

    assert_eq!(coils.len(), 10);
    assert_eq!(coils[0], true);
    assert_eq!(coils[1], true);
    assert_eq!(coils[2], false);
    assert_eq!(coils[3], false);
    assert_eq!(coils[4], true);
    assert_eq!(coils[5], true);
    assert_eq!(coils[6], false);
    assert_eq!(coils[7], true);
    assert_eq!(coils[8], true);
    assert_eq!(coils[9], true);
}

#[test]
fn test_parse_read_coils_response_wrong_fc() {
    let response_bytes = [0x03, 0x01, 0xB3]; // Wrong FC (Read Holding Registers)
    let pdu = Pdu::from_bytes(&response_bytes).unwrap();
    let result = ModbusCoilService::parse_read_coils_response(&pdu, 8);
    assert_eq!(result.unwrap_err(), MbusError::ParseError);
}

#[test]
fn test_parse_read_coils_response_empty_data() {
    let response_bytes = [0x01]; // Only FC
    let pdu = Pdu::from_bytes(&response_bytes).unwrap();
    let result = ModbusCoilService::parse_read_coils_response(&pdu, 8);
    assert_eq!(result.unwrap_err(), MbusError::InvalidPduLength);
}

#[test]
fn test_parse_read_coils_response_byte_count_mismatch() {
    // Response indicates 1 byte of data, but provides 2
    let response_bytes = [0x01, 0x01, 0xB3, 0x00];
    let pdu = Pdu::from_bytes(&response_bytes).unwrap();
    let result = ModbusCoilService::parse_read_coils_response(&pdu, 8);
    assert_eq!(result.unwrap_err(), MbusError::InvalidPduLength);
}

#[test]
fn test_parse_read_coils_response_expected_quantity_mismatch() {
    // Response for 8 coils (1 byte data), but expected 16 coils (2 bytes data)
    let response_bytes = [0x01, 0x01, 0xB3];
    let pdu = Pdu::from_bytes(&response_bytes).unwrap();
    let result = ModbusCoilService::parse_read_coils_response(&pdu, 16);
    assert_eq!(result.unwrap_err(), MbusError::ParseError);
}

// --- Write Single Coil Request Tests ---

#[test]
fn test_write_single_coil_request_on() {
    let address = 0x0005;
    let value = true;
    let pdu = ModbusCoilService::write_single_coil_request(address, value).unwrap();

    assert_eq!(pdu.function_code(), FunctionCode::WriteSingleCoil);
    assert_eq!(pdu.data_len(), 4);
    let Data::Bytes(data) = pdu.data();
    assert_eq!(&data[0..4], &[0x00, 0x05, 0xFF, 0x00]);
}

#[test]
fn test_write_single_coil_request_off() {
    let address = 0x0005;
    let value = false;
    let pdu = ModbusCoilService::write_single_coil_request(address, value).unwrap();

    assert_eq!(pdu.function_code(), FunctionCode::WriteSingleCoil);
    assert_eq!(pdu.data_len(), 4);
    let Data::Bytes(data) = pdu.data();
    assert_eq!(&data[0..4], &[0x00, 0x05, 0x00, 0x00]);
}

// --- Parse Write Single Coil Response Tests ---

#[test]
fn test_parse_write_single_coil_response_valid() {
    let response_bytes = [0x05, 0x00, 0x05, 0xFF, 0x00];
    let pdu = Pdu::from_bytes(&response_bytes).unwrap();
    let result = ModbusCoilService::parse_write_single_coil_response(&pdu, 0x0005, true);
    assert!(result.is_ok());
}

#[test]
fn test_parse_write_single_coil_response_wrong_fc() {
    let response_bytes = [0x03, 0x00, 0x05, 0xFF, 0x00];
    let pdu = Pdu::from_bytes(&response_bytes).unwrap();
    let result = ModbusCoilService::parse_write_single_coil_response(&pdu, 0x0005, true);
    assert_eq!(result.unwrap_err(), MbusError::ParseError);
}

#[test]
fn test_parse_write_single_coil_response_address_mismatch() {
    let response_bytes = [0x05, 0x00, 0x06, 0xFF, 0x00];
    let pdu = Pdu::from_bytes(&response_bytes).unwrap();
    let result = ModbusCoilService::parse_write_single_coil_response(&pdu, 0x0005, true);
    assert_eq!(result.unwrap_err(), MbusError::ParseError);
}

#[test]
fn test_parse_write_single_coil_response_value_mismatch() {
    let response_bytes = [0x05, 0x00, 0x05, 0x00, 0x00];
    let pdu = Pdu::from_bytes(&response_bytes).unwrap();
    let result = ModbusCoilService::parse_write_single_coil_response(&pdu, 0x0005, true);
    assert_eq!(result.unwrap_err(), MbusError::ParseError);
}

#[test]
fn test_parse_write_single_coil_response_invalid_len() {
    let response_bytes = [0x05, 0x00, 0x05, 0xFF];
    let pdu = Pdu::from_bytes(&response_bytes).unwrap();
    let result = ModbusCoilService::parse_write_single_coil_response(&pdu, 0x0005, true);
    assert_eq!(result.unwrap_err(), MbusError::InvalidPduLength);
}

// --- Write Multiple Coils Request Tests ---

#[test]
fn test_write_multiple_coils_request_valid() {
    let address = 0x0001;
    let quantity = 10;
    let values = [true, false, true, false, true, false, true, false, true, false];
    let pdu = ModbusCoilService::write_multiple_coils_request(address, quantity, &values).unwrap();

    assert_eq!(pdu.function_code(), FunctionCode::WriteMultipleCoils);
    assert_eq!(pdu.data_len(), 5 + 2);
    let Data::Bytes(data) = pdu.data();
    assert_eq!(&data[0..7], &[0x00, 0x01, 0x00, 0x0A, 0x02, 0x55, 0x01]);
}

#[test]
fn test_write_multiple_coils_request_invalid_quantity_low() {
    let values = [true];
    let result = ModbusCoilService::write_multiple_coils_request(0x0001, 0, &values);
    assert_eq!(result.unwrap_err(), MbusError::InvalidPduLength);
}

#[test]
fn test_write_multiple_coils_request_invalid_quantity_high() {
    let values = [true; 1969];
    let result = ModbusCoilService::write_multiple_coils_request(0x0001, 1969, &values);
    assert_eq!(result.unwrap_err(), MbusError::InvalidPduLength);
}

#[test]
fn test_write_multiple_coils_request_quantity_values_mismatch() {
    let values = [true, false];
    let result = ModbusCoilService::write_multiple_coils_request(0x0001, 3, &values);
    assert_eq!(result.unwrap_err(), MbusError::InvalidPduLength);
}

// --- Parse Write Multiple Coils Response Tests ---

#[test]
fn test_parse_write_multiple_coils_response_valid() {
    let response_bytes = [0x0F, 0x00, 0x01, 0x00, 0x0A];
    let pdu = Pdu::from_bytes(&response_bytes).unwrap();
    let result = ModbusCoilService::parse_write_multiple_coils_response(&pdu, 0x0001, 10);
    assert!(result.is_ok());
}

#[test]
fn test_parse_write_multiple_coils_response_wrong_fc() {
    let response_bytes = [0x03, 0x00, 0x01, 0x00, 0x0A];
    let pdu = Pdu::from_bytes(&response_bytes).unwrap();
    let result = ModbusCoilService::parse_write_multiple_coils_response(&pdu, 0x0001, 10);
    assert_eq!(result.unwrap_err(), MbusError::ParseError);
}

#[test]
fn test_parse_write_multiple_coils_response_address_mismatch() {
    let response_bytes = [0x0F, 0x00, 0x02, 0x00, 0x0A];
    let pdu = Pdu::from_bytes(&response_bytes).unwrap();
    let result = ModbusCoilService::parse_write_multiple_coils_response(&pdu, 0x0001, 10);
    assert_eq!(result.unwrap_err(), MbusError::ParseError);
}

#[test]
fn test_parse_write_multiple_coils_response_quantity_mismatch() {
    let response_bytes = [0x0F, 0x00, 0x01, 0x00, 0x0B];
    let pdu = Pdu::from_bytes(&response_bytes).unwrap();
    let result = ModbusCoilService::parse_write_multiple_coils_response(&pdu, 0x0001, 10);
    assert_eq!(result.unwrap_err(), MbusError::ParseError);
}

#[test]
fn test_parse_write_multiple_coils_response_invalid_len() {
    let response_bytes = [0x0F, 0x00, 0x01, 0x00];
    let pdu = Pdu::from_bytes(&response_bytes).unwrap();
    let result = ModbusCoilService::parse_write_multiple_coils_response(&pdu, 0x0001, 10);
    assert_eq!(result.unwrap_err(), MbusError::InvalidPduLength);
}

// --- Tests for Coils::read_multiple ---

#[test]
fn test_read_multiple_tcp_valid() {
    let coils_service = Coils::new();
    let txn_id = 0x1234;
    let unit_id = 0x01;
    let address = 0x0001;
    let quantity = 0x000A;

    let modbus_message = coils_service
        .read_multiple(txn_id, unit_id, address, quantity, TransportType::StdTcp)
        .expect("Should successfully create ModbusMessage");

    let AdditionalAddress::MbapHeader(header) = modbus_message.additional_address;
    assert_eq!(header.transaction_id, txn_id);
    assert_eq!(header.protocol_id, 0);
    assert_eq!(header.length, 5);
    assert_eq!(header.unit_id, unit_id);

    assert_eq!(modbus_message.pdu.function_code(), FunctionCode::ReadCoils);
    assert_eq!(modbus_message.pdu.data_len(), 4);
    let Data::Bytes(data) = modbus_message.pdu.data();
    assert_eq!(&data[0..4], &[0x00, 0x01, 0x00, 0x0A]);
}

#[test]
fn test_read_multiple_invalid_quantity() {
    let coils_service = Coils::new();
    let result = coils_service.read_multiple(0x1234, 0x01, 0x0001, 0, TransportType::StdTcp);
    assert_eq!(result.unwrap_err(), MbusError::InvalidPduLength);
}

#[test]
fn write_multiple_coils_long_value_list_is_refused() {
    let values = vec![true; 65537];
    assert_eq!(
        ModbusCoilService::write_multiple_coils_request(0, 1, &values).unwrap_err(),
        MbusError::InvalidPduLength
    );
}
