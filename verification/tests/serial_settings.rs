use modbus_rs::ffi::txn::TxnCounter;
use modbus_rs::serial_config::{
    baud_rate_from_u32, baud_rate_value, data_bits_from_u8, parity_from_name, serial_mode_from_name,
    serial_settings, BaudRate, DataBits, Parity, SerialSettingsError,
};
use modbus_rs::transport::SerialMode;

#[test]
fn serial_mode_names_ignore_case() {
    assert_eq!(serial_mode_from_name("rtu"), Some(SerialMode::Rtu));
    assert_eq!(serial_mode_from_name("RTU"), Some(SerialMode::Rtu));
    assert_eq!(serial_mode_from_name("AsCiI"), Some(SerialMode::Ascii));
    assert_eq!(serial_mode_from_name("rtu "), None);
    assert_eq!(serial_mode_from_name(""), None);
    assert_eq!(serial_mode_from_name("tcp"), None);
}

#[test]
fn parity_names_ignore_case() {
    assert_eq!(parity_from_name("none"), Some(Parity::NoParity));
    assert_eq!(parity_from_name("EVEN"), Some(Parity::Even));
    assert_eq!(parity_from_name("Odd"), Some(Parity::Odd));
    assert_eq!(parity_from_name("mark"), None);
    assert_eq!(parity_from_name("nonee"), None);
}

#[test]
fn data_bits_range() {
    assert_eq!(data_bits_from_u8(5), Some(DataBits::Five));
    assert_eq!(data_bits_from_u8(6), Some(DataBits::Six));
    assert_eq!(data_bits_from_u8(7), Some(DataBits::Seven));
    assert_eq!(data_bits_from_u8(8), Some(DataBits::Eight));
    assert_eq!(data_bits_from_u8(4), None);
    assert_eq!(data_bits_from_u8(9), None);
}

#[test]
fn baud_rates_map_both_ways() {
    assert_eq!(baud_rate_from_u32(9600), BaudRate::Baud9600);
    assert_eq!(baud_rate_from_u32(19200), BaudRate::Baud19200);
    assert_eq!(baud_rate_from_u32(115200), BaudRate::Custom(115200));
    for rate in [0u32, 1200, 9600, 19200, 115200, u32::MAX] {
        assert_eq!(baud_rate_value(baud_rate_from_u32(rate)), rate);
    }
}

#[test]
fn settings_checked_in_order() {
    let ok = serial_settings("RTU", "even", 8, 1, 19200).unwrap();
    assert_eq!(ok.mode, SerialMode::Rtu);
    assert_eq!(ok.parity, Parity::Even);
    assert_eq!(ok.data_bits, DataBits::Eight);
    assert_eq!(ok.stop_bits, 1);
    assert_eq!(ok.baud_rate, BaudRate::Baud19200);

    assert_eq!(serial_settings("rs485", "bogus", 3, 1, 9600), Err(SerialSettingsError::BadMode));
    assert_eq!(serial_settings("ascii", "bogus", 3, 1, 9600), Err(SerialSettingsError::BadParity));
    assert_eq!(serial_settings("ascii", "none", 3, 2, 9600), Err(SerialSettingsError::BadDataBits));
}

#[test]
fn settings_error_messages() {
    assert_eq!(SerialSettingsError::BadMode.message(), "mode must be 'rtu' or 'ascii'");
    assert_eq!(
        SerialSettingsError::BadParity.message(),
        "parity must be 'none', 'even', or 'odd'"
    );
    assert_eq!(
        SerialSettingsError::BadDataBits.message(),
        "data_bits must be one of 5, 6, 7, or 8"
    );
}

#[test]
fn txn_ids_start_at_one_and_skip_zero() {
    let mut c = TxnCounter::new();
    assert_eq!(c.peek(), 1);
    assert_eq!(c.alloc_txn(), 1);
    assert_eq!(c.alloc_txn(), 2);
    for _ in 0..(u16::MAX as u32 - 3) {
        c.alloc_txn();
    }
    assert_eq!(c.alloc_txn(), u16::MAX);
    assert_eq!(c.alloc_txn(), 1);
    assert_eq!(c.peek(), 2);
}

#[test]
fn c_serial_settings_are_fixed_but_mode_and_rate() {
    let s = modbus_rs::ffi::config::serial_settings_from_c(modbus_rs::ffi::config::MbusSerialMode::MbusSerialAscii, 9600);
    assert_eq!(s.mode, SerialMode::Ascii);
    assert_eq!(s.baud_rate, BaudRate::Custom(9600));
    assert_eq!(s.data_bits, DataBits::Eight);
    assert_eq!(s.parity, Parity::NoParity);
    assert_eq!(s.stop_bits, 1);
}
