use modbus_rs::errors::MbusError;
use modbus_rs::maps::app_maps::{AppLayoutError, AppMaps, DataDomain};
use modbus_rs::maps::field_map::{CoilModel, RegisterModel};
use modbus_rs::maps::fields::{
    coil_model_from_fields, register_field_address, register_model_from_fields, CoilAttr, CoilFieldDesc, FieldError,
    FieldErrorKind, ModelDefError, RegAttr, RegFieldDesc,
};
use modbus_rs::maps::layout::{check_register_layout, find_duplicate, find_gap, LayoutError};

fn sparse_registers() -> RegisterModel {
    let mut regs = RegisterModel::registers(&[0, 1000], true).unwrap();
    regs.write_single(0, 0x1234).unwrap();
    regs.write_single(1000, 0xABCD).unwrap();
    regs
}

#[test]
fn sparse_holding_registers_encode_single_word_at_low_address() {
    let regs = sparse_registers();
    let mut out = [0u8; 2];
    let written = regs.encode(0, 1, &mut out).expect("encode should succeed");
    assert_eq!(written, 2);
    assert_eq!(out, [0x12, 0x34]);
}

#[test]
fn sparse_holding_registers_encode_single_word_at_high_address() {
    let regs = sparse_registers();
    let mut out = [0u8; 2];
    let written = regs.encode(1000, 1, &mut out).expect("encode should succeed");
    assert_eq!(written, 2);
    assert_eq!(out, [0xAB, 0xCD]);
}

#[test]
fn sparse_holding_registers_gap_request_returns_invalid_address() {
    let regs = sparse_registers();
    let mut out = [0u8; 4];
    let err = regs.encode(0, 2, &mut out).expect_err("gap should fail with InvalidAddress");
    assert_eq!(err, MbusError::InvalidAddress);
    // The word before the gap is already in place.
    assert_eq!(out, [0x12, 0x34, 0, 0]);
}

#[test]
fn coils_duplicate_address_rejected() {
    let err = CoilModel::coils(&[0, 0]).unwrap_err();
    assert_eq!(err, LayoutError::DuplicateAddress { first: 0, second: 1, address: 0 });
}

#[test]
fn holding_registers_duplicate_address_rejected() {
    let err = RegisterModel::registers(&[10, 10], false).unwrap_err();
    assert_eq!(err, LayoutError::DuplicateAddress { first: 0, second: 1, address: 10 });
}

#[test]
fn holding_registers_gaps_rejected_by_default() {
    let err = RegisterModel::registers(&[0, 5], false).unwrap_err();
    assert_eq!(err, LayoutError::Gap { current: 0, next: 5 });
}

#[test]
fn holding_registers_gaps_allowed_with_struct_option() {
    let regs = RegisterModel::registers(&[0, 5], true).unwrap();
    assert_eq!(regs.addr_min(), 0);
    assert_eq!(regs.addr_max(), 5);
    assert_eq!(regs.word_count(), 6);
}

#[test]
fn layout_checks_in_order() {
    assert_eq!(find_duplicate(&[3, 1, 2, 1, 3]), Some((0, 4)));
    assert_eq!(find_duplicate(&[1, 2, 3]), None);
    assert_eq!(find_gap(&[7, 3, 4, 5, 9]), Some((5, 7)));
    assert_eq!(find_gap(&[5, 3, 4]), None);
    assert_eq!(check_register_layout(&[], false), Err(LayoutError::Empty));
    assert_eq!(check_register_layout(&[2, 2, 9], false), Err(LayoutError::DuplicateAddress { first: 0, second: 1, address: 2 }));
    assert_eq!(check_register_layout(&[4, 3, 2], false), Ok(()));
    assert_eq!(CoilModel::coils(&[]).map(|c| (c.addr_min(), c.addr_max(), c.bit_count())).unwrap(), (0, 0, 1));
}

#[test]
fn register_model_reads_and_writes() {
    let mut regs = RegisterModel::registers(&[12, 10, 11], false).unwrap();
    assert_eq!(regs.addr_min(), 10);
    assert_eq!(regs.addr_max(), 12);
    assert_eq!(regs.write_many(10, &[1, 2, 3]), Ok(()));
    assert_eq!(regs.get(11), Some(2));
    let mut out = [0xEEu8; 7];
    assert_eq!(regs.encode(10, 3, &mut out), Ok(6));
    assert_eq!(out, [0, 1, 0, 2, 0, 3, 0xEE]);
    assert_eq!(regs.encode(10, 0, &mut out), Err(MbusError::InvalidAddress));
    assert_eq!(regs.encode(9, 1, &mut out), Err(MbusError::InvalidAddress));
    assert_eq!(regs.encode(11, 3, &mut out), Err(MbusError::InvalidAddress));
    assert_eq!(regs.encode(10, 3, &mut [0u8; 5]), Err(MbusError::BufferTooSmall));
    assert_eq!(regs.write_many(11, &[]), Err(MbusError::InvalidQuantity));
    // Stops at the first address that is not a field, keeping earlier writes.
    assert_eq!(regs.write_many(11, &[7, 8, 9]), Err(MbusError::InvalidAddress));
    assert_eq!(regs.get(11), Some(7));
    assert_eq!(regs.get(12), Some(8));
    assert_eq!(regs.write_single(13, 1), Err(MbusError::InvalidAddress));
}

#[test]
fn coil_model_packs_bits() {
    let mut coils = CoilModel::coils(&[0, 1, 2, 3, 4, 5, 6, 7, 8, 9]).unwrap();
    coils.write_single(0, true).unwrap();
    coils.write_single(3, true).unwrap();
    coils.write_single(9, true).unwrap();
    let mut out = [0xFFu8; 3];
    assert_eq!(coils.encode(0, 10, &mut out), Ok(2));
    assert_eq!(out, [0b0000_1001, 0b0000_0010, 0xFF]);
    assert_eq!(coils.encode(0, 0, &mut out), Err(MbusError::InvalidQuantity));
    assert_eq!(coils.encode(5, 6, &mut out), Err(MbusError::InvalidAddress));
    assert_eq!(coils.encode(0, 10, &mut [0u8; 1]), Err(MbusError::BufferTooSmall));
    // Bits 4..=7 of 0b1111_0000 and bit 0 of the next byte.
    assert_eq!(coils.write_many_from_packed(4, 5, &[0b1111_0000, 0b0000_0001], 4), Ok(()));
    assert_eq!(coils.get(4), Some(true));
    assert_eq!(coils.get(8), Some(true));
    assert_eq!(coils.write_many_from_packed(0, 9, &[0xFF], 0), Err(MbusError::InvalidByteCount));
    assert_eq!(coils.write_many_from_packed(8, 3, &[0xFF], 0), Err(MbusError::InvalidAddress));
    assert_eq!(coils.write_many_from_packed(0, 0, &[0xFF], 0), Err(MbusError::InvalidQuantity));
}

fn sample_app() -> AppMaps {
    let low = RegisterModel::registers(&[0, 1, 2], false).unwrap();
    let high = RegisterModel::registers(&[3, 4], false).unwrap();
    let far = RegisterModel::registers(&[100], false).unwrap();
    let coils_a = CoilModel::coils(&[0, 1, 2, 3]).unwrap();
    let coils_b = CoilModel::coils(&[4, 5, 6, 7, 8]).unwrap();
    AppMaps::new(vec![low, high, far], vec![], vec![coils_a, coils_b]).unwrap()
}

#[test]
fn app_reads_span_models() {
    let mut app = sample_app();
    assert_eq!(app.write_multiple_registers_request(1, &[0x0102, 0x0304, 0x0506]), Ok(()));
    let mut out = [0u8; 8];
    assert_eq!(app.read_multiple_holding_registers_request(0, 4, &mut out), Ok(8));
    assert_eq!(out, [0, 0, 1, 2, 3, 4, 5, 6]);
    assert_eq!(app.read_multiple_holding_registers_request(4, 2, &mut out), Err(MbusError::InvalidAddress));
    assert_eq!(app.read_multiple_holding_registers_request(0, 0, &mut out), Err(MbusError::InvalidQuantity));
    assert_eq!(app.read_multiple_holding_registers_request(0, 5, &mut out), Err(MbusError::BufferTooSmall));
    assert_eq!(app.read_multiple_input_registers_request(0, 1, &mut out), Err(MbusError::InvalidAddress));
    assert_eq!(app.write_single_register_request(100, 9), Ok(()));
    assert_eq!(app.write_single_register_request(99, 9), Err(MbusError::InvalidAddress));
    let mut one = [0u8; 2];
    assert_eq!(app.read_multiple_holding_registers_request(100, 1, &mut one), Ok(2));
    assert_eq!(one, [0, 9]);
}

#[test]
fn app_coils_span_models() {
    let mut app = sample_app();
    assert_eq!(app.write_multiple_coils_request(2, 5, &[0b0001_0101]), Ok(()));
    let mut out = [0u8; 2];
    assert_eq!(app.read_coils_request(0, 9, &mut out), Ok(2));
    assert_eq!(out, [0b0101_0100, 0]);
    assert_eq!(app.write_single_coil_request(8, true), Ok(()));
    assert_eq!(app.read_coils_request(0, 9, &mut out), Ok(2));
    assert_eq!(out, [0b0101_0100, 1]);
    assert_eq!(app.read_coils_request(5, 5, &mut out), Err(MbusError::InvalidAddress));
    assert_eq!(app.write_multiple_coils_request(0, 0, &[0]), Err(MbusError::InvalidQuantity));
    assert_eq!(app.write_multiple_coils_request(0, 9, &[0xFF]), Err(MbusError::InvalidByteCount));
    assert_eq!(app.write_single_coil_request(9, true), Err(MbusError::InvalidAddress));
}

#[test]
fn app_layout_rules() {
    assert_eq!(AppMaps::new(vec![], vec![], vec![]).err(), Some(AppLayoutError::NoMaps));
    let a = RegisterModel::registers(&[0, 1, 2], false).unwrap();
    let b = RegisterModel::registers(&[2, 3], false).unwrap();
    assert_eq!(
        AppMaps::new(vec![a, b], vec![], vec![]).err(),
        Some(AppLayoutError::Overlap { domain: DataDomain::HoldingRegisters, first: 0, second: 1 })
    );
    let a = RegisterModel::registers(&[10], false).unwrap();
    let b = RegisterModel::registers(&[0], false).unwrap();
    assert_eq!(
        AppMaps::new(vec![], vec![a, b], vec![]).err(),
        Some(AppLayoutError::Unordered { domain: DataDomain::InputRegisters, index: 0 })
    );
}

#[test]
fn app_read_at_top_of_address_space_fails() {
    let top = RegisterModel::registers(&[65534, 65535], false).unwrap();
    let app = AppMaps::new(vec![top], vec![], vec![]).unwrap();
    let mut out = [0u8; 4];
    assert_eq!(app.read_multiple_holding_registers_request(65534, 1, &mut out), Ok(2));
    assert_eq!(app.read_multiple_holding_registers_request(65534, 2, &mut out), Err(MbusError::InvalidAddress));
}

fn reg(addr: u16) -> RegFieldDesc {
    RegFieldDesc { is_u16: true, attrs: vec![RegAttr::Addr(Some(addr))] }
}

#[test]
fn register_field_rules() {
    assert_eq!(register_field_address(&reg(4)), Ok(4));
    let scaled = RegFieldDesc {
        is_u16: true,
        attrs: vec![RegAttr::Addr(Some(0)), RegAttr::Scale { numeric: true, positive: true }, RegAttr::Unit { string: true }],
    };
    assert_eq!(register_field_address(&scaled), Ok(0));
    let not_u16 = RegFieldDesc { is_u16: false, attrs: vec![RegAttr::Addr(Some(0))] };
    assert_eq!(register_field_address(&not_u16), Err(FieldErrorKind::WrongType));
    let zero_scale = RegFieldDesc { is_u16: true, attrs: vec![RegAttr::Addr(Some(0)), RegAttr::Scale { numeric: true, positive: false }] };
    assert_eq!(register_field_address(&zero_scale), Err(FieldErrorKind::NonPositiveScale));
    let text_scale = RegFieldDesc { is_u16: true, attrs: vec![RegAttr::Scale { numeric: false, positive: false }] };
    assert_eq!(register_field_address(&text_scale), Err(FieldErrorKind::BadScale));
    let unknown = RegFieldDesc { is_u16: true, attrs: vec![RegAttr::Unknown, RegAttr::Addr(None)] };
    assert_eq!(register_field_address(&unknown), Err(FieldErrorKind::UnknownKey));
    let no_addr = RegFieldDesc { is_u16: true, attrs: vec![RegAttr::Unit { string: true }] };
    assert_eq!(register_field_address(&no_addr), Err(FieldErrorKind::MissingAddress));
    let number_unit = RegFieldDesc { is_u16: true, attrs: vec![RegAttr::Addr(Some(0)), RegAttr::Unit { string: false }] };
    assert_eq!(register_field_address(&number_unit), Err(FieldErrorKind::BadUnit));
    assert_eq!(FieldErrorKind::BadAddress.message(), "expected a u16 literal (0..=65535)");
    assert!(FieldErrorKind::NonPositiveScale.message().contains("scale must be > 0"));
}

#[test]
fn model_definitions_checked_field_by_field_then_layout() {
    let regs = register_model_from_fields(&[reg(1), reg(0)], false).unwrap();
    assert_eq!((regs.addr_min(), regs.addr_max()), (0, 1));
    let bad = RegFieldDesc { is_u16: false, attrs: vec![] };
    assert_eq!(
        register_model_from_fields(&[reg(0), bad, reg(0)], false).unwrap_err(),
        ModelDefError::Field(FieldError { field: 1, kind: FieldErrorKind::WrongType })
    );
    assert_eq!(
        register_model_from_fields(&[reg(0), reg(5)], false).unwrap_err(),
        ModelDefError::Layout(LayoutError::Gap { current: 0, next: 5 })
    );
    let coil = |addr: u16| CoilFieldDesc { is_bool: true, has_attr: true, attrs: vec![CoilAttr::Addr(Some(addr))] };
    let coils = coil_model_from_fields(&[coil(3), coil(9)]).unwrap();
    assert_eq!((coils.addr_min(), coils.addr_max()), (3, 9));
    let bare = CoilFieldDesc { is_bool: true, has_attr: false, attrs: vec![] };
    assert_eq!(
        coil_model_from_fields(&[coil(0), bare]).unwrap_err(),
        ModelDefError::Field(FieldError { field: 1, kind: FieldErrorKind::MissingAttribute })
    );
    assert_eq!(
        coil_model_from_fields(&[coil(2), coil(2)]).unwrap_err(),
        ModelDefError::Layout(LayoutError::DuplicateAddress { first: 0, second: 1, address: 2 })
    );
}
