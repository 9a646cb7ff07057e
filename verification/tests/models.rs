use modbus_rs::errors::MbusError;
use modbus_rs::models::coil::{CoilState, Coils, MAX_COIL_BYTES};
use modbus_rs::models::discrete_input::{DiscreteInputState, DiscreteInputs, MAX_DISCRETE_INPUT_BYTES};
use modbus_rs::models::fifo_queue::{FifoQueue, MAX_FIFO_QUEUE_COUNT_PER_PDU};
use modbus_rs::models::register::Registers;

// --- Coils ---

#[test]
fn test_coils_new() {
    let mut values = [0u8; MAX_COIL_BYTES];
    values[0] = 0b0000_1011;

    let coils = Coils::new(100, 8)
        .unwrap()
        .with_raw_values(&values, 8)
        .expect("Should successfully load values");

    assert_eq!(coils.from_address(), 100);
    assert_eq!(coils.quantity(), 8);
    assert_eq!(coils.raw_values(), &values);
}

#[test]
fn test_coils_get_value() {
    let mut values = [0u8; MAX_COIL_BYTES];
    values[0] = 0x05;

    let coils = Coils::new(10, 8).unwrap().with_raw_values(&values, 8).unwrap();

    assert_eq!(coils.value(10).unwrap(), CoilState::On);
    assert_eq!(coils.value(11).unwrap(), CoilState::Off);
    assert_eq!(coils.value(12).unwrap(), CoilState::On);
    assert_eq!(coils.value(17).unwrap(), CoilState::Off);
}

#[test]
fn test_coils_get_value_out_of_bounds() {
    let values = [0u8; MAX_COIL_BYTES];
    let coils = Coils::new(10, 8).unwrap().with_raw_values(&values, 8).unwrap();

    assert_eq!(coils.value(9), Err(MbusError::InvalidAddress));
    assert_eq!(coils.value(18), Err(MbusError::InvalidAddress));
}

#[test]
fn test_coils_set_value() {
    let values = [0u8; MAX_COIL_BYTES];

    let mut coils = Coils::new(20, 16).unwrap().with_raw_values(&values, 16).unwrap();

    assert_eq!(coils.set_value(22, CoilState::On), Ok(()));
    assert_eq!(coils.value(22).unwrap(), CoilState::On);

    assert_eq!(coils.set_value(30, CoilState::On), Ok(()));
    assert_eq!(coils.value(30).unwrap(), CoilState::On);

    assert_eq!(coils.set_value(22, CoilState::Off), Ok(()));
    assert_eq!(coils.value(22).unwrap(), CoilState::Off);

    assert_eq!(coils.value(30).unwrap(), CoilState::On);
}

#[test]
fn test_coils_set_value_out_of_bounds() {
    let values = [0u8; MAX_COIL_BYTES];
    let mut coils = Coils::new(10, 8).unwrap().with_raw_values(&values, 8).unwrap();

    assert_eq!(coils.set_value(18, CoilState::On), Err(MbusError::InvalidAddress));
    assert_eq!(coils.set_value(50, CoilState::On), Err(MbusError::InvalidAddress));
}

#[test]
fn coils_doc_example_bit_packing() {
    let mut coils = Coils::new(100, 8).unwrap();
    assert_eq!(coils.value(100).unwrap(), CoilState::Off);
    assert_eq!(coils.value(107).unwrap(), CoilState::Off);

    coils.set_value(100, CoilState::On).unwrap();
    assert_eq!(coils.value(100).unwrap(), CoilState::On);
    assert_eq!(coils.raw_values()[..1], [0b0000_0001]);

    coils.set_value(102, CoilState::On).unwrap();
    assert_eq!(coils.raw_values()[..1], [0b0000_0101]);

    coils.set_value(100, CoilState::Off).unwrap();
    assert_eq!(coils.value(100).unwrap(), CoilState::Off);
    assert_eq!(coils.raw_values()[..1], [0b0000_0100]);

    let pre_packed_data = [0b1010_1010, 0b0101_0101];
    let loaded = Coils::new(200, 16).unwrap().with_raw_values(&pre_packed_data, 16).unwrap();
    assert_eq!(loaded.value(200).unwrap(), CoilState::Off);
    assert_eq!(loaded.value(201).unwrap(), CoilState::On);
    assert_eq!(loaded.value(208).unwrap(), CoilState::On);
}

#[test]
fn coils_quantity_limits() {
    assert_eq!(Coils::new(0, 0), Err(MbusError::InvalidQuantity));
    assert_eq!(Coils::new(0, 2001), Err(MbusError::InvalidQuantity));
    assert!(Coils::new(0, 2000).is_ok());
    assert!(Coils::new(0, 1).is_ok());
}

#[test]
fn coils_with_raw_values_rejects_other_quantity() {
    let values = [0xFFu8; 2];
    let coils = Coils::new(0, 16).unwrap();
    assert_eq!(coils.with_raw_values(&values, 15), Err(MbusError::InvalidQuantity));
}

#[test]
fn coils_block_at_top_of_address_space() {
    let mut coils = Coils::new(65535, 2).unwrap();
    assert_eq!(coils.set_value(65535, CoilState::On), Ok(()));
    assert_eq!(coils.value(65535), Ok(CoilState::On));
    assert_eq!(coils.value(65534), Err(MbusError::InvalidAddress));
}

#[test]
fn coil_state_raw_conversions() {
    assert_eq!(CoilState::On.to_u16(), 0xFF00);
    assert_eq!(CoilState::Off.to_u16(), 0x0000);
    assert_eq!(CoilState::from_u16(0xFF00), CoilState::On);
    assert_eq!(CoilState::from_u16(0x0000), CoilState::Off);
    assert_eq!(CoilState::from_u16(0x0001), CoilState::Off);
    assert_eq!(CoilState::On.to_bit(), 1);
    assert_eq!(CoilState::Off.to_bit(), 0);
    assert_eq!(CoilState::from_u16(CoilState::On.to_u16()), CoilState::On);
    assert_eq!(CoilState::from_u16(CoilState::Off.to_u16()), CoilState::Off);
}

// --- Discrete inputs ---

#[test]
fn test_discrete_inputs_new_and_getters() {
    let mut values = [0u8; MAX_DISCRETE_INPUT_BYTES];
    values[0] = 0b0000_1011;

    let inputs = DiscreteInputs::new(100, 4)
        .unwrap()
        .with_values(&values, 4)
        .expect("Should successfully load values");

    assert_eq!(inputs.from_address(), 100);
    assert_eq!(inputs.quantity(), 4);
    assert_eq!(inputs.values(), &values[..1]);
}

#[test]
fn test_discrete_inputs_get_value() {
    let mut values = [0u8; MAX_DISCRETE_INPUT_BYTES];
    values[0] = 0x05;
    values[1] = 0x80;

    let inputs = DiscreteInputs::new(10, 16).unwrap().with_values(&values, 16).unwrap();

    assert_eq!(inputs.value(10).unwrap(), DiscreteInputState::On);
    assert_eq!(inputs.value(11).unwrap(), DiscreteInputState::Off);
    assert_eq!(inputs.value(12).unwrap(), DiscreteInputState::On);
    assert_eq!(inputs.value(17).unwrap(), DiscreteInputState::Off);

    assert_eq!(inputs.value(18).unwrap(), DiscreteInputState::Off);
    assert_eq!(inputs.value(25).unwrap(), DiscreteInputState::On);
}

#[test]
fn test_discrete_inputs_get_value_out_of_bounds() {
    let mut values = [0u8; MAX_DISCRETE_INPUT_BYTES];
    values[0] = 0xFF;

    let inputs = DiscreteInputs::new(10, 8).unwrap().with_values(&values, 8).unwrap();

    assert_eq!(inputs.value(9), Err(MbusError::InvalidAddress));
    assert_eq!(inputs.value(18), Err(MbusError::InvalidAddress));
}

#[test]
fn discrete_inputs_doc_example() {
    let mut inputs = DiscreteInputs::new(100, 8).unwrap();
    assert_eq!(inputs.value(100).unwrap(), DiscreteInputState::Off);
    let received_data = [0x05, 0x00, 0x00, 0x00];
    inputs = inputs.with_values(&received_data, 8).expect("Valid quantity and data");
    assert_eq!(inputs.value(100).unwrap(), DiscreteInputState::On);
    assert_eq!(inputs.value(101).unwrap(), DiscreteInputState::Off);
    assert_eq!(inputs.value(102).unwrap(), DiscreteInputState::On);
    assert_eq!(inputs.value(107).unwrap(), DiscreteInputState::Off);
    assert_eq!(inputs.value(99), Err(MbusError::InvalidAddress));
    assert_eq!(inputs.value(108), Err(MbusError::InvalidAddress));
    assert_eq!(inputs.values(), &[0x05]);
    assert_eq!(inputs.raw_values().len(), MAX_DISCRETE_INPUT_BYTES);
    assert_eq!(DiscreteInputs::new(0, 0), Err(MbusError::InvalidQuantity));
}

// --- FIFO queue ---

#[test]
fn test_fifo_queue_new() {
    let ptr_addr = 0x04D2;
    let fifo = FifoQueue::new(ptr_addr);

    assert_eq!(fifo.ptr_address(), ptr_addr);
    assert_eq!(fifo.length(), 0);
    assert_eq!(fifo.queue().len(), 0);
}

#[test]
fn test_fifo_queue_with_values() {
    let mut values = [0u16; MAX_FIFO_QUEUE_COUNT_PER_PDU];
    values[0] = 0xAAAA;
    values[1] = 0xBBBB;
    values[2] = 0xCCCC;

    let fifo = FifoQueue::new(100).with_values(values, 3);

    assert_eq!(fifo.length(), 3);
    assert_eq!(fifo.queue(), &values[..3]);
    assert_eq!(fifo.queue()[0], 0xAAAA);
}

#[test]
fn test_fifo_queue_overflow_protection() {
    let values = [1u16; MAX_FIFO_QUEUE_COUNT_PER_PDU];
    let fifo = FifoQueue::new(100).with_values(values, 50);

    assert_eq!(fifo.length(), MAX_FIFO_QUEUE_COUNT_PER_PDU);
    assert_eq!(fifo.queue().len(), MAX_FIFO_QUEUE_COUNT_PER_PDU);
}

// --- Registers ---

#[test]
fn registers_new_rejects_quantity_over_capacity() {
    assert_eq!(Registers::<4>::new(0, 5), Err(MbusError::InvalidQuantity));
    let regs = Registers::<4>::new(10, 4).unwrap();
    assert_eq!(regs.from_address(), 10);
    assert_eq!(regs.quantity(), 4);
    assert_eq!(regs.values(), &[0, 0, 0, 0]);
}

#[test]
fn registers_with_values_and_access() {
    let regs = Registers::<125>::new(100, 3).unwrap().with_values(&[0x1111, 0x2222], 2).unwrap();
    assert_eq!(regs.value(100), Ok(0x1111));
    assert_eq!(regs.value(101), Ok(0x2222));
    assert_eq!(regs.value(102), Ok(0));
    assert_eq!(regs.value(103), Err(MbusError::InvalidAddress));
    assert_eq!(regs.value(99), Err(MbusError::InvalidAddress));

    let too_long = Registers::<125>::new(100, 3).unwrap().with_values(&[1, 2, 3, 4], 4);
    assert_eq!(too_long, Err(MbusError::InvalidQuantity));
    let over_capacity = Registers::<2>::new(0, 2).unwrap().with_values(&[1, 2, 3], 3);
    assert_eq!(over_capacity, Err(MbusError::InvalidQuantity));
}

#[test]
fn registers_set_then_get() {
    let mut regs = Registers::<125>::new(40, 5).unwrap();
    assert_eq!(regs.set_value(42, 0xBEEF), Ok(()));
    assert_eq!(regs.value(42), Ok(0xBEEF));
    assert_eq!(regs.value(41), Ok(0));
    assert_eq!(regs.value(43), Ok(0));
    assert_eq!(regs.set_value(45, 1), Err(MbusError::InvalidAddress));
    assert_eq!(regs.set_value(39, 1), Err(MbusError::InvalidAddress));
}

#[test]
fn coil_state_names() {
    assert_eq!(modbus_rs::models::coil::CoilState::On.as_str(), "ON");
    assert_eq!(modbus_rs::models::coil::CoilState::Off.as_str(), "OFF");
}
