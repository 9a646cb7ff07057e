use vstd::prelude::*;

use crate::models::coil::Coils;
use crate::models::discrete_input::DiscreteInputs;
use crate::models::register::{Registers, MAX_REGISTERS_PER_PDU};

verus! {

/// Opaque handle to a block of coils handed across the C boundary.
pub struct MbusCoils(pub Coils);

impl MbusCoils {
    /// The wrapped coils.
    pub fn inner(&self) -> (r: &Coils)
        ensures
            r@ == self.0@,
    {
        &self.0
    }
}

/// Opaque handle to a block of discrete inputs handed across the C boundary.
pub struct MbusDiscreteInputs(pub DiscreteInputs);

impl MbusDiscreteInputs {
    /// The wrapped discrete inputs.
    pub fn inner(&self) -> (r: &DiscreteInputs)
        ensures
            r@ == self.0@,
    {
        &self.0
    }

    /// Wraps a block of discrete inputs.
    pub fn new(value: DiscreteInputs) -> (r: MbusDiscreteInputs)
        ensures
            r.0@ == value@,
    {
        MbusDiscreteInputs(value)
    }
}

/// Opaque handle to a block of registers handed across the C boundary.
pub struct MbusRegisters(pub Registers<MAX_REGISTERS_PER_PDU>);

impl MbusRegisters {
    /// The wrapped registers.
    pub fn inner(&self) -> (r: &Registers<MAX_REGISTERS_PER_PDU>)
        ensures
            r@ == self.0@,
    {
        &self.0
    }

    /// Wraps a block of registers.
    pub fn new(value: Registers<MAX_REGISTERS_PER_PDU>) -> (r: MbusRegisters)
        ensures
            r.0@ == value@,
    {
        MbusRegisters(value)
    }
}

} // verus!
