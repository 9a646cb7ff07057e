use vstd::prelude::*;

use crate::errors::MbusError;
use crate::models::bits::ceil8;
use crate::models::coil::{CoilState, Coils, CoilsView, MAX_COILS_PER_PDU, MAX_COIL_BYTES};

pub use crate::models::coil::MAX_COIL_BYTES as MAX_DISCRETE_INPUT_BYTES;
pub use crate::models::coil::MAX_COILS_PER_PDU as MAX_DISCRETE_INPUTS_PER_PDU;

verus! {

/// The state of a single discrete input; shares the bit semantics of [`CoilState`].
pub type DiscreteInputState = CoilState;

/// A read-only block of discrete inputs (function code 0x02), stored like
/// a block of coils.
#[derive(Debug, PartialEq, Eq, Clone, Copy)]
pub struct DiscreteInputs(Coils);

impl View for DiscreteInputs {
    type V = CoilsView;

    closed spec fn view(&self) -> CoilsView {
        self.0@
    }
}

impl DiscreteInputs {
    /// Creates a block of `quantity` inputs starting at `from_address`, all OFF.
    ///
    /// Fails with `InvalidQuantity` unless `1 <= quantity <= 2000`.
    pub fn new(from_address: u16, quantity: u16) -> (r: Result<DiscreteInputs, MbusError>)
        ensures
            r is Ok <==> 1 <= quantity <= MAX_COILS_PER_PDU,
            r matches Ok(d) ==> d@ == (CoilsView {
                from_address,
                quantity,
                values: Seq::new(MAX_COIL_BYTES as nat, |i: int| 0u8),
            }),
            r matches Err(e) ==> e == MbusError::InvalidQuantity,
    {
        match Coils::new(from_address, quantity) {
            Ok(c) => Ok(DiscreteInputs(c)),
            Err(e) => Err(e),
        }
    }

    /// Replaces the leading packed bytes with `raw_values`.
    ///
    /// Fails with `InvalidQuantity` when `bits_length` differs from the
    /// block's quantity; otherwise the first `ceil(bits_length / 8)` bytes are
    /// copied from `raw_values` and the rest are kept.
    pub fn with_raw_values(self, raw_values: &[u8], bits_length: u16) -> (r: Result<DiscreteInputs, MbusError>)
        requires
            bits_length == self@.quantity ==> raw_values@.len() >= ceil8(bits_length as int),
        ensures
            bits_length != self@.quantity ==> r == Err::<DiscreteInputs, MbusError>(MbusError::InvalidQuantity),
            bits_length == self@.quantity ==> (r matches Ok(d) && d@ == (CoilsView {
                values: raw_values@.take(ceil8(bits_length as int)) + self@.values.skip(
                    ceil8(bits_length as int),
                ),
                ..self@
            })),
    {
        match self.0.with_raw_values(raw_values, bits_length) {
            Ok(c) => Ok(DiscreteInputs(c)),
            Err(e) => Err(e),
        }
    }

    /// Same as [`DiscreteInputs::with_raw_values`].
    pub fn with_values(self, values: &[u8], bits_length: u16) -> (r: Result<DiscreteInputs, MbusError>)
        requires
            bits_length == self@.quantity ==> values@.len() >= ceil8(bits_length as int),
        ensures
            bits_length != self@.quantity ==> r == Err::<DiscreteInputs, MbusError>(MbusError::InvalidQuantity),
            bits_length == self@.quantity ==> (r matches Ok(d) && d@ == (CoilsView {
                values: values@.take(ceil8(bits_length as int)) + self@.values.skip(
                    ceil8(bits_length as int),
                ),
                ..self@
            })),
    {
        self.with_raw_values(values, bits_length)
    }

    /// Address of the first input.
    pub fn from_address(&self) -> (r: u16)
        ensures
            r == self@.from_address,
    {
        self.0.from_address()
    }

    /// Number of inputs in the block.
    pub fn quantity(&self) -> (r: u16)
        ensures
            r == self@.quantity,
            self@.wf(),
    {
        self.0.quantity()
    }

    /// The whole packed buffer.
    pub fn raw_values(&self) -> (r: &[u8; MAX_COIL_BYTES])
        ensures
            r@ == self@.values,
            self@.wf(),
    {
        self.0.raw_values()
    }

    /// The packed bytes that hold the block's inputs: the first
    /// `ceil(quantity / 8)` bytes of the buffer.
    pub fn values(&self) -> (r: &[u8])
        ensures
            r@ == self@.values.take(ceil8(self@.quantity as int)),
    {
        let byte_length = (self.quantity() as usize + 7) / 8;
        let raw = self.raw_values();
        vstd::slice::slice_subrange(raw.as_slice(), 0, byte_length)
    }

    /// The state of the input at `address`.
    ///
    /// Fails with `InvalidAddress` when the address lies outside the block.
    pub fn value(&self, address: u16) -> (r: Result<DiscreteInputState, MbusError>)
        ensures
            r == (if self@.in_range(address) {
                Ok::<CoilState, MbusError>(self@.state(address))
            } else {
                Err::<CoilState, MbusError>(MbusError::InvalidAddress)
            }),
    {
        self.0.value(address)
    }
}

} // verus!
