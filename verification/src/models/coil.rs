use vstd::prelude::*;

use crate::errors::MbusError;
use crate::models::bits::{bit_set, ceil8, lemma_bit_ops};

verus! {

/// Maximum number of coils that can be read/written in a single Modbus PDU.
pub const MAX_COILS_PER_PDU: usize = 2000;
/// Number of bytes that hold the packed states of `MAX_COILS_PER_PDU` coils.
pub const MAX_COIL_BYTES: usize = (MAX_COILS_PER_PDU + 7) / 8;
/// Raw 16-bit representation of a coil that is ON.
pub const COIL_VALUE_ON: u16 = 0xFF00;
/// Raw 16-bit representation of a coil that is OFF.
pub const COIL_VALUE_OFF: u16 = 0x0000;

/// The state of a single Modbus coil.
#[derive(Debug, Clone, Copy, PartialEq, Eq, Structural)]
pub enum CoilState {
    /// Coil is active / energised / high (1).
    On,
    /// Coil is inactive / de-energised / low (0).
    Off,
}

/// The state that a bit stands for.
pub open spec fn state_of_bit(b: bool) -> CoilState {
    if b {
        CoilState::On
    } else {
        CoilState::Off
    }
}

/// The 16-bit wire value of a coil state.
pub open spec fn spec_coil_u16(s: CoilState) -> u16 {
    match s {
        CoilState::On => COIL_VALUE_ON,
        CoilState::Off => COIL_VALUE_OFF,
    }
}

impl CoilState {
    /// Returns 1 for [`CoilState::On`] and 0 for [`CoilState::Off`].
    pub fn to_bit(&self) -> (r: u8)
        ensures
            r == (if *self == CoilState::On { 1u8 } else { 0u8 }),
    {
        match self {
            CoilState::On => 1,
            CoilState::Off => 0,
        }
    }

    /// Converts a raw 16-bit coil value into a state: `0xFF00` is ON, any
    /// other value is OFF.
    pub fn from_u16(raw: u16) -> (r: CoilState)
        ensures
            r == state_of_bit(raw == COIL_VALUE_ON),
    {
        if raw == COIL_VALUE_ON {
            CoilState::On
        } else {
            CoilState::Off
        }
    }

    /// Converts the state into its raw 16-bit value (`0xFF00` for ON, `0x0000` for OFF).
    pub fn to_u16(&self) -> (r: u16)
        ensures
            r == spec_coil_u16(*self),
    {
        match self {
            CoilState::On => COIL_VALUE_ON,
            CoilState::Off => COIL_VALUE_OFF,
        }
    }

    /// The text that names the state: `ON` or `OFF`.
    pub fn as_str(&self) -> (r: &'static str)
        ensures
            r@ == (if *self == CoilState::On {
                "ON"@
            } else {
                "OFF"@
            }),
    {
        match self {
            CoilState::On => "ON",
            CoilState::Off => "OFF",
        }
    }
}

/// Converting a state to its raw value and back gives the same state.
pub proof fn lemma_coil_u16_roundtrip(s: CoilState)
    ensures
        state_of_bit(spec_coil_u16(s) == COIL_VALUE_ON) == s,
{
}

/// The byte after setting (ON) or clearing (OFF) bit `k` of `b`.
pub open spec fn with_bit(b: u8, k: int, s: CoilState) -> u8 {
    match s {
        CoilState::On => b | (1u8 << (k as u8)),
        CoilState::Off => b & !(1u8 << (k as u8)),
    }
}

/// The mathematical content of a block of coils.
pub struct CoilsView {
    /// Address of the first coil.
    pub from_address: u16,
    /// Number of coils.
    pub quantity: u16,
    /// The packed coil states (`MAX_COIL_BYTES` bytes).
    pub values: Seq<u8>,
}

impl CoilsView {
    /// Whether `address` lies in `[from_address, from_address + quantity)`.
    pub open spec fn in_range(self, address: u16) -> bool {
        self.from_address <= address < self.from_address + self.quantity
    }

    /// Position of `address` in the block.
    pub open spec fn offset(self, address: u16) -> int {
        address - self.from_address
    }

    /// The state of the coil at `address`.
    pub open spec fn state(self, address: u16) -> CoilState {
        let i = self.offset(address);
        state_of_bit(bit_set(self.values[i / 8], i % 8))
    }

    /// The block after the coil at `address` was set to `s`.
    pub open spec fn set(self, address: u16, s: CoilState) -> CoilsView {
        let i = self.offset(address);
        CoilsView {
            values: self.values.update(i / 8, with_bit(self.values[i / 8], i % 8, s)),
            ..self
        }
    }

    /// A well-formed block: an allowed quantity and a full byte buffer.
    pub open spec fn wf(self) -> bool {
        &&& 1 <= self.quantity <= MAX_COILS_PER_PDU
        &&& self.values.len() == MAX_COIL_BYTES
    }
}

/// A contiguous block of coils, packed eight to a byte with the first coil
/// in the least significant bit of the first byte.
#[derive(Debug, PartialEq, Eq, Clone, Copy)]
pub struct Coils {
    from_address: u16,
    quantity: u16,
    values: [u8; MAX_COIL_BYTES],
}

impl View for Coils {
    type V = CoilsView;

    closed spec fn view(&self) -> CoilsView {
        CoilsView { from_address: self.from_address, quantity: self.quantity, values: self.values@ }
    }
}

/// `address` lies in the block, computed without overflow.
fn in_block(from_address: u16, quantity: u16, address: u16) -> (r: bool)
    ensures
        r == (from_address <= address < from_address + quantity),
{
    address >= from_address && (address as u32) < (from_address as u32) + (quantity as u32)
}

impl Coils {
    #[verifier::type_invariant]
    spec fn inv(self) -> bool {
        1 <= self.quantity <= MAX_COILS_PER_PDU
    }

    /// Creates a block of `quantity` coils starting at `from_address`, all OFF.
    ///
    /// Fails with `InvalidQuantity` unless `1 <= quantity <= 2000`.
    pub fn new(from_address: u16, quantity: u16) -> (r: Result<Coils, MbusError>)
        ensures
            r is Ok <==> 1 <= quantity <= MAX_COILS_PER_PDU,
            r matches Ok(c) ==> c@ == (CoilsView {
                from_address,
                quantity,
                values: Seq::new(MAX_COIL_BYTES as nat, |i: int| 0u8),
            }),
            r matches Err(e) ==> e == MbusError::InvalidQuantity,
    {
        if quantity < 1 || quantity as usize > MAX_COILS_PER_PDU {
            return Err(MbusError::InvalidQuantity);
        }
        let c = Coils { from_address, quantity, values: [0u8; MAX_COIL_BYTES] };
        assert(c@.values =~= Seq::new(MAX_COIL_BYTES as nat, |i: int| 0u8));
        Ok(c)
    }

    /// Sets the state of the coil at `address`.
    ///
    /// Fails with `InvalidAddress`, changing nothing, when the address lies
    /// outside the block.
    pub fn set_value(&mut self, address: u16, state: CoilState) -> (r: Result<(), MbusError>)
        ensures
            old(self)@.in_range(address) ==> r is Ok && final(self)@ == old(self)@.set(address, state),
            !old(self)@.in_range(address) ==> r == Err::<(), MbusError>(MbusError::InvalidAddress)
                && final(self)@ == old(self)@,
    {
        proof {
            use_type_invariant(&*self);
        }
        if !in_block(self.from_address, self.quantity, address) {
            return Err(MbusError::InvalidAddress);
        }
        let bit_index = (address - self.from_address) as usize;
        let byte_index = bit_index / 8;
        let bit_in_byte = (bit_index % 8) as u8;
        if state == CoilState::On {
            self.values[byte_index] = self.values[byte_index] | (1u8 << bit_in_byte);
        } else {
            self.values[byte_index] = self.values[byte_index] & !(1u8 << bit_in_byte);
        }
        assert(self@.values =~= old(self)@.set(address, state).values);
        Ok(())
    }

    /// Replaces the leading packed bytes with `raw_values`.
    ///
    /// Fails with `InvalidQuantity` when `bits_length` differs from the
    /// block's quantity; otherwise the first `ceil(bits_length / 8)` bytes are
    /// copied from `raw_values` and the rest are kept.
    pub fn with_raw_values(self, raw_values: &[u8], bits_length: u16) -> (r: Result<Coils, MbusError>)
        requires
            bits_length == self@.quantity ==> raw_values@.len() >= ceil8(bits_length as int),
        ensures
            bits_length != self@.quantity ==> r == Err::<Coils, MbusError>(MbusError::InvalidQuantity),
            bits_length == self@.quantity ==> (r matches Ok(c) && c@ == (CoilsView {
                values: raw_values@.take(ceil8(bits_length as int)) + self@.values.skip(
                    ceil8(bits_length as int),
                ),
                ..self@
            })),
    {
        proof {
            use_type_invariant(&self);
        }
        if bits_length != self.quantity {
            return Err(MbusError::InvalidQuantity);
        }
        let mut this = self;
        let byte_length = (bits_length as usize + 7) / 8;
        let mut i: usize = 0;
        while i < byte_length
            invariant
                i <= byte_length,
                byte_length == ceil8(bits_length as int),
                byte_length <= MAX_COIL_BYTES,
                raw_values@.len() >= byte_length,
                this.from_address == self.from_address,
                this.quantity == self.quantity,
                1 <= this.quantity <= MAX_COILS_PER_PDU,
                this.values@.len() == MAX_COIL_BYTES,
                forall|j: int| 0 <= j < i ==> this.values@[j] == raw_values@[j],
                forall|j: int| i <= j < MAX_COIL_BYTES ==> this.values@[j] == self.values@[j],
            decreases byte_length - i,
        {
            this.values[i] = raw_values[i];
            i = i + 1;
        }
        assert(this@.values =~= raw_values@.take(ceil8(bits_length as int)) + self@.values.skip(
            ceil8(bits_length as int),
        ));
        Ok(this)
    }

    /// Address of the first coil.
    pub fn from_address(&self) -> (r: u16)
        ensures
            r == self@.from_address,
    {
        self.from_address
    }

    /// Number of coils in the block.
    pub fn quantity(&self) -> (r: u16)
        ensures
            r == self@.quantity,
            self@.wf(),
    {
        proof {
            use_type_invariant(self);
        }
        self.quantity
    }

    /// The packed coil states.
    pub fn raw_values(&self) -> (r: &[u8; MAX_COIL_BYTES])
        ensures
            r@ == self@.values,
            self@.wf(),
    {
        proof {
            use_type_invariant(self);
        }
        &self.values
    }

    /// The packed bytes that hold the block's coils: the first
    /// `ceil(quantity / 8)` bytes of the buffer.
    pub fn values(&self) -> (r: &[u8])
        ensures
            r@ == self@.values.take(ceil8(self@.quantity as int)),
            r@.len() == ceil8(self@.quantity as int),
            r@.len() >= 1,
    {
        proof {
            use_type_invariant(self);
        }
        let byte_length = (self.quantity as usize + 7) / 8;
        vstd::slice::slice_subrange(self.values.as_slice(), 0, byte_length)
    }

    /// The state of the coil at `address`.
    ///
    /// Fails with `InvalidAddress` when the address lies outside the block.
    pub fn value(&self, address: u16) -> (r: Result<CoilState, MbusError>)
        ensures
            r == (if self@.in_range(address) {
                Ok::<CoilState, MbusError>(self@.state(address))
            } else {
                Err::<CoilState, MbusError>(MbusError::InvalidAddress)
            }),
    {
        proof {
            use_type_invariant(self);
        }
        if !in_block(self.from_address, self.quantity, address) {
            return Err(MbusError::InvalidAddress);
        }
        let bit_index = (address - self.from_address) as usize;
        let byte_index = bit_index / 8;
        let bit_mask = 1u8 << ((bit_index % 8) as u8);
        if self.values[byte_index] & bit_mask != 0 {
            Ok(CoilState::On)
        } else {
            Ok(CoilState::Off)
        }
    }
}

/// Reading a coil right after writing it gives the written state, and
/// writing one coil leaves every other coil of the block as it was.
pub proof fn lemma_coils_set_then_get(v: CoilsView, address: u16, s: CoilState, other: u16)
    requires
        v.wf(),
        v.in_range(address),
        v.in_range(other),
    ensures
        v.set(address, s).state(address) == s,
        other != address ==> v.set(address, s).state(other) == v.state(other),
{
    let i = v.offset(address);
    let j = v.offset(other);
    lemma_bit_ops(v.values[i / 8], (i % 8) as u8, (j % 8) as u8);
    if other != address && i / 8 == j / 8 {
        assert(i % 8 != j % 8);
    }
}

} // verus!
