use vstd::prelude::*;

use crate::errors::MbusError;

verus! {

/// Maximum number of registers that can be read/written in a single Modbus PDU.
pub const MAX_REGISTERS_PER_PDU: usize = 125;

/// The mathematical content of a block of registers.
pub struct RegistersView {
    /// Address of the first register.
    pub from_address: u16,
    /// Number of registers in the block.
    pub quantity: u16,
    /// The stored values (the whole buffer of capacity `N`).
    pub values: Seq<u16>,
}

impl RegistersView {
    /// Whether `address` lies in `[from_address, from_address + quantity)`.
    pub open spec fn in_range(self, address: u16) -> bool {
        self.from_address <= address < self.from_address + self.quantity
    }

    /// The value of the register at `address`.
    pub open spec fn get(self, address: u16) -> u16 {
        self.values[address - self.from_address]
    }

    /// The block after the register at `address` was set to `value`.
    pub open spec fn set(self, address: u16, value: u16) -> RegistersView {
        RegistersView { values: self.values.update(address - self.from_address, value), ..self }
    }
}

/// A block of 16-bit registers with storage for `N` of them.
#[derive(Debug, PartialEq, Eq, Clone, Copy)]
pub struct Registers<const N: usize> {
    from_address: u16,
    quantity: u16,
    values: [u16; N],
}

impl<const N: usize> View for Registers<N> {
    type V = RegistersView;

    closed spec fn view(&self) -> RegistersView {
        RegistersView { from_address: self.from_address, quantity: self.quantity, values: self.values@ }
    }
}

impl<const N: usize> Registers<N> {
    #[verifier::type_invariant]
    spec fn inv(self) -> bool {
        self.quantity <= N
    }

    /// Creates a block of `quantity` registers starting at `from_address`, all zero.
    ///
    /// Fails with `InvalidQuantity` when `quantity` exceeds the capacity `N`.
    pub fn new(from_address: u16, quantity: u16) -> (r: Result<Registers<N>, MbusError>)
        ensures
            r is Ok <==> quantity <= N,
            r matches Ok(x) ==> x@ == (RegistersView {
                from_address,
                quantity,
                values: Seq::new(N as nat, |i: int| 0u16),
            }),
            r matches Err(e) ==> e == MbusError::InvalidQuantity,
    {
        if quantity as usize > N {
            return Err(MbusError::InvalidQuantity);
        }
        let x = Registers { from_address, quantity, values: [0u16; N] };
        assert(x@.values =~= Seq::new(N as nat, |i: int| 0u16));
        Ok(x)
    }

    /// Loads the first `length` register values from `values`.
    ///
    /// Fails with `InvalidQuantity` when `length` exceeds the capacity or the
    /// block's quantity; otherwise the first `length`
    /// values are replaced and the rest are kept.
    pub fn with_values(self, values: &[u16], length: u16) -> (r: Result<Registers<N>, MbusError>)
        requires
            length <= N && length <= self@.quantity ==> values@.len() == length,
        ensures
            (length > N || length > self@.quantity) ==> r == Err::<Registers<N>, MbusError>(
                MbusError::InvalidQuantity,
            ),
            (length <= N && length <= self@.quantity) ==> (r matches Ok(x) && x@ == (
            RegistersView { values: values@ + self@.values.skip(length as int), ..self@ })),
    {
        proof {
            use_type_invariant(&self);
        }
        if length as usize > N {
            return Err(MbusError::InvalidQuantity);
        }
        if length > self.quantity {
            return Err(MbusError::InvalidQuantity);
        }
        let mut this = self;
        let n = length as usize;
        let mut i: usize = 0;
        while i < n
            invariant
                i <= n,
                n == length,
                n <= self.quantity,
                self.quantity <= N,
                values@.len() == n,
                this.from_address == self.from_address,
                this.quantity == self.quantity,
                this.values@.len() == N,
                forall|j: int| 0 <= j < i ==> this.values@[j] == values@[j],
                forall|j: int| i <= j < N ==> this.values@[j] == self.values@[j],
            decreases n - i,
        {
            this.values[i] = values[i];
            i = i + 1;
        }
        assert(this@.values =~= values@ + self@.values.skip(length as int));
        Ok(this)
    }

    /// Address of the first register.
    pub fn from_address(&self) -> (r: u16)
        ensures
            r == self@.from_address,
    {
        self.from_address
    }

    /// Number of registers in the block.
    pub fn quantity(&self) -> (r: u16)
        ensures
            r == self@.quantity,
            r <= N,
    {
        proof {
            use_type_invariant(self);
        }
        self.quantity
    }

    /// The whole value buffer.
    pub fn values(&self) -> (r: &[u16; N])
        ensures
            r@ == self@.values,
    {
        &self.values
    }

    /// Sets the register at `address` to `value`.
    ///
    /// Fails with `InvalidAddress`, changing nothing, when the address lies
    /// outside the block.
    pub fn set_value(&mut self, address: u16, value: u16) -> (r: Result<(), MbusError>)
        ensures
            old(self)@.in_range(address) ==> r is Ok && final(self)@ == old(self)@.set(address, value),
            !old(self)@.in_range(address) ==> r == Err::<(), MbusError>(MbusError::InvalidAddress)
                && final(self)@ == old(self)@,
    {
        proof {
            use_type_invariant(&*self);
        }
        if address < self.from_address || (address as u32) >= (self.from_address as u32) + (
        self.quantity as u32) {
            return Err(MbusError::InvalidAddress);
        }
        let index = (address - self.from_address) as usize;
        self.values[index] = value;
        Ok(())
    }

    /// The value of the register at `address`.
    ///
    /// Fails with `InvalidAddress` when the address lies outside the block.
    pub fn value(&self, address: u16) -> (r: Result<u16, MbusError>)
        ensures
            r == (if self@.in_range(address) {
                Ok::<u16, MbusError>(self@.get(address))
            } else {
                Err::<u16, MbusError>(MbusError::InvalidAddress)
            }),
    {
        proof {
            use_type_invariant(self);
        }
        if address < self.from_address || (address as u32) >= (self.from_address as u32) + (
        self.quantity as u32) {
            return Err(MbusError::InvalidAddress);
        }
        let index = (address - self.from_address) as usize;
        Ok(self.values[index])
    }
}

/// Reading a register right after writing it gives the written value, and
/// writing one register leaves every other register of the block as it was.
pub proof fn lemma_registers_set_then_get(v: RegistersView, address: u16, value: u16, other: u16)
    requires
        v.in_range(address),
        v.in_range(other),
        v.quantity <= v.values.len(),
    ensures
        v.set(address, value).get(address) == value,
        other != address ==> v.set(address, value).get(other) == v.get(other),
{
}

} // verus!
