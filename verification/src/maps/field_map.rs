//! A data model: values stored at a fixed set of Modbus addresses.
//!
//! A register model holds one 16-bit word per address and a coil model one
//! bit per address; the addresses are fixed when the model is laid out.

use vstd::prelude::*;

use crate::data_unit::{be_hi, be_lo};
use crate::errors::MbusError;
use crate::maps::layout::{check_coil_layout, check_register_layout, distinct_addrs, LayoutError};
use crate::models::bits::{bit_set, ceil8, lemma_bit_ops, packed_bit};

verus! {

/// The position at which `a` occurs in `s`.
pub open spec fn index_of(s: Seq<u16>, a: u16) -> int {
    choose|i: int| 0 <= i < s.len() && s[i] == a
}

/// In a list without repeats, the position of an element is found again.
proof fn lemma_index_of(s: Seq<u16>, i: int)
    requires
        distinct_addrs(s),
        0 <= i < s.len(),
    ensures
        index_of(s, s[i]) == i,
{
    let k = index_of(s, s[i]);
    assert(0 <= k < s.len() && s[k] == s[i]);
    if k < i {
        assert(s[k] != s[i]);
    } else if i < k {
        assert(s[i] != s[k]);
    }
}

/// `lo` and `hi` bound the addresses of `m`, and are themselves addresses
/// of `m` unless `m` is empty, in which case both are 0.
pub open spec fn bounds_ok<V>(m: Map<u16, V>, lo: u16, hi: u16) -> bool {
    &&& forall|a: u16| #[trigger] m.dom().contains(a) ==> lo <= a <= hi
    &&& (exists|a: u16| #[trigger] m.dom().contains(a)) ==> m.dom().contains(lo) && m.dom().contains(hi)
    &&& (forall|a: u16| !(#[trigger] m.dom().contains(a))) ==> lo == 0 && hi == 0
}

/// Values of type `V` stored at a fixed set of addresses.
#[derive(Debug)]
pub struct FieldMap<V> {
    addrs: Vec<u16>,
    vals: Vec<V>,
    addr_min: u16,
    addr_max: u16,
}

impl<V> View for FieldMap<V> {
    type V = Map<u16, V>;

    /// The value at each address of the model.
    closed spec fn view(&self) -> Map<u16, V> {
        Map::new(|a: u16| self.addrs@.contains(a), |a: u16| self.vals@[index_of(self.addrs@, a)])
    }
}

impl<V> FieldMap<V> {
    /// The smallest address of the model.
    pub closed spec fn spec_addr_min(&self) -> u16 {
        self.addr_min
    }

    /// The largest address of the model.
    pub closed spec fn spec_addr_max(&self) -> u16 {
        self.addr_max
    }
}

impl<V: Copy> FieldMap<V> {
    /// The stored addresses are distinct, each has a value, and the bounds
    /// are the smallest and largest address (both 0 for an empty model).
    pub closed spec fn wf(&self) -> bool {
        &&& self.addrs@.len() == self.vals@.len()
        &&& distinct_addrs(self.addrs@)
        &&& forall|i: int| 0 <= i < self.addrs@.len() ==> self.addr_min <= #[trigger] self.addrs@[i] <= self.addr_max
        &&& self.addrs@.len() > 0 ==> self.addrs@.contains(self.addr_min) && self.addrs@.contains(self.addr_max)
        &&& self.addrs@.len() == 0 ==> self.addr_min == 0 && self.addr_max == 0
    }

    /// The bounds of a well-formed model enclose its addresses.
    pub proof fn lemma_bounds(&self)
        requires
            self.wf(),
        ensures
            bounds_ok(self@, self.spec_addr_min(), self.spec_addr_max()),
    {
        assert forall|a: u16| #[trigger] self@.dom().contains(a) implies self.addr_min <= a <= self.addr_max by {
            let i = choose|i: int| 0 <= i < self.addrs@.len() && self.addrs@[i] == a;
        }
        if exists|a: u16| #[trigger] self@.dom().contains(a) {
            let a = choose|a: u16| #[trigger] self@.dom().contains(a);
            assert(self.addrs@.len() > 0);
        }
        if forall|a: u16| !(#[trigger] self@.dom().contains(a)) {
            if self.addrs@.len() > 0 {
                assert(self@.dom().contains(self.addrs@[0]));
            }
        }
    }

    /// Lays out a model over distinct addresses, every value set to `init`.
    fn build(addrs: &[u16], init: V) -> (r: Self)
        requires
            distinct_addrs(addrs@),
        ensures
            r.wf(),
            r@ == Map::new(|a: u16| addrs@.contains(a), |a: u16| init),
            addrs@.len() > 0 ==> addrs@.contains(r.spec_addr_min()) && addrs@.contains(r.spec_addr_max()),
            forall|a: u16| addrs@.contains(a) ==> r.spec_addr_min() <= a <= r.spec_addr_max(),
            addrs@.len() == 0 ==> r.spec_addr_min() == 0 && r.spec_addr_max() == 0,
    {
        let mut a: Vec<u16> = Vec::new();
        let mut v: Vec<V> = Vec::new();
        let mut lo: u16 = 0;
        let mut hi: u16 = 0;
        let mut i: usize = 0;
        while i < addrs.len()
            invariant
                i <= addrs@.len(),
                a@ == addrs@.take(i as int),
                v@.len() == i,
                forall|k: int| 0 <= k < i ==> v@[k] == init,
                i > 0 ==> (exists|k: int| 0 <= k < i && addrs@[k] == lo) && (exists|k: int| 0 <= k < i && addrs@[k] == hi),
                i == 0 ==> lo == 0 && hi == 0,
                forall|k: int| 0 <= k < i ==> lo <= #[trigger] addrs@[k] <= hi,
            decreases addrs@.len() - i,
        {
            let x = addrs[i];
            if i == 0 {
                lo = x;
                hi = x;
            } else {
                if x < lo {
                    lo = x;
                }
                if x > hi {
                    hi = x;
                }
            }
            a.push(x);
            v.push(init);
            assert(addrs@.take(i + 1) =~= addrs@.take(i as int).push(x));
            i = i + 1;
        }
        assert(addrs@.take(addrs@.len() as int) =~= addrs@);
        proof {
            if addrs@.len() > 0 {
                let k1 = choose|k: int| 0 <= k < addrs@.len() && addrs@[k] == lo;
                let k2 = choose|k: int| 0 <= k < addrs@.len() && addrs@[k] == hi;
                assert(a@[k1] == lo);
                assert(a@[k2] == hi);
            }
        }
        let r = FieldMap { addrs: a, vals: v, addr_min: lo, addr_max: hi };
        assert(r@ =~= Map::new(|x: u16| addrs@.contains(x), |x: u16| init)) by {
            assert forall|x: u16| #[trigger] r@.dom().contains(x) implies r@[x] == init by {
                let k = index_of(a@, x);
                assert(0 <= k < a@.len() && a@[k] == x);
            }
        }
        assert forall|x: u16| addrs@.contains(x) implies lo <= x <= hi by {
            let k = choose|k: int| 0 <= k < addrs@.len() && addrs@[k] == x;
            assert(a@[k] == x);
        }
        r
    }

    /// The position of `address` among the stored addresses.
    fn find_index(&self, address: u16) -> (r: Option<usize>)
        requires
            self.wf(),
        ensures
            r is None <==> !self@.dom().contains(address),
            r matches Some(i) ==> i < self.addrs@.len() && self.addrs@[i as int] == address && index_of(
                self.addrs@,
                address,
            ) == i,
    {
        let mut i: usize = 0;
        while i < self.addrs.len()
            invariant
                i <= self.addrs@.len(),
                distinct_addrs(self.addrs@),
                forall|k: int| 0 <= k < i ==> self.addrs@[k] != address,
            decreases self.addrs@.len() - i,
        {
            if self.addrs[i] == address {
                proof {
                    lemma_index_of(self.addrs@, i as int);
                }
                return Some(i);
            }
            i = i + 1;
        }
        None
    }

    /// The smallest address of the model.
    pub fn addr_min(&self) -> (r: u16)
        ensures
            r == self.spec_addr_min(),
    {
        self.addr_min
    }

    /// The largest address of the model.
    pub fn addr_max(&self) -> (r: u16)
        ensures
            r == self.spec_addr_max(),
    {
        self.addr_max
    }

    /// The value stored at `address`, if it is an address of the model.
    pub fn get(&self, address: u16) -> (r: Option<V>)
        requires
            self.wf(),
        ensures
            r == (if self@.dom().contains(address) {
                Some(self@[address])
            } else {
                None::<V>
            }),
    {
        match self.find_index(address) {
            Some(i) => Some(self.vals[i]),
            None => None,
        }
    }

    /// Stores `value` at `address`; fails with `InvalidAddress`, changing
    /// nothing, when `address` is not an address of the model.
    pub fn write_single(&mut self, address: u16, value: V) -> (r: Result<(), MbusError>)
        requires
            old(self).wf(),
        ensures
            final(self).wf(),
            final(self).spec_addr_min() == old(self).spec_addr_min(),
            final(self).spec_addr_max() == old(self).spec_addr_max(),
            r is Ok <==> old(self)@.dom().contains(address),
            r is Ok ==> final(self)@ == old(self)@.insert(address, value),
            r matches Err(e) ==> e == MbusError::InvalidAddress && final(self)@ == old(self)@ && *final(self) == *old(self),
    {
        match self.find_index(address) {
            Some(i) => {
                let ghost before = self@;
                self.vals.set(i, value);
                proof {
                    assert forall|x: u16| #[trigger] self@.dom().contains(x) implies self@[x] == before.insert(
                        address,
                        value,
                    )[x] by {
                        let k = index_of(self.addrs@, x);
                        assert(0 <= k < self.addrs@.len() && self.addrs@[k] == x);
                        if x != address {
                            assert(k != i);
                        }
                    }
                    assert(self@ =~= before.insert(address, value));
                }
                Ok(())
            },
            None => Err(MbusError::InvalidAddress),
        }
    }
}

/// Whether `x` is a 16-bit address of `m`.
pub open spec fn present<V>(m: Map<u16, V>, x: int) -> bool {
    0 <= x <= u16::MAX && m.dom().contains(x as u16)
}

/// How many consecutive addresses, starting at `start` and at most
/// `count` of them, are addresses of `m`.
pub open spec fn run_len<V>(m: Map<u16, V>, start: int, count: int) -> int
    decreases count,
{
    if count <= 0 {
        0
    } else if present(m, start) {
        1 + run_len(m, start + 1, count - 1)
    } else {
        0
    }
}

/// `run_len` counts exactly the leading run of present addresses.
pub(crate) proof fn lemma_run_len<V>(m: Map<u16, V>, start: int, count: int, n: int)
    requires
        0 <= n <= count,
        forall|k: int| 0 <= k < n ==> #[trigger] present(m, start + k),
        n < count ==> !present(m, start + n),
    ensures
        run_len(m, start, count) == n,
    decreases count,
{
    if n > 0 {
        assert(present(m, start + 0));
        assert(start + 0 == start);
        assert forall|k: int| 0 <= k < n - 1 implies #[trigger] present(m, (start + 1) + k) by {
            assert(present(m, start + (k + 1)));
            assert(start + (k + 1) == (start + 1) + k);
        }
        assert((start + 1) + (n - 1) == start + n);
        lemma_run_len(m, start + 1, count - 1, n - 1);
    } else if count > 0 {
        assert(start + 0 == start);
    }
}

/// The preliminary checks of a register read: a zero quantity or a window
/// outside the model's bounds is an invalid address, and the output must
/// hold two bytes per word.
pub open spec fn register_read_checks(lo: u16, hi: u16, address: u16, quantity: u16, out_len: int) -> Result<(), MbusError> {
    if quantity == 0 {
        Err(MbusError::InvalidAddress)
    } else if address < lo || address + quantity > hi + 1 {
        Err(MbusError::InvalidAddress)
    } else if out_len < 2 * quantity {
        Err(MbusError::BufferTooSmall)
    } else {
        Ok(())
    }
}

/// The outcome of reading `quantity` words from `address`: the preliminary
/// checks, then every address of the window must hold a word; on success
/// the byte count (two per word, kept to 8 bits).
pub open spec fn register_read_result(m: Map<u16, u16>, lo: u16, hi: u16, address: u16, quantity: u16, out_len: int) -> Result<u8, MbusError> {
    match register_read_checks(lo, hi, address, quantity, out_len) {
        Err(e) => Err(e),
        Ok(()) => if run_len(m, address as int, quantity as int) < quantity {
            Err(MbusError::InvalidAddress)
        } else {
            Ok((2 * quantity) as u8)
        },
    }
}

/// How many words a register read writes before it stops: none when the
/// preliminary checks fail, else the leading run of present addresses.
pub open spec fn register_words_written(m: Map<u16, u16>, lo: u16, hi: u16, address: u16, quantity: u16, out_len: int) -> int {
    if register_read_checks(lo, hi, address, quantity, out_len) is Ok {
        run_len(m, address as int, quantity as int)
    } else {
        0
    }
}

/// `old` with the first `n` words from address `start` written in network
/// order at its front.
pub open spec fn with_words(old: Seq<u8>, m: Map<u16, u16>, start: int, n: int) -> Seq<u8> {
    Seq::new(
        old.len(),
        |i: int|
            if i < 2 * n {
                if i % 2 == 0 {
                    be_hi(m[(start + i / 2) as u16])
                } else {
                    be_lo(m[(start + i / 2) as u16])
                }
            } else {
                old[i]
            },
    )
}

/// Applies the writes of `vals[i..]` to consecutive addresses from
/// `address + i` (the offset taken to 16 bits), stopping at the first one
/// that overflows or is not an address of `m`; says whether all were made.
pub open spec fn apply_writes<V>(m: Map<u16, V>, address: u16, vals: Seq<V>, i: nat) -> (Map<u16, V>, bool)
    decreases vals.len() - i,
{
    if i >= vals.len() {
        (m, true)
    } else {
        let a = address + (i as u16);
        if a > u16::MAX || !m.dom().contains(a as u16) {
            (m, false)
        } else {
            apply_writes(m.insert(a as u16, vals[i as int]), address, vals, i + 1)
        }
    }
}

/// The preliminary checks of a coil read: a zero quantity is refused,
/// a window outside the model's bounds is an invalid address, and the
/// output must hold the packed bits.
pub open spec fn coil_read_checks(lo: u16, hi: u16, address: u16, quantity: u16, out_len: int) -> Result<(), MbusError> {
    if quantity == 0 {
        Err(MbusError::InvalidQuantity)
    } else if address < lo || address + quantity > hi + 1 {
        Err(MbusError::InvalidAddress)
    } else if out_len < ceil8(quantity as int) {
        Err(MbusError::BufferTooSmall)
    } else {
        Ok(())
    }
}

/// The outcome of reading `quantity` coils from `address`: the preliminary
/// checks, then every address of the window must be a coil; on success the
/// packed byte count (kept to 8 bits).
pub open spec fn coil_read_result(m: Map<u16, bool>, lo: u16, hi: u16, address: u16, quantity: u16, out_len: int) -> Result<u8, MbusError> {
    match coil_read_checks(lo, hi, address, quantity, out_len) {
        Err(e) => Err(e),
        Ok(()) => if run_len(m, address as int, quantity as int) < quantity {
            Err(MbusError::InvalidAddress)
        } else {
            Ok(ceil8(quantity as int) as u8)
        },
    }
}

/// `new` is `old` with its first `nbytes` bytes replaced by the packing of
/// the first `n` coils from address `start`, the other bits cleared.
pub open spec fn packs_coils(new: Seq<u8>, old: Seq<u8>, m: Map<u16, bool>, start: int, n: int, nbytes: int) -> bool {
    &&& new.len() == old.len()
    &&& forall|i: int| nbytes <= i < old.len() ==> new[i] == old[i]
    &&& forall|b: int, k: int|
        0 <= b < nbytes && 0 <= k < 8 ==> #[trigger] bit_set(new[b], k) == (8 * b + k < n && m[(start + 8 * b
            + k) as u16])
}

/// Applies the bits `offset + i ..` of `values` to consecutive coils from
/// `address + i`, stopping when a bit lies past the end of `values` or an
/// address is not a coil.
pub open spec fn apply_packed_writes(
    m: Map<u16, bool>,
    address: u16,
    quantity: int,
    values: Seq<u8>,
    offset: int,
    i: int,
) -> (Map<u16, bool>, Result<(), MbusError>)
    decreases quantity - i,
{
    if i >= quantity {
        (m, Ok(()))
    } else if (offset + i) / 8 >= values.len() {
        (m, Err(MbusError::InvalidByteCount))
    } else if !present(m, address + i) {
        (m, Err(MbusError::InvalidAddress))
    } else {
        apply_packed_writes(m.insert((address + i) as u16, packed_bit(values, offset + i)), address, quantity, values, offset, i + 1)
    }
}

/// No bit of zero is set.
proof fn lemma_zero_bits(k: int)
    requires
        0 <= k < 8,
    ensures
        !bit_set(0u8, k),
{
    let kk = k as u8;
    assert(0u8 & (1u8 << kk) == 0) by (bit_vector);
}

/// Reading back one register of a model right after writing it gives the
/// written word in network order.
pub proof fn lemma_register_read_after_write(m: Map<u16, u16>, lo: u16, hi: u16, a: u16, v: u16, out: Seq<u8>)
    requires
        bounds_ok(m, lo, hi),
        m.dom().contains(a),
        out.len() >= 2,
    ensures
        register_read_result(m.insert(a, v), lo, hi, a, 1, out.len() as int) == Ok::<u8, MbusError>(2),
        register_words_written(m.insert(a, v), lo, hi, a, 1, out.len() as int) == 1,
        with_words(out, m.insert(a, v), a as int, 1).subrange(0, 2) == seq![be_hi(v), be_lo(v)],
{
    let m2 = m.insert(a, v);
    assert(lo <= a <= hi);
    assert(present(m2, a as int));
    lemma_run_len(m2, a as int, 1, 1);
    assert(with_words(out, m2, a as int, 1).subrange(0, 2) =~= seq![be_hi(v), be_lo(v)]) by {
        assert((a + 0int / 2) as u16 == a);
        assert((a + 1int / 2) as u16 == a);
    }
}

/// Reading back one coil of a model right after writing it gives the
/// written value in the lowest bit of the first byte.
pub proof fn lemma_coil_read_after_write(m: Map<u16, bool>, lo: u16, hi: u16, a: u16, v: bool, old_out: Seq<u8>, new_out: Seq<u8>)
    requires
        bounds_ok(m, lo, hi),
        m.dom().contains(a),
        old_out.len() >= 1,
        packs_coils(new_out, old_out, m.insert(a, v), a as int, run_len(m.insert(a, v), a as int, 1), ceil8(1)),
    ensures
        coil_read_result(m.insert(a, v), lo, hi, a, 1, old_out.len() as int) == Ok::<u8, MbusError>(1),
        bit_set(new_out[0], 0) == v,
        forall|k: int| 1 <= k < 8 ==> !bit_set(new_out[0], k),
{
    let m2 = m.insert(a, v);
    assert(lo <= a <= hi);
    assert(present(m2, a as int));
    lemma_run_len(m2, a as int, 1, 1);
    assert(bit_set(new_out[0], 0) == (8 * 0 + 0 < 1 && m2[(a + 8 * 0 + 0) as u16]));
    assert forall|k: int| 1 <= k < 8 implies !bit_set(new_out[0], k) by {
        assert(bit_set(new_out[0], k) == (8 * 0 + k < 1 && m2[(a + 8 * 0 + k) as u16]));
    }
}

/// A register model: one 16-bit word per address.
pub type RegisterModel = FieldMap<u16>;

/// A coil model: one bit per address.
pub type CoilModel = FieldMap<bool>;

impl FieldMap<u16> {
    /// Lays out a register model over the field addresses `addrs`, every
    /// word 0. The layout is refused when an address repeats, when the
    /// addresses leave a gap and `allow_gaps` is off, or when there are no
    /// fields.
    pub fn registers(addrs: &[u16], allow_gaps: bool) -> (r: Result<Self, LayoutError>)
        ensures
            r is Ok <==> crate::maps::layout::register_layout_ok(addrs@, allow_gaps),
            r matches Ok(m) ==> m.wf() && m@ == Map::new(|a: u16| addrs@.contains(a), |a: u16| 0u16)
                && addrs@.contains(m.spec_addr_min()) && addrs@.contains(m.spec_addr_max()) && (forall|a: u16|
                addrs@.contains(a) ==> m.spec_addr_min() <= a <= m.spec_addr_max()),
            r matches Err(e) ==> check_register_layout_result(addrs@, allow_gaps, e),
    {
        match check_register_layout(addrs, allow_gaps) {
            Ok(()) => Ok(Self::build(addrs, 0u16)),
            Err(e) => Err(e),
        }
    }

    /// Writes the words at `quantity` addresses from `address` into `out`
    /// in network order and returns the byte count.
    ///
    /// Fails with `InvalidAddress` for a zero quantity, a window outside the
    /// model's bounds, or a window with an address that is not a field
    /// (the words before it are already written), and with
    /// `BufferTooSmall` when `out` cannot hold two bytes per word.
    pub fn encode(&self, address: u16, quantity: u16, out: &mut [u8]) -> (r: Result<u8, MbusError>)
        requires
            self.wf(),
        ensures
            r == register_read_result(self@, self.spec_addr_min(), self.spec_addr_max(), address, quantity, old(out)@.len() as int),
            final(out)@ == with_words(
                old(out)@,
                self@,
                address as int,
                register_words_written(self@, self.spec_addr_min(), self.spec_addr_max(), address, quantity, old(out)@.len() as int),
            ),
    {
        let qty = quantity as usize;
        if qty == 0 {
            assert(out@ =~= with_words(old(out)@, self@, address as int, 0));
            return Err(MbusError::InvalidAddress);
        }
        let map_start = self.addr_min as usize;
        let req_start = address as usize;
        let req_end = req_start + qty;
        let map_end = self.addr_max as usize + 1;
        if req_start < map_start || req_end > map_end {
            assert(out@ =~= with_words(old(out)@, self@, address as int, 0));
            return Err(MbusError::InvalidAddress);
        }
        let byte_len = qty * 2;
        if out.len() < byte_len {
            assert(out@ =~= with_words(old(out)@, self@, address as int, 0));
            return Err(MbusError::BufferTooSmall);
        }
        self.write_words(address, quantity, out, 0)
    }

    /// Writes the words of `count` addresses from `start` into `out` from
    /// byte `offset` on, stopping at the first address that is not a field.
    pub(crate) fn write_words(&self, start: u16, count: u16, out: &mut [u8], offset: usize) -> (r: Result<u8, MbusError>)
        requires
            self.wf(),
            count > 0,
            start + count <= u16::MAX + 1,
            offset + 2 * count <= old(out)@.len(),
        ensures
            final(out)@.len() == old(out)@.len(),
            r == (if run_len(self@, start as int, count as int) < count {
                Err::<u8, MbusError>(MbusError::InvalidAddress)
            } else {
                Ok::<u8, MbusError>((2 * count) as u8)
            }),
            forall|i: int| 0 <= i < offset ==> final(out)@[i] == old(out)@[i],
            final(out)@.subrange(offset as int, old(out)@.len() as int) == with_words(
                old(out)@.subrange(offset as int, old(out)@.len() as int),
                self@,
                start as int,
                run_len(self@, start as int, count as int),
            ),
            offset == 0 ==> final(out)@ == with_words(old(out)@, self@, start as int, run_len(self@, start as int, count as int)),
    {
        let ghost orig = out@;
        assert(orig.len() == out.len());
        let ghost tail = orig.subrange(offset as int, orig.len() as int);
        let mut i: u16 = 0;
        while i < count
            invariant
                self.wf(),
                0 <= i <= count,
                start + count <= u16::MAX + 1,
                offset + 2 * count <= orig.len(),
                orig == old(out)@,
                orig.len() <= usize::MAX,
                out@.len() == orig.len(),
                tail == orig.subrange(offset as int, orig.len() as int),
                forall|k: int| 0 <= k < i ==> #[trigger] present(self@, start + k),
                forall|j: int| 0 <= j < offset ==> out@[j] == orig[j],
                out@.subrange(offset as int, orig.len() as int) == with_words(tail, self@, start as int, i as int),
            decreases count - i,
        {
            let cur = start + i;
            match self.get(cur) {
                None => {
                    proof {
                        lemma_run_len(self@, start as int, count as int, i as int);
                        if offset == 0 {
                            assert(out@.subrange(0, orig.len() as int) =~= out@);
                            assert(orig.subrange(0, orig.len() as int) =~= orig);
                        }
                    }
                    return Err(MbusError::InvalidAddress);
                },
                Some(word) => {
                    let p = offset + 2 * (i as usize);
                    let ghost before = out@;
                    out[p] = (word / 256) as u8;
                    out[p + 1] = (word % 256) as u8;
                    proof {
                        assert(out@.subrange(offset as int, orig.len() as int) =~= with_words(tail, self@, start as int, i + 1)) by {
                            assert forall|j: int| 0 <= j < tail.len() implies #[trigger] out@.subrange(offset as int, orig.len() as int)[j]
                                == with_words(tail, self@, start as int, i + 1)[j] by {
                                assert(out@.subrange(offset as int, orig.len() as int)[j] == out@[offset + j]);
                                if j < 2 * i {
                                    assert(before.subrange(offset as int, orig.len() as int)[j] == before[offset + j]);
                                } else if j == 2 * i {
                                    assert(j / 2 == i);
                                } else if j == 2 * i + 1 {
                                    assert(j / 2 == i);
                                } else {
                                    assert(before.subrange(offset as int, orig.len() as int)[j] == before[offset + j]);
                                }
                            }
                        }
                    }
                    i = i + 1;
                },
            }
        }
        proof {
            lemma_run_len(self@, start as int, count as int, count as int);
            if offset == 0 {
                assert(out@.subrange(0, orig.len() as int) =~= out@);
                assert(orig.subrange(0, orig.len() as int) =~= orig);
            }
        }
        let byte_len = 2 * (count as usize);
        Ok(#[verifier::truncate] (byte_len as u8))
    }

    /// Writes `values` to consecutive addresses from `address`, one after
    /// the other; stops with `InvalidAddress` at the first address that
    /// overflows or is not a field (the writes before it stay made).
    /// Fails with `InvalidQuantity`, changing nothing, when `values` is
    /// empty.
    pub fn write_many(&mut self, address: u16, values: &[u16]) -> (r: Result<(), MbusError>)
        requires
            old(self).wf(),
        ensures
            final(self).wf(),
            final(self).spec_addr_min() == old(self).spec_addr_min(),
            final(self).spec_addr_max() == old(self).spec_addr_max(),
            values@.len() == 0 ==> r == Err::<(), MbusError>(MbusError::InvalidQuantity) && *final(self) == *old(self),
            values@.len() > 0 ==> final(self)@ == apply_writes(old(self)@, address, values@, 0).0 && (r is Ok
                <==> apply_writes(old(self)@, address, values@, 0).1) && (r matches Err(e) ==> e
                == MbusError::InvalidAddress),
    {
        if values.len() == 0 {
            return Err(MbusError::InvalidQuantity);
        }
        let mut index: usize = 0;
        while index < values.len()
            invariant
                self.wf(),
                index <= values@.len(),
                self.spec_addr_min() == old(self).spec_addr_min(),
                self.spec_addr_max() == old(self).spec_addr_max(),
                apply_writes(old(self)@, address, values@, 0) == apply_writes(self@, address, values@, index as nat),
            decreases values@.len() - index,
        {
            let step = #[verifier::truncate] (index as u16);
            let cur = match address.checked_add(step) {
                Some(c) => c,
                None => {
                    return Err(MbusError::InvalidAddress);
                },
            };
            match self.write_single(cur, values[index]) {
                Ok(()) => {},
                Err(e) => {
                    return Err(e);
                },
            }
            index = index + 1;
        }
        Ok(())
    }

    /// Number of words from the smallest to the largest address.
    pub fn word_count(&self) -> (r: usize)
        requires
            self.wf(),
        ensures
            r == self.spec_addr_max() - self.spec_addr_min() + 1,
    {
        (self.addr_max - self.addr_min) as usize + 1
    }
}

/// `e` is the error that checking the register layout `s` reports.
pub open spec fn check_register_layout_result(s: Seq<u16>, allow_gaps: bool, e: LayoutError) -> bool {
    match e {
        LayoutError::DuplicateAddress { first, second, address } => crate::maps::layout::is_first_dup_pair(
            s,
            first as int,
            second as int,
        ) && address == s[first as int],
        LayoutError::Gap { current, next } => distinct_addrs(s) && !allow_gaps
            && crate::maps::layout::is_first_gap(s, current, next),
        LayoutError::Empty => distinct_addrs(s) && (allow_gaps || crate::maps::layout::contiguous(s))
            && s.len() == 0,
    }
}

impl FieldMap<bool> {
    /// Lays out a coil model over the field addresses `addrs`, every coil
    /// off. The layout is refused when an address repeats.
    pub fn coils(addrs: &[u16]) -> (r: Result<Self, LayoutError>)
        ensures
            r is Ok <==> distinct_addrs(addrs@),
            r matches Ok(m) ==> m.wf() && m@ == Map::new(|a: u16| addrs@.contains(a), |a: u16| false)
                && (addrs@.len() > 0 ==> addrs@.contains(m.spec_addr_min()) && addrs@.contains(m.spec_addr_max()))
                && (addrs@.len() == 0 ==> m.spec_addr_min() == 0 && m.spec_addr_max() == 0) && (forall|a: u16|
                addrs@.contains(a) ==> m.spec_addr_min() <= a <= m.spec_addr_max()),
            r matches Err(e) ==> e matches LayoutError::DuplicateAddress { first, second, address }
                && crate::maps::layout::is_first_dup_pair(addrs@, first as int, second as int) && address
                == addrs@[first as int],
    {
        match check_coil_layout(addrs) {
            Ok(()) => Ok(Self::build(addrs, false)),
            Err(e) => Err(e),
        }
    }

    /// Packs the coils at `quantity` addresses from `address` into `out`
    /// (first coil in the lowest bit of the first byte) and returns the
    /// byte count.
    ///
    /// Fails with `InvalidQuantity` for a zero quantity, with
    /// `InvalidAddress` for a window outside the model's bounds or with an
    /// address that is not a coil (the packed bytes are then cleared and
    /// hold the coils before it), and with `BufferTooSmall` when `out`
    /// cannot hold the packed bits.
    pub fn encode(&self, address: u16, quantity: u16, out: &mut [u8]) -> (r: Result<u8, MbusError>)
        requires
            self.wf(),
        ensures
            r == coil_read_result(self@, self.spec_addr_min(), self.spec_addr_max(), address, quantity, old(out)@.len() as int),
            coil_read_checks(self.spec_addr_min(), self.spec_addr_max(), address, quantity, old(out)@.len() as int) is Ok
                ==> packs_coils(final(out)@, old(out)@, self@, address as int, run_len(self@, address as int, quantity as int), ceil8(quantity as int)),
            coil_read_checks(self.spec_addr_min(), self.spec_addr_max(), address, quantity, old(out)@.len() as int) is Err
                ==> final(out)@ == old(out)@,
    {
        if quantity == 0 {
            return Err(MbusError::InvalidQuantity);
        }
        let req_start = address as usize;
        let qty = quantity as usize;
        let req_end = req_start + qty;
        let map_start = self.addr_min as usize;
        let map_end = self.addr_max as usize + 1;
        if req_start < map_start || req_end > map_end {
            return Err(MbusError::InvalidAddress);
        }
        let byte_len = (qty + 7) / 8;
        if out.len() < byte_len {
            return Err(MbusError::BufferTooSmall);
        }
        let ghost orig = out@;
        let mut b: usize = 0;
        while b < byte_len
            invariant
                orig == old(out)@,
                b <= byte_len <= orig.len(),
                out@.len() == orig.len(),
                forall|i: int| b <= i < orig.len() ==> out@[i] == orig[i],
                forall|i: int| 0 <= i < b ==> out@[i] == 0u8,
            decreases byte_len - b,
        {
            out[b] = 0;
            b = b + 1;
        }
        proof {
            assert forall|bb: int, k: int| 0 <= bb < byte_len && 0 <= k < 8 implies #[trigger] bit_set(out@[bb], k) == (8 * bb
                + k < 0 && self@[(address + 8 * bb + k) as u16]) by {
                lemma_zero_bits(k);
            }
        }
        let mut index: usize = 0;
        while index < qty
            invariant
                self.wf(),
                qty == quantity,
                req_start == address,
                orig == old(out)@,
                address >= self.spec_addr_min(),
                address + qty <= self.spec_addr_max() + 1,
                byte_len == ceil8(qty as int),
                byte_len <= orig.len(),
                address + qty <= u16::MAX + 1,
                index <= qty,
                out@.len() == orig.len(),
                forall|i: int| byte_len <= i < orig.len() ==> out@[i] == orig[i],
                forall|k: int| 0 <= k < index ==> #[trigger] present(self@, address + k),
                forall|bb: int, k: int|
                    0 <= bb < byte_len && 0 <= k < 8 ==> #[trigger] bit_set(out@[bb], k) == (8 * bb + k < index
                        && self@[(address + 8 * bb + k) as u16]),
            decreases qty - index,
        {
            let cur = (req_start + index) as u16;
            assert(cur == address + index);
            let value = match self.get(cur) {
                Some(v) => v,
                None => {
                    proof {
                        assert(!present(self@, address + index));
                        lemma_run_len(self@, address as int, quantity as int, index as int);
                    }
                    return Err(MbusError::InvalidAddress);
                },
            };
            let j = index / 8;
            let kk = (index % 8) as u8;
            if value {
                let ghost before = out@;
                out[j] = out[j] | (1u8 << kk);
                proof {
                    assert forall|bb: int, k: int| 0 <= bb < byte_len && 0 <= k < 8 implies #[trigger] bit_set(out@[bb], k)
                        == (8 * bb + k < index + 1 && self@[(address + 8 * bb + k) as u16]) by {
                        if bb == j {
                            lemma_bit_ops(before[bb], kk, k as u8);
                            if k == kk {
                                assert(8 * bb + k == index);
                            } else {
                                assert(bit_set(before[bb], k) == (8 * bb + k < index && self@[(address + 8 * bb + k) as u16]));
                            }
                        } else {
                            assert(out@[bb] == before[bb]);
                            assert(bit_set(before[bb], k) == (8 * bb + k < index && self@[(address + 8 * bb + k) as u16]));
                            assert(8 * bb + k != index);
                        }
                    }
                }
            } else {
                proof {
                    assert forall|bb: int, k: int| 0 <= bb < byte_len && 0 <= k < 8 implies #[trigger] bit_set(out@[bb], k)
                        == (8 * bb + k < index + 1 && self@[(address + 8 * bb + k) as u16]) by {
                        assert(bit_set(out@[bb], k) == (8 * bb + k < index && self@[(address + 8 * bb + k) as u16]));
                        if 8 * bb + k == index {
                            assert((address + 8 * bb + k) as u16 == cur);
                        }
                    }
                }
            }
            index = index + 1;
        }
        proof {
            lemma_run_len(self@, address as int, quantity as int, quantity as int);
        }
        Ok(#[verifier::truncate] (byte_len as u8))
    }

    /// Writes `quantity` coils from `address`, taking their values from the
    /// bits of `values` starting at bit `packed_bit_offset`, one after the
    /// other.
    ///
    /// Fails, changing nothing, with `InvalidQuantity` for a zero quantity
    /// and with `InvalidAddress` when the window overflows or leaves the
    /// model's bounds. A bit past the end of `values` stops the writes with
    /// `InvalidByteCount`, an address that is not a coil with
    /// `InvalidAddress`; the writes before it stay made.
    pub fn write_many_from_packed(&mut self, address: u16, quantity: u16, values: &[u8], packed_bit_offset: usize) -> (r: Result<(), MbusError>)
        requires
            old(self).wf(),
            packed_bit_offset + quantity <= usize::MAX,
        ensures
            final(self).wf(),
            final(self).spec_addr_min() == old(self).spec_addr_min(),
            final(self).spec_addr_max() == old(self).spec_addr_max(),
            quantity == 0 ==> r == Err::<(), MbusError>(MbusError::InvalidQuantity) && final(self)@ == old(self)@,
            quantity > 0 && (address + quantity - 1 > u16::MAX || address < old(self).spec_addr_min() || address
                + quantity - 1 > old(self).spec_addr_max()) ==> r == Err::<(), MbusError>(MbusError::InvalidAddress)
                && final(self)@ == old(self)@,
            quantity > 0 && address + quantity - 1 <= old(self).spec_addr_max() && address >= old(self).spec_addr_min()
                ==> (final(self)@, r) == apply_packed_writes(old(self)@, address, quantity as int, values@, packed_bit_offset as int, 0),
    {
        if quantity == 0 {
            return Err(MbusError::InvalidQuantity);
        }
        let end_addr = match address.checked_add(quantity - 1) {
            Some(e) => e,
            None => {
                return Err(MbusError::InvalidAddress);
            },
        };
        if address < self.addr_min || end_addr > self.addr_max {
            return Err(MbusError::InvalidAddress);
        }
        let mut index: usize = 0;
        while index < quantity as usize
            invariant
                self.wf(),
                index <= quantity,
                address + quantity - 1 <= u16::MAX,
                address >= self.spec_addr_min(),
                address + quantity - 1 <= self.spec_addr_max(),
                packed_bit_offset + quantity <= usize::MAX,
                self.spec_addr_min() == old(self).spec_addr_min(),
                self.spec_addr_max() == old(self).spec_addr_max(),
                apply_packed_writes(old(self)@, address, quantity as int, values@, packed_bit_offset as int, 0)
                    == apply_packed_writes(self@, address, quantity as int, values@, packed_bit_offset as int, index as int),
            decreases quantity - index,
        {
            let absolute_bit = packed_bit_offset + index;
            let byte_index = absolute_bit / 8;
            if byte_index >= values.len() {
                return Err(MbusError::InvalidByteCount);
            }
            let bit_mask = 1u8 << ((absolute_bit % 8) as u8);
            let value = values[byte_index] & bit_mask != 0;
            assert(value == packed_bit(values@, packed_bit_offset + index));
            match self.write_single(address + index as u16, value) {
                Ok(()) => {},
                Err(e) => {
                    return Err(e);
                },
            }
            index = index + 1;
        }
        Ok(())
    }

    /// Number of coils from the smallest to the largest address.
    pub fn bit_count(&self) -> (r: usize)
        requires
            self.wf(),
        ensures
            r == self.spec_addr_max() - self.spec_addr_min() + 1,
    {
        (self.addr_max - self.addr_min) as usize + 1
    }
}

} // verus!
