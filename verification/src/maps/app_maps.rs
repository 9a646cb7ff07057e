//! The data models of one server application, grouped by data domain, with
//! each request routed by address to the model whose range holds it; reads
//! and writes that span several models are served model by model.

use vstd::prelude::*;

use crate::errors::MbusError;
use crate::maps::field_map::{apply_packed_writes, apply_writes, packs_coils, present, run_len, with_words, CoilModel, FieldMap, RegisterModel};
use crate::models::bits::{bit_set, ceil8, lemma_bit_ops};

verus! {

/// The group of models a layout error is about.
#[derive(Debug, Clone, Copy, PartialEq, Eq, Structural)]
pub enum DataDomain {
    /// Holding registers.
    HoldingRegisters,
    /// Input registers.
    InputRegisters,
    /// Coils.
    Coils,
}

/// Why a set of models does not make a valid application.
#[derive(Debug, Clone, Copy, PartialEq, Eq, Structural)]
pub enum AppLayoutError {
    /// No model was given at all.
    NoMaps,
    /// In `domain`, the ranges of the models at positions `first < second` overlap.
    Overlap { domain: DataDomain, first: usize, second: usize },
    /// In `domain`, the model at `index` starts above the one after it.
    Unordered { domain: DataDomain, index: usize },
}

/// Model `i` of `banks` exists and its range holds `a`.
pub open spec fn covers<V>(banks: Seq<FieldMap<V>>, i: int, a: int) -> bool {
    0 <= i < banks.len() && banks[i].spec_addr_min() <= a <= banks[i].spec_addr_max()
}

/// Some model's range holds `a`.
pub open spec fn covered<V>(banks: Seq<FieldMap<V>>, a: int) -> bool {
    exists|i: int| #[trigger] covers(banks, i, a)
}

/// The model whose range holds `a`.
pub open spec fn bank_for<V>(banks: Seq<FieldMap<V>>, a: int) -> int {
    choose|i: int| #[trigger] covers(banks, i, a)
}

/// The ranges of models `i` and `j` do not overlap.
pub open spec fn apart<V>(banks: Seq<FieldMap<V>>, i: int, j: int) -> bool {
    banks[i].spec_addr_max() < banks[j].spec_addr_min() || banks[j].spec_addr_max() < banks[i].spec_addr_min()
}

/// Every model is well formed, and the ranges come in ascending order
/// without overlapping.
pub open spec fn banks_ok<V: Copy>(banks: Seq<FieldMap<V>>) -> bool {
    &&& forall|i: int| 0 <= i < banks.len() ==> #[trigger] banks[i].wf()
    &&& forall|i: int, j: int| 0 <= i < j < banks.len() ==> #[trigger] banks[i].spec_addr_max() < #[trigger] banks[j].spec_addr_min()
}

/// The values of a domain: each address that a model holds, with its value
/// there.
pub open spec fn domain_view<V>(banks: Seq<FieldMap<V>>) -> Map<u16, V> {
    Map::new(
        |a: u16| covered(banks, a as int) && banks[bank_for(banks, a as int)]@.dom().contains(a),
        |a: u16| banks[bank_for(banks, a as int)]@[a],
    )
}

/// In well-ordered models, the range holding an address is unique.
proof fn lemma_bank_for<V: Copy>(banks: Seq<FieldMap<V>>, i: int, a: int)
    requires
        banks_ok(banks),
        covers(banks, i, a),
    ensures
        bank_for(banks, a) == i,
{
    let k = bank_for(banks, a);
    assert(covers(banks, k, a));
    if k < i {
        assert(banks[k].spec_addr_max() < banks[i].spec_addr_min());
    } else if i < k {
        assert(banks[i].spec_addr_max() < banks[k].spec_addr_min());
    }
}

/// Within the range of model `i`, the domain holds exactly what model `i`
/// holds.
proof fn lemma_domain_in_bank<V: Copy>(banks: Seq<FieldMap<V>>, i: int, a: int)
    requires
        banks_ok(banks),
        covers(banks, i, a),
    ensures
        present(domain_view(banks), a) == present(banks[i]@, a),
        present(banks[i]@, a) ==> domain_view(banks)[a as u16] == banks[i]@[a as u16],
{
    lemma_bank_for(banks, i, a);
}

/// An address outside every range is not in the domain.
proof fn lemma_domain_uncovered<V: Copy>(banks: Seq<FieldMap<V>>, a: int)
    requires
        !covered(banks, a),
    ensures
        !present(domain_view(banks), a),
{
}

/// The first model, in order, whose range holds `cursor`.
fn find_bank<V: Copy>(banks: &Vec<FieldMap<V>>, cursor: u16) -> (r: Option<usize>)
    requires
        banks_ok(banks@),
    ensures
        r is None <==> !covered(banks@, cursor as int),
        r matches Some(i) ==> covers(banks@, i as int, cursor as int),
{
    let mut i: usize = 0;
    while i < banks.len()
        invariant
            i <= banks@.len(),
            banks_ok(banks@),
            forall|j: int| 0 <= j < i ==> !covers(banks@, j, cursor as int),
        decreases banks@.len() - i,
    {
        if banks[i].addr_min() <= cursor && cursor <= banks[i].addr_max() {
            assert(covers(banks@, i as int, cursor as int));
            return Some(i);
        }
        i = i + 1;
    }
    proof {
        assert forall|j: int| !(#[trigger] covers(banks@, j, cursor as int)) by {
            if 0 <= j < banks@.len() {
            }
        }
    }
    None
}

/// The outcome of a register read over the models of a domain: a zero
/// quantity is refused, the output must hold two bytes per word, every
/// address of the window must hold a word, and the address after the
/// window must still be a 16-bit address.
pub open spec fn registers_read_result(dv: Map<u16, u16>, address: u16, quantity: u16, out_len: int) -> Result<u8, MbusError> {
    if quantity == 0 {
        Err(MbusError::InvalidQuantity)
    } else if out_len < 2 * quantity {
        Err(MbusError::BufferTooSmall)
    } else if run_len(dv, address as int, quantity as int) < quantity || address + quantity > u16::MAX {
        Err(MbusError::InvalidAddress)
    } else {
        Ok((2 * quantity) as u8)
    }
}

/// How many words a register read over a domain writes: the leading run of
/// held addresses, once the quantity and the output size are accepted.
pub open spec fn registers_read_written(dv: Map<u16, u16>, address: u16, quantity: u16, out_len: int) -> int {
    if quantity == 0 || out_len < 2 * quantity {
        0
    } else {
        run_len(dv, address as int, quantity as int)
    }
}

/// Two maps that agree on which addresses they hold, and on the values
/// there, over a window, have the same leading run in it.
proof fn lemma_run_len_agree<V>(m1: Map<u16, V>, m2: Map<u16, V>, start: int, count: int)
    requires
        forall|k: int| 0 <= k < count ==> #[trigger] present(m1, start + k) == present(m2, start + k),
    ensures
        run_len(m1, start, count) == run_len(m2, start, count),
    decreases count,
{
    if count > 0 {
        assert(present(m1, start + 0) == present(m2, start + 0));
        assert(start + 0 == start);
        assert forall|k: int| 0 <= k < count - 1 implies #[trigger] present(m1, (start + 1) + k) == present(
            m2,
            (start + 1) + k,
        ) by {
            assert(present(m1, start + (k + 1)) == present(m2, start + (k + 1)));
            assert(start + (k + 1) == (start + 1) + k);
        }
        lemma_run_len_agree(m1, m2, start + 1, count - 1);
    }
}

/// `run_len` never exceeds the window and all of its addresses are held.
proof fn lemma_run_len_bounds<V>(m: Map<u16, V>, start: int, count: int)
    requires
        count >= 0,
    ensures
        0 <= run_len(m, start, count) <= count,
        forall|k: int| 0 <= k < run_len(m, start, count) ==> #[trigger] present(m, start + k),
        run_len(m, start, count) < count ==> !present(m, start + run_len(m, start, count)),
    decreases count,
{
    if count > 0 && present(m, start) {
        lemma_run_len_bounds(m, start + 1, count - 1);
        assert forall|k: int| 0 <= k < run_len(m, start, count) implies #[trigger] present(m, start + k) by {
            if k > 0 {
                assert(present(m, (start + 1) + (k - 1)));
                assert((start + 1) + (k - 1) == start + k);
            } else {
                assert(start + 0 == start);
            }
        }
        assert(start + run_len(m, start, count) == (start + 1) + run_len(m, start + 1, count - 1));
    } else if count > 0 {
        assert(start + 0 == start);
    }
}

/// Reads `quantity` words from `address` over the models of one domain.
fn read_registers(banks: &Vec<FieldMap<u16>>, address: u16, quantity: u16, out: &mut [u8]) -> (r: Result<u8, MbusError>)
    requires
        banks_ok(banks@),
    ensures
        r == registers_read_result(domain_view(banks@), address, quantity, old(out)@.len() as int),
        final(out)@ == with_words(old(out)@, domain_view(banks@), address as int, registers_read_written(domain_view(banks@), address, quantity, old(out)@.len() as int)),
{
    let ghost dv = domain_view(banks@);
    let ghost orig = out@;
    if quantity == 0 {
        assert(out@ =~= with_words(orig, dv, address as int, 0));
        return Err(MbusError::InvalidQuantity);
    }
    let total_bytes = (quantity as usize) * 2;
    if out.len() < total_bytes {
        assert(out@ =~= with_words(orig, dv, address as int, 0));
        return Err(MbusError::BufferTooSmall);
    }
    let mut cursor: u16 = address;
    let mut remaining: u16 = quantity;
    let mut write_offset: usize = 0;
    assert(out@ =~= with_words(orig, dv, address as int, 0));
    while remaining > 0
        invariant
            banks_ok(banks@),
            dv == domain_view(banks@),
            orig == old(out)@,
            orig.len() == old(out)@.len(),
            quantity > 0,
            2 * quantity <= orig.len(),
            orig.len() <= usize::MAX,
            remaining <= quantity,
            cursor == address + (quantity - remaining),
            write_offset == 2 * (quantity - remaining),
            forall|k: int| 0 <= k < quantity - remaining ==> #[trigger] present(dv, address + k),
            out@ == with_words(orig, dv, address as int, quantity - remaining),
        decreases remaining,
    {
        let ghost done: int = quantity - remaining;
        let i = match find_bank(banks, cursor) {
            Some(i) => i,
            None => {
                proof {
                    lemma_domain_uncovered(banks@, cursor as int);
                    crate::maps::field_map::lemma_run_len(dv, address as int, quantity as int, done);
                }
                return Err(MbusError::InvalidAddress);
            },
        };
        let map_max = banks[i].addr_max();
        let available = (map_max - cursor).saturating_add(1);
        let take = if remaining < available {
            remaining
        } else {
            available
        };
        let next_offset = write_offset + 2 * (take as usize);
        let ghost bank = banks@[i as int];
        proof {
            bank.lemma_bounds();
            assert forall|k: int| 0 <= k < take implies #[trigger] present(bank@, cursor + k) == present(dv, cursor + k) by {
                assert(covers(banks@, i as int, cursor + k));
                lemma_domain_in_bank(banks@, i as int, cursor + k);
            }
            lemma_run_len_agree(bank@, dv, cursor as int, take as int);
            lemma_run_len_bounds(dv, cursor as int, take as int);
        }
        let ghost before = out@;
        let seg = banks[i].write_words(cursor, take, out, write_offset);
        let ghost run = run_len(dv, cursor as int, take as int);
        proof {
            assert forall|j: int| 0 <= j < orig.len() implies #[trigger] out@[j] == with_words(orig, dv, address as int, done + run)[j] by {
                if j < write_offset {
                    assert(out@[j] == before[j]);
                } else {
                    let jj = j - write_offset;
                    assert(out@.subrange(write_offset as int, orig.len() as int)[jj] == out@[j]);
                    assert(before.subrange(write_offset as int, orig.len() as int)[jj] == before[j]);
                    if jj < 2 * run {
                        assert(jj / 2 < run);
                        assert(cursor + jj / 2 == address + j / 2);
                        assert(covers(banks@, i as int, cursor + jj / 2));
                        lemma_domain_in_bank(banks@, i as int, cursor + jj / 2);
                        assert(present(dv, cursor + jj / 2));
                    }
                }
            }
            assert(out@ =~= with_words(orig, dv, address as int, done + run));
        }
        match seg {
            Ok(_) => {},
            Err(e) => {
                proof {
                    assert forall|k: int| 0 <= k < done + run implies #[trigger] present(dv, address + k) by {
                        if k >= done {
                            assert(present(dv, cursor + (k - done)));
                            assert(cursor + (k - done) == address + k);
                        }
                    }
                    assert(!present(dv, cursor + run));
                    assert(cursor + run == address + (done + run));
                    crate::maps::field_map::lemma_run_len(dv, address as int, quantity as int, done + run);
                }
                return Err(e);
            },
        }
        proof {
            assert forall|k: int| 0 <= k < done + take implies #[trigger] present(dv, address + k) by {
                if k >= done {
                    assert(present(dv, cursor + (k - done)));
                    assert(cursor + (k - done) == address + k);
                }
            }
        }
        cursor = match cursor.checked_add(take) {
            Some(c) => c,
            None => {
                proof {
                    crate::maps::field_map::lemma_run_len(dv, address as int, quantity as int, done + take);
                }
                return Err(MbusError::InvalidAddress);
            },
        };
        remaining = remaining - take;
        write_offset = next_offset;
    }
    proof {
        crate::maps::field_map::lemma_run_len(dv, address as int, quantity as int, quantity as int);
    }
    Ok(#[verifier::truncate] (total_bytes as u8))
}

/// The number of addresses that the segment starting at `cursor` takes from
/// the `remaining` ones: up to the end of the range holding `cursor`, the
/// count kept to 16 bits.
pub open spec fn seg_take<V>(banks: Seq<FieldMap<V>>, cursor: int, remaining: int) -> int {
    let avail = banks[bank_for(banks, cursor)].spec_addr_max() - cursor + 1;
    let avail16 = if avail > u16::MAX {
        u16::MAX as int
    } else {
        avail
    };
    if remaining < avail16 {
        remaining
    } else {
        avail16
    }
}

/// How many coils, from `cursor` on, a coil read copies out: whole
/// segments, one per range, as long as every address of the segment is a
/// coil.
pub open spec fn coils_copied(banks: Seq<FieldMap<bool>>, cursor: int, remaining: int) -> int
    decreases remaining,
{
    if remaining <= 0 || !covered(banks, cursor) {
        0
    } else {
        let take = seg_take(banks, cursor, remaining);
        if take <= 0 || run_len(domain_view(banks), cursor, take) < take {
            0
        } else {
            take + coils_copied(banks, cursor + take, remaining - take)
        }
    }
}

/// Every segment that a coil read packs on its way packs into at most
/// 252 bytes (2016 coils).
pub open spec fn coil_segments_fit(banks: Seq<FieldMap<bool>>, cursor: int, remaining: int) -> bool
    decreases remaining,
{
    if remaining <= 0 || !covered(banks, cursor) {
        true
    } else {
        let take = seg_take(banks, cursor, remaining);
        if take <= 0 {
            true
        } else if ceil8(take) > 252 {
            false
        } else if run_len(domain_view(banks), cursor, take) < take {
            true
        } else {
            coil_segments_fit(banks, cursor + take, remaining - take)
        }
    }
}

/// The outcome of a coil read over the models of a domain: a zero quantity
/// is refused, the output must hold the packed bits, every address of the
/// window must be a coil, and the address after the window must still be a
/// 16-bit address.
pub open spec fn coils_read_result(dv: Map<u16, bool>, address: u16, quantity: u16, out_len: int) -> Result<u8, MbusError> {
    if quantity == 0 {
        Err(MbusError::InvalidQuantity)
    } else if out_len < ceil8(quantity as int) {
        Err(MbusError::BufferTooSmall)
    } else if run_len(dv, address as int, quantity as int) < quantity || address + quantity > u16::MAX {
        Err(MbusError::InvalidAddress)
    } else {
        Ok(ceil8(quantity as int) as u8)
    }
}

/// Sets bit `pos % 8` of byte `pos / 8`.
fn set_packed_bit(out: &mut [u8], pos: usize)
    requires
        pos / 8 < old(out)@.len(),
    ensures
        final(out)@.len() == old(out)@.len(),
        forall|b: int| 0 <= b < old(out)@.len() && b != pos / 8 ==> final(out)@[b] == old(out)@[b],
        forall|k: int| 0 <= k < 8 ==> #[trigger] bit_set(final(out)@[(pos / 8) as int], k) == (k == pos % 8 || bit_set(old(out)@[(pos / 8) as int], k)),
{
    let j = pos / 8;
    let kk = (pos % 8) as u8;
    let ghost before = out@[j as int];
    out[j] = out[j] | (1u8 << kk);
    proof {
        assert forall|k: int| 0 <= k < 8 implies #[trigger] bit_set(out@[(pos / 8) as int], k) == (k == pos % 8 || bit_set(before, k)) by {
            lemma_bit_ops(before, kk, k as u8);
        }
    }
}

/// Reads `quantity` coils from `address` over the models of one domain.
fn read_coils(banks: &Vec<FieldMap<bool>>, address: u16, quantity: u16, out: &mut [u8]) -> (r: Result<u8, MbusError>)
    requires
        banks_ok(banks@),
    ensures
        r == coils_read_result(domain_view(banks@), address, quantity, old(out)@.len() as int),
        quantity > 0 && old(out)@.len() >= ceil8(quantity as int) ==> packs_coils(final(out)@, old(out)@, domain_view(banks@), address as int, coils_copied(banks@, address as int, quantity as int), ceil8(quantity as int)),
        !(quantity > 0 && old(out)@.len() >= ceil8(quantity as int)) ==> final(out)@ == old(out)@,
{
    let ghost dv = domain_view(banks@);
    let ghost orig = out@;
    if quantity == 0 {
        return Err(MbusError::InvalidQuantity);
    }
    let total_bytes = (quantity as usize + 7) / 8;
    if out.len() < total_bytes {
        return Err(MbusError::BufferTooSmall);
    }
    let mut b: usize = 0;
    while b < total_bytes
        invariant
            orig == old(out)@,
            b <= total_bytes <= orig.len(),
            out@.len() == orig.len(),
            forall|i: int| b <= i < orig.len() ==> out@[i] == orig[i],
            forall|i: int| 0 <= i < b ==> out@[i] == 0u8,
        decreases total_bytes - b,
    {
        out[b] = 0;
        b = b + 1;
    }
    proof {
        assert forall|bb: int, k: int| 0 <= bb < total_bytes && 0 <= k < 8 implies #[trigger] bit_set(out@[bb], k) == (8 * bb
            + k < 0 && dv[(address + 8 * bb + k) as u16]) by {
            let kk = k as u8;
            assert(0u8 & (1u8 << kk) == 0) by (bit_vector);
        }
    }
    let mut cursor: u16 = address;
    let mut remaining: u16 = quantity;
    let mut bit_offset: usize = 0;
    while remaining > 0
        invariant
            banks_ok(banks@),
            dv == domain_view(banks@),
            orig == old(out)@,
            quantity > 0,
            total_bytes == ceil8(quantity as int),
            total_bytes <= orig.len(),
            out@.len() == orig.len(),
            remaining <= quantity,
            cursor == address + (quantity - remaining),
            bit_offset == quantity - remaining,
            coils_copied(banks@, address as int, quantity as int) == (quantity - remaining) + coils_copied(banks@, cursor as int, remaining as int),
            forall|k: int| 0 <= k < quantity - remaining ==> #[trigger] present(dv, address + k),
            forall|i: int| total_bytes <= i < orig.len() ==> out@[i] == orig[i],
            forall|bb: int, k: int|
                0 <= bb < total_bytes && 0 <= k < 8 ==> #[trigger] bit_set(out@[bb], k) == (8 * bb + k < quantity - remaining
                    && dv[(address + 8 * bb + k) as u16]),
        decreases remaining,
    {
        let ghost done: int = quantity - remaining;
        let i = match find_bank(banks, cursor) {
            Some(i) => i,
            None => {
                proof {
                    lemma_domain_uncovered(banks@, cursor as int);
                    crate::maps::field_map::lemma_run_len(dv, address as int, quantity as int, done);
                }
                return Err(MbusError::InvalidAddress);
            },
        };
        let map_max = banks[i].addr_max();
        let available = (map_max - cursor).saturating_add(1);
        let take = if remaining < available {
            remaining
        } else {
            available
        };
        proof {
            lemma_bank_for(banks@, i as int, cursor as int);
            assert(take == seg_take(banks@, cursor as int, remaining as int));
        }
        let mut index: u16 = 0;
        while index < take
            invariant
                banks_ok(banks@),
                dv == domain_view(banks@),
                i < banks@.len(),
                covers(banks@, i as int, cursor as int),
                cursor + take - 1 <= banks@[i as int].spec_addr_max(),
                cursor == address + done,
                0 <= done,
                done + take <= quantity,
                quantity > 0,
                orig == old(out)@,
                total_bytes == ceil8(quantity as int),
                total_bytes <= orig.len(),
                forall|k: int| 0 <= k < done ==> #[trigger] present(dv, address + k),
                index <= take,
                forall|k: int| 0 <= k < index ==> #[trigger] present(dv, cursor + k),
                remaining == quantity - done,
                take == seg_take(banks@, cursor as int, remaining as int),
                0 < take <= remaining,
                coils_copied(banks@, address as int, quantity as int) == done + coils_copied(banks@, cursor as int, remaining as int),
                out@.len() == orig.len(),
                forall|i: int| total_bytes <= i < orig.len() ==> out@[i] == orig[i],
                forall|bb: int, k: int|
                    0 <= bb < total_bytes && 0 <= k < 8 ==> #[trigger] bit_set(out@[bb], k) == (8 * bb + k < done
                        && dv[(address + 8 * bb + k) as u16]),
            decreases take - index,
        {
            match banks[i].get(cursor + index) {
                Some(_) => {},
                None => {
                    proof {
                        assert(covers(banks@, i as int, cursor + index));
                        lemma_domain_in_bank(banks@, i as int, cursor + index);
                        crate::maps::field_map::lemma_run_len(dv, cursor as int, take as int, index as int);
                        assert forall|k: int| 0 <= k < done + index implies #[trigger] present(dv, address + k) by {
                            if k >= done {
                                assert(present(dv, cursor + (k - done)));
                                assert(cursor + (k - done) == address + k);
                            }
                        }
                        assert(cursor + index == address + (done + index));
                        crate::maps::field_map::lemma_run_len(dv, address as int, quantity as int, done + index);
                        assert(covers(banks@, i as int, cursor as int));
                        assert(coils_copied(banks@, cursor as int, remaining as int) == 0);
                    }
                    return Err(MbusError::InvalidAddress);
                },
            }
            proof {
                assert(covers(banks@, i as int, cursor + index));
                lemma_domain_in_bank(banks@, i as int, cursor + index);
            }
            index = index + 1;
        }
        proof {
            crate::maps::field_map::lemma_run_len(dv, cursor as int, take as int, take as int);
        }
        let mut index: u16 = 0;
        while index < take
            invariant
                banks_ok(banks@),
                dv == domain_view(banks@),
                i < banks@.len(),
                covers(banks@, i as int, cursor as int),
                cursor + take - 1 <= banks@[i as int].spec_addr_max(),
                cursor == address + done,
                bit_offset == done,
                done + take <= quantity,
                total_bytes == ceil8(quantity as int),
                total_bytes <= orig.len(),
                out@.len() == orig.len(),
                index <= take,
                forall|k: int| 0 <= k < take ==> #[trigger] present(dv, cursor + k),
                forall|i: int| total_bytes <= i < orig.len() ==> out@[i] == orig[i],
                forall|bb: int, k: int|
                    0 <= bb < total_bytes && 0 <= k < 8 ==> #[trigger] bit_set(out@[bb], k) == (8 * bb + k < done + index
                        && dv[(address + 8 * bb + k) as u16]),
            decreases take - index,
        {
            let value = match banks[i].get(cursor + index) {
                Some(v) => v,
                None => false,
            };
            proof {
                assert(covers(banks@, i as int, cursor + index));
                lemma_domain_in_bank(banks@, i as int, cursor + index);
                assert(present(dv, cursor + index));
                assert(value == dv[(cursor + index) as u16]);
            }
            let pos = bit_offset + index as usize;
            let ghost before = out@;
            if value {
                set_packed_bit(out, pos);
            }
            proof {
                assert forall|bb: int, k: int| 0 <= bb < total_bytes && 0 <= k < 8 implies #[trigger] bit_set(out@[bb], k)
                    == (8 * bb + k < done + index + 1 && dv[(address + 8 * bb + k) as u16]) by {
                    assert(bit_set(before[bb], k) == (8 * bb + k < done + index && dv[(address + 8 * bb + k) as u16]));
                    if 8 * bb + k == pos {
                        assert(bb == pos / 8 && k == pos % 8);
                        assert((address + 8 * bb + k) as u16 == (cursor + index) as u16);
                    } else if value && bb == pos / 8 {
                        assert(k != pos % 8);
                    }
                }
            }
            index = index + 1;
        }
        proof {
            assert forall|k: int| 0 <= k < done + take implies #[trigger] present(dv, address + k) by {
                if k >= done {
                    assert(present(dv, cursor + (k - done)));
                    assert(cursor + (k - done) == address + k);
                }
            }
            assert(coils_copied(banks@, cursor as int, remaining as int) == take + coils_copied(banks@, cursor + take, remaining - take));
        }
        cursor = match cursor.checked_add(take) {
            Some(c) => c,
            None => {
                proof {
                    crate::maps::field_map::lemma_run_len(dv, address as int, quantity as int, done + take);
                    assert(!covered(banks@, cursor + take));
                }
                return Err(MbusError::InvalidAddress);
            },
        };
        remaining = remaining - take;
        bit_offset = bit_offset + take as usize;
    }
    proof {
        crate::maps::field_map::lemma_run_len(dv, address as int, quantity as int, quantity as int);
    }
    Ok(#[verifier::truncate] (total_bytes as u8))
}

/// The ranges of models `i < j` overlap, and no earlier pair (by `i`, then
/// by `j`) does.
pub open spec fn is_first_overlap<V>(banks: Seq<FieldMap<V>>, i: int, j: int) -> bool {
    &&& 0 <= i < j < banks.len()
    &&& !apart(banks, i, j)
    &&& forall|i2: int, j2: int| 0 <= i2 < j2 < banks.len() && (i2 < i || (i2 == i && j2 < j)) ==> #[trigger] apart(banks, i2, j2)
}

/// No two ranges overlap.
pub open spec fn all_apart<V>(banks: Seq<FieldMap<V>>) -> bool {
    forall|i: int, j: int| 0 <= i < j < banks.len() ==> #[trigger] apart(banks, i, j)
}

/// Each model starts no higher than the next one.
pub open spec fn mins_ascending<V>(banks: Seq<FieldMap<V>>) -> bool {
    forall|i: int| 0 <= i < banks.len() - 1 ==> #[trigger] banks[i].spec_addr_min() <= banks[i + 1].spec_addr_min()
}

/// Model `i` starts above model `i + 1`, and no earlier one does so.
pub open spec fn is_first_unordered<V>(banks: Seq<FieldMap<V>>, i: int) -> bool {
    &&& 0 <= i < banks.len() - 1
    &&& banks[i].spec_addr_min() > banks[i + 1].spec_addr_min()
    &&& forall|k: int| 0 <= k < i ==> #[trigger] banks[k].spec_addr_min() <= banks[k + 1].spec_addr_min()
}

/// The first overlapping pair of ranges, if any.
fn find_overlap<V: Copy>(banks: &Vec<FieldMap<V>>) -> (r: Option<(usize, usize)>)
    ensures
        r is None <==> all_apart(banks@),
        r matches Some((i, j)) ==> is_first_overlap(banks@, i as int, j as int),
{
    let mut i: usize = 0;
    while i < banks.len()
        invariant
            i <= banks@.len(),
            forall|i2: int, j2: int| 0 <= i2 < i && i2 < j2 < banks@.len() ==> #[trigger] apart(banks@, i2, j2),
        decreases banks@.len() - i,
    {
        let mut j: usize = i + 1;
        while j < banks.len()
            invariant
                i < banks@.len(),
                i + 1 <= j <= banks@.len(),
                forall|i2: int, j2: int| 0 <= i2 < i && i2 < j2 < banks@.len() ==> #[trigger] apart(banks@, i2, j2),
                forall|j2: int| i < j2 < j ==> #[trigger] apart(banks@, i as int, j2),
            decreases banks@.len() - j,
        {
            if !(banks[i].addr_max() < banks[j].addr_min() || banks[j].addr_max() < banks[i].addr_min()) {
                assert(!apart(banks@, i as int, j as int));
                return Some((i, j));
            }
            j = j + 1;
        }
        i = i + 1;
    }
    None
}

/// The first model that starts above its successor, if any.
fn find_unordered<V: Copy>(banks: &Vec<FieldMap<V>>) -> (r: Option<usize>)
    ensures
        r is None <==> mins_ascending(banks@),
        r matches Some(i) ==> is_first_unordered(banks@, i as int),
{
    let mut i: usize = 0;
    while i < banks.len() && banks.len() - i > 1
        invariant
            i <= banks@.len(),
            forall|k: int| 0 <= k < i ==> #[trigger] banks@[k].spec_addr_min() <= banks@[k + 1].spec_addr_min(),
        decreases banks@.len() - i,
    {
        if banks[i].addr_min() > banks[i + 1].addr_min() {
            return Some(i);
        }
        i = i + 1;
    }
    None
}

/// Models that are well formed, pairwise apart and in ascending order of
/// their smallest address have their ranges strictly in order.
proof fn lemma_ranges_in_order<V: Copy>(banks: Seq<FieldMap<V>>)
    requires
        forall|i: int| 0 <= i < banks.len() ==> #[trigger] banks[i].wf(),
        all_apart(banks),
        mins_ascending(banks),
    ensures
        banks_ok(banks),
{
    assert forall|i: int, j: int| 0 <= i < j < banks.len() implies #[trigger] banks[i].spec_addr_max() < #[trigger] banks[j].spec_addr_min() by {
        lemma_mins_ascending(banks, i, j);
        banks[j].lemma_bounds();
        assert(apart(banks, i, j));
        if banks[j].spec_addr_max() < banks[i].spec_addr_min() {
            if exists|a: u16| #[trigger] banks[j]@.dom().contains(a) {
                assert(banks[j]@.dom().contains(banks[j].spec_addr_min()));
            }
        }
    }
}

/// Ascending neighbours make ascending pairs.
proof fn lemma_mins_ascending<V>(banks: Seq<FieldMap<V>>, i: int, j: int)
    requires
        mins_ascending(banks),
        0 <= i <= j < banks.len(),
    ensures
        banks[i].spec_addr_min() <= banks[j].spec_addr_min(),
    decreases j - i,
{
    if i < j {
        lemma_mins_ascending(banks, i, j - 1);
        assert(banks[j - 1].spec_addr_min() <= banks[(j - 1) + 1].spec_addr_min());
    }
}

/// Two groups of models with the same ranges and the same addresses; only
/// the stored values may differ.
pub open spec fn same_layout<V: Copy>(a: Seq<FieldMap<V>>, b: Seq<FieldMap<V>>) -> bool {
    &&& a.len() == b.len()
    &&& forall|k: int|
        0 <= k < a.len() ==> #[trigger] b[k].wf() && b[k].spec_addr_min() == a[k].spec_addr_min() && b[k].spec_addr_max()
            == a[k].spec_addr_max() && b[k]@.dom() == a[k]@.dom()
}

/// Keeping the layout twice keeps it.
proof fn lemma_same_layout_trans<V: Copy>(a: Seq<FieldMap<V>>, b: Seq<FieldMap<V>>, c: Seq<FieldMap<V>>)
    requires
        same_layout(a, b),
        same_layout(b, c),
    ensures
        same_layout(a, c),
{
    assert forall|k: int| 0 <= k < a.len() implies #[trigger] c[k].wf() && c[k].spec_addr_min() == a[k].spec_addr_min()
        && c[k].spec_addr_max() == a[k].spec_addr_max() && c[k]@.dom() == a[k]@.dom() by {
        assert(b[k].wf());
        assert(c[k].wf());
    }
}

/// Replacing model `i` by one with the same range and addresses keeps the
/// group well ordered; inside that range the domain now shows the new
/// model, outside it nothing changes.
proof fn lemma_replace_bank<V: Copy>(banks: Seq<FieldMap<V>>, i: int, nb: FieldMap<V>)
    requires
        banks_ok(banks),
        0 <= i < banks.len(),
        nb.wf(),
        nb.spec_addr_min() == banks[i].spec_addr_min(),
        nb.spec_addr_max() == banks[i].spec_addr_max(),
        nb@.dom() == banks[i]@.dom(),
    ensures
        banks_ok(banks.update(i, nb)),
        same_layout(banks, banks.update(i, nb)),
        forall|a: u16|
            #![trigger domain_view(banks.update(i, nb)).dom().contains(a)]
            covers(banks, i, a as int) ==> (domain_view(banks.update(i, nb)).dom().contains(a) == nb@.dom().contains(a) && (
            nb@.dom().contains(a) ==> domain_view(banks.update(i, nb))[a] == nb@[a])),
        forall|a: u16|
            #![trigger domain_view(banks.update(i, nb)).dom().contains(a)]
            !covers(banks, i, a as int) ==> (domain_view(banks.update(i, nb)).dom().contains(a) == domain_view(banks).dom().contains(a) && (
            domain_view(banks).dom().contains(a) ==> domain_view(banks.update(i, nb))[a] == domain_view(banks)[a])),
{
    let nbs = banks.update(i, nb);
    assert forall|k: int| 0 <= k < nbs.len() implies #[trigger] nbs[k].wf() by {
    }
    assert forall|a: int, b: int| 0 <= a < b < nbs.len() implies #[trigger] nbs[a].spec_addr_max() < #[trigger] nbs[b].spec_addr_min() by {
        assert(banks[a].spec_addr_max() < banks[b].spec_addr_min());
    }
    assert forall|a: u16| covers(banks, i, a as int) implies (#[trigger] domain_view(nbs).dom().contains(a) == nb@.dom().contains(a) && (
        nb@.dom().contains(a) ==> domain_view(nbs)[a] == nb@[a])) by {
        assert(covers(nbs, i, a as int));
        lemma_bank_for(nbs, i, a as int);
    }
    assert forall|a: u16| !covers(banks, i, a as int) implies (#[trigger] domain_view(nbs).dom().contains(a) == domain_view(banks).dom().contains(a) && (
        domain_view(banks).dom().contains(a) ==> domain_view(nbs)[a] == domain_view(banks)[a])) by {
        if covered(banks, a as int) {
            let k = bank_for(banks, a as int);
            assert(covers(banks, k, a as int));
            assert(k != i);
            assert(covers(nbs, k, a as int));
            lemma_bank_for(nbs, k, a as int);
        } else {
            assert forall|k: int| !(#[trigger] covers(nbs, k, a as int)) by {
                if covers(nbs, k, a as int) {
                    assert(covers(banks, k, a as int));
                }
            }
        }
    }
}

/// The same writes applied to two maps that agree over `[lo, hi]`, all
/// aimed inside that range, succeed or stop alike and leave the maps
/// agreeing there; the addresses of each map and everything outside the
/// range stay as they were.
proof fn lemma_apply_writes_agree<V>(bm: Map<u16, V>, dm: Map<u16, V>, lo: int, hi: int, cursor: u16, seg: Seq<V>, n: nat)
    requires
        forall|a: u16| lo <= a <= hi ==> (#[trigger] bm.dom().contains(a) == dm.dom().contains(a) && (bm.dom().contains(a) ==> bm[a] == dm[a])),
        hi <= u16::MAX,
        n < seg.len() ==> lo <= cursor + n && cursor + seg.len() <= hi + 1,
    ensures
        apply_writes(bm, cursor, seg, n).1 == apply_writes(dm, cursor, seg, n).1,
        apply_writes(bm, cursor, seg, n).0.dom() == bm.dom(),
        apply_writes(dm, cursor, seg, n).0.dom() == dm.dom(),
        forall|a: u16| lo <= a <= hi ==> (#[trigger] apply_writes(bm, cursor, seg, n).0.dom().contains(a) == apply_writes(dm, cursor, seg, n).0.dom().contains(a)
            && (apply_writes(bm, cursor, seg, n).0.dom().contains(a) ==> apply_writes(bm, cursor, seg, n).0[a] == apply_writes(dm, cursor, seg, n).0[a])),
        forall|a: u16| !(lo <= a <= hi) && dm.dom().contains(a) ==> #[trigger] apply_writes(dm, cursor, seg, n).0[a] == dm[a],
    decreases seg.len() - n,
{
    if n < seg.len() {
        assert(lo <= cursor + n <= hi);
        let a = cursor + (n as u16);
        assert((n as u16) == n);
        if a > u16::MAX || !bm.dom().contains(a as u16) {
        } else {
            let bm2 = bm.insert(a as u16, seg[n as int]);
            let dm2 = dm.insert(a as u16, seg[n as int]);
            assert(bm2.dom() =~= bm.dom());
            assert(dm2.dom() =~= dm.dom());
            lemma_apply_writes_agree(bm2, dm2, lo, hi, cursor, seg, n + 1);
        }
    }
}

/// The packed-bit version of `lemma_apply_writes_agree`.
proof fn lemma_apply_packed_agree(
    bm: Map<u16, bool>,
    dm: Map<u16, bool>,
    lo: int,
    hi: int,
    cursor: u16,
    quantity: int,
    values: Seq<u8>,
    offset: int,
    n: int,
)
    requires
        0 <= n,
        forall|a: u16| lo <= a <= hi ==> (#[trigger] bm.dom().contains(a) == dm.dom().contains(a) && (bm.dom().contains(a) ==> bm[a] == dm[a])),
        hi <= u16::MAX,
        n < quantity ==> lo <= cursor + n && cursor + quantity <= hi + 1,
    ensures
        apply_packed_writes(bm, cursor, quantity, values, offset, n).1 == apply_packed_writes(dm, cursor, quantity, values, offset, n).1,
        apply_packed_writes(bm, cursor, quantity, values, offset, n).0.dom() == bm.dom(),
        apply_packed_writes(dm, cursor, quantity, values, offset, n).0.dom() == dm.dom(),
        forall|a: u16| lo <= a <= hi ==> (#[trigger] apply_packed_writes(bm, cursor, quantity, values, offset, n).0.dom().contains(a)
            == apply_packed_writes(dm, cursor, quantity, values, offset, n).0.dom().contains(a)
            && (apply_packed_writes(bm, cursor, quantity, values, offset, n).0.dom().contains(a) ==> apply_packed_writes(bm, cursor, quantity, values, offset, n).0[a]
            == apply_packed_writes(dm, cursor, quantity, values, offset, n).0[a])),
        forall|a: u16| !(lo <= a <= hi) && dm.dom().contains(a) ==> #[trigger] apply_packed_writes(dm, cursor, quantity, values, offset, n).0[a] == dm[a],
    decreases quantity - n,
{
    if n < quantity && (offset + n) / 8 < values.len() {
        assert(lo <= cursor + n <= hi);
        if present(bm, cursor + n) {
            let bm2 = bm.insert((cursor + n) as u16, crate::models::bits::packed_bit(values, offset + n));
            let dm2 = dm.insert((cursor + n) as u16, crate::models::bits::packed_bit(values, offset + n));
            assert(bm2.dom() =~= bm.dom());
            assert(dm2.dom() =~= dm.dom());
            lemma_apply_packed_agree(bm2, dm2, lo, hi, cursor, quantity, values, offset, n + 1);
        }
    }
}

/// Writes `value` at `address` in whichever model's range holds it.
fn write_single_in<V: Copy>(banks: &mut Vec<FieldMap<V>>, address: u16, value: V) -> (r: Result<(), MbusError>)
    requires
        banks_ok(old(banks)@),
    ensures
        banks_ok(final(banks)@),
        same_layout(old(banks)@, final(banks)@),
        r is Ok <==> domain_view(old(banks)@).dom().contains(address),
        r is Ok ==> domain_view(final(banks)@) == domain_view(old(banks)@).insert(address, value),
        r matches Err(e) ==> e == MbusError::InvalidAddress && final(banks)@ == old(banks)@,
{
    let i = match find_bank(banks, address) {
        Some(i) => i,
        None => {
            proof {
                assert forall|k: int| 0 <= k < banks@.len() implies #[trigger] banks@[k].wf() by {}
            }
            return Err(MbusError::InvalidAddress);
        },
    };
    proof {
        lemma_bank_for(banks@, i as int, address as int);
    }
    let ghost before = banks@;
    let r = banks[i].write_single(address, value);
    proof {
        assert(banks@ == before.update(i as int, banks@[i as int]));
        if r is Ok {
            assert(banks@[i as int]@.dom() =~= before[i as int]@.dom());
        } else {
            assert(banks@[i as int]@ == before[i as int]@);
        }
        lemma_replace_bank(before, i as int, banks@[i as int]);
        if r is Ok {
            assert forall|a: u16| #[trigger] domain_view(banks@).dom().contains(a) == domain_view(before).insert(address, value).dom().contains(a) by {
                if !covers(before, i as int, a as int) {
                }
            }
            assert(domain_view(banks@) =~= domain_view(before).insert(address, value)) by {
                assert forall|a: u16| #[trigger] domain_view(banks@).dom().contains(a) implies domain_view(banks@)[a] == domain_view(before).insert(address, value)[a] by {
                    if covers(before, i as int, a as int) {
                        if a != address {
                            lemma_domain_in_bank(before, i as int, a as int);
                        }
                    }
                }
            }
        } else {
            assert(banks@ =~= before);
        }
    }
    r
}

/// The outcome of writing `vals[pos..]` to consecutive registers from
/// `cursor`, model by model: each segment runs to the end of the range
/// holding its first address, its length kept to 16 bits; the writes go
/// one by one and stop at the first address that no model holds; the
/// address after each segment must still be a 16-bit address.
pub open spec fn registers_write_outcome(banks: Seq<RegisterModel>, dv: Map<u16, u16>, cursor: int, vals: Seq<u16>, pos: int) -> (Map<u16, u16>, Result<(), MbusError>)
    decreases vals.len() - pos,
{
    if pos < 0 || pos >= vals.len() {
        (dv, Ok(()))
    } else if !covered(banks, cursor) {
        (dv, Err(MbusError::InvalidAddress))
    } else {
        let take = seg_take(banks, cursor, ((vals.len() - pos) as u16) as int);
        if take <= 0 {
            (dv, Err(MbusError::InvalidQuantity))
        } else {
            let w = apply_writes(dv, cursor as u16, vals.subrange(pos, pos + take), 0);
            if !w.1 {
                (w.0, Err(MbusError::InvalidAddress))
            } else if cursor + take > u16::MAX {
                (w.0, Err(MbusError::InvalidAddress))
            } else {
                registers_write_outcome(banks, w.0, cursor + take, vals, pos + take)
            }
        }
    }
}

/// The outcome of writing `remaining` coils from `cursor`, their values
/// taken from the bits of `values` from bit `offset` on, model by model:
/// each segment runs to the end of the range holding its first address;
/// the writes go one by one and stop at the first bit past the end of
/// `values` or address that no model holds; the address after each segment
/// must still be a 16-bit address.
pub open spec fn coils_write_outcome(banks: Seq<CoilModel>, dv: Map<u16, bool>, cursor: int, remaining: int, values: Seq<u8>, offset: int) -> (Map<u16, bool>, Result<(), MbusError>)
    decreases remaining,
{
    if remaining <= 0 {
        (dv, Ok(()))
    } else if !covered(banks, cursor) {
        (dv, Err(MbusError::InvalidAddress))
    } else {
        let take = seg_take(banks, cursor, remaining);
        if take <= 0 {
            (dv, Ok(()))
        } else {
            let w = apply_packed_writes(dv, cursor as u16, take, values, offset, 0);
            if w.1 is Err {
                w
            } else if cursor + take > u16::MAX {
                (w.0, Err(MbusError::InvalidAddress))
            } else {
                coils_write_outcome(banks, w.0, cursor + take, remaining - take, values, offset + take)
            }
        }
    }
}

/// `m` with the values `vals` at consecutive addresses from `start`; the
/// set of addresses stays the same.
pub open spec fn with_values<V>(m: Map<u16, V>, start: int, vals: Seq<V>) -> Map<u16, V> {
    Map::new(|a: u16| m.dom().contains(a), |a: u16| if start <= a < start + vals.len() { vals[a - start] } else { m[a] })
}

/// Writes to consecutive addresses that all exist succeed and leave the
/// values written.
proof fn lemma_apply_writes_all<V>(m: Map<u16, V>, cursor: u16, vals: Seq<V>, n: nat)
    requires
        n <= vals.len(),
        cursor + vals.len() <= u16::MAX + 1,
        forall|k: int| n <= k < vals.len() ==> #[trigger] present(m, cursor + k),
    ensures
        apply_writes(m, cursor, vals, n).1,
        apply_writes(m, cursor, vals, n).0 == Map::new(
            |a: u16| m.dom().contains(a),
            |a: u16| if cursor + n <= a < cursor + vals.len() { vals[a - cursor] } else { m[a] },
        ),
    decreases vals.len() - n,
{
    let target = Map::new(
        |a: u16| m.dom().contains(a),
        |a: u16| if cursor + n <= a < cursor + vals.len() { vals[a - cursor] } else { m[a] },
    );
    if n == vals.len() {
        assert(apply_writes(m, cursor, vals, n).0 =~= target);
    } else {
        assert(present(m, cursor + n));
        assert((n as u16) == n);
        let m2 = m.insert((cursor + n) as u16, vals[n as int]);
        assert(m2.dom() =~= m.dom());
        assert forall|k: int| n + 1 <= k < vals.len() implies #[trigger] present(m2, cursor + k) by {
            assert(present(m, cursor + k));
        }
        lemma_apply_writes_all(m2, cursor, vals, n + 1);
        assert(apply_writes(m, cursor, vals, n).0 =~= target);
    }
}

/// A multi-register write over addresses that all exist, ending below the
/// top of the address space, succeeds and leaves exactly the written words.
proof fn lemma_registers_write_all(banks: Seq<RegisterModel>, dv: Map<u16, u16>, cursor: int, vals: Seq<u16>, pos: int)
    requires
        banks_ok(banks),
        0 <= pos <= vals.len(),
        vals.len() <= u16::MAX,
        0 <= cursor,
        cursor + (vals.len() - pos) <= u16::MAX,
        forall|a: u16| #[trigger] dv.dom().contains(a) ==> covered(banks, a as int),
        forall|k: int| 0 <= k < vals.len() - pos ==> #[trigger] present(dv, cursor + k),
    ensures
        registers_write_outcome(banks, dv, cursor, vals, pos) == (with_values(dv, cursor, vals.subrange(pos, vals.len() as int)), Ok::<(), MbusError>(())),
    decreases vals.len() - pos,
{
    let rest = vals.subrange(pos, vals.len() as int);
    if pos == vals.len() {
        assert(with_values(dv, cursor, rest) =~= dv);
    } else {
        assert(present(dv, cursor + 0));
        assert(covered(banks, cursor));
        let i = bank_for(banks, cursor);
        assert(covers(banks, i, cursor));
        assert(((vals.len() - pos) as u16) as int == vals.len() - pos);
        let take = seg_take(banks, cursor, vals.len() - pos);
        assert(1 <= take <= vals.len() - pos);
        let seg = vals.subrange(pos, pos + take);
        assert forall|k: int| 0 <= k < seg.len() implies #[trigger] present(dv, (cursor as u16) + k) by {
            assert(present(dv, cursor + k));
        }
        lemma_apply_writes_all(dv, cursor as u16, seg, 0);
        let dv2 = apply_writes(dv, cursor as u16, seg, 0).0;
        assert(dv2.dom() =~= dv.dom());
        assert forall|k: int| 0 <= k < vals.len() - (pos + take) implies #[trigger] present(dv2, (cursor + take) + k) by {
            assert(present(dv, cursor + (take + k)));
            assert(cursor + (take + k) == (cursor + take) + k);
        }
        lemma_registers_write_all(banks, dv2, cursor + take, vals, pos + take);
        assert(with_values(dv2, cursor + take, vals.subrange(pos + take, vals.len() as int)) =~= with_values(dv, cursor, rest));
    }
}

/// Writing registers of a group of models and reading them back gives the
/// written words: when every address of the window is a register of some
/// model and the window ends below the top of the address space, the write
/// succeeds and a read of the same window succeeds with the new words.
pub proof fn lemma_registers_write_then_read(banks: Seq<RegisterModel>, start: u16, vals: Seq<u16>, out_len: int)
    requires
        banks_ok(banks),
        0 < vals.len(),
        start + vals.len() <= u16::MAX,
        forall|k: int| 0 <= k < vals.len() ==> #[trigger] present(domain_view(banks), start + k),
        out_len >= 2 * vals.len(),
    ensures
        registers_write_outcome(banks, domain_view(banks), start as int, vals, 0).1 == Ok::<(), MbusError>(()),
        registers_read_result(registers_write_outcome(banks, domain_view(banks), start as int, vals, 0).0, start, vals.len() as u16, out_len)
            == Ok::<u8, MbusError>((2 * vals.len()) as u8),
        forall|k: int| 0 <= k < vals.len() ==> #[trigger] registers_write_outcome(banks, domain_view(banks), start as int, vals, 0).0[(start + k) as u16] == vals[k],
{
    let dv = domain_view(banks);
    lemma_registers_write_all(banks, dv, start as int, vals, 0);
    assert(vals.subrange(0, vals.len() as int) =~= vals);
    let dv2 = with_values(dv, start as int, vals);
    assert forall|k: int| 0 <= k < vals.len() implies #[trigger] present(dv2, start + k) by {
        assert(present(dv, start + k));
    }
    crate::maps::field_map::lemma_run_len(dv2, start as int, vals.len() as int, vals.len() as int);
    assert forall|k: int| 0 <= k < vals.len() implies #[trigger] dv2[(start + k) as u16] == vals[k] by {
        assert(present(dv, start + k));
    }
}

/// Writing one register of a group of models and reading it back gives the
/// written word, unless it is the last address of the address space, whose
/// read fails.
pub proof fn lemma_register_write_single_then_read(banks: Seq<RegisterModel>, a: u16, v: u16, out: Seq<u8>)
    requires
        banks_ok(banks),
        domain_view(banks).dom().contains(a),
        a < u16::MAX,
        out.len() >= 2,
    ensures
        registers_read_result(domain_view(banks).insert(a, v), a, 1, out.len() as int) == Ok::<u8, MbusError>(2),
        with_words(out, domain_view(banks).insert(a, v), a as int, registers_read_written(domain_view(banks).insert(a, v), a, 1, out.len() as int)).subrange(0, 2)
            == seq![crate::data_unit::be_hi(v), crate::data_unit::be_lo(v)],
{
    let m2 = domain_view(banks).insert(a, v);
    assert(present(m2, a as int));
    crate::maps::field_map::lemma_run_len(m2, a as int, 1, 1);
    assert(with_words(out, m2, a as int, 1).subrange(0, 2) =~= seq![crate::data_unit::be_hi(v), crate::data_unit::be_lo(v)]) by {
        assert((a + 0int / 2) as u16 == a);
        assert((a + 1int / 2) as u16 == a);
    }
}

/// Writing one coil of a group of models and reading it back gives the
/// written value in the lowest bit of the reply, unless it is the last
/// address of the address space, whose read fails. `after` is the group
/// once the write was made.
pub proof fn lemma_coil_write_single_then_read(banks: Seq<CoilModel>, after: Seq<CoilModel>, a: u16, v: bool, old_out: Seq<u8>, new_out: Seq<u8>)
    requires
        banks_ok(banks),
        banks_ok(after),
        same_layout(banks, after),
        domain_view(after) == domain_view(banks).insert(a, v),
        domain_view(banks).dom().contains(a),
        a < u16::MAX,
        old_out.len() >= 1,
        packs_coils(new_out, old_out, domain_view(after), a as int, coils_copied(after, a as int, 1), ceil8(1)),
    ensures
        coils_read_result(domain_view(after), a, 1, old_out.len() as int) == Ok::<u8, MbusError>(1),
        coils_copied(after, a as int, 1) == 1,
        bit_set(new_out[0], 0) == v,
{
    let dv = domain_view(after);
    assert(present(dv, a as int));
    crate::maps::field_map::lemma_run_len(dv, a as int, 1, 1);
    assert(covered(after, a as int));
    let i = bank_for(after, a as int);
    assert(covers(after, i, a as int));
    assert(seg_take(after, a as int, 1) == 1);
    assert(coils_copied(after, a as int + 1, 0) == 0);
    assert(coils_copied(after, a as int, 1) == 1);
    assert(bit_set(new_out[0], 0) == (8 * 0 + 0 < 1 && dv[(a + 8 * 0 + 0) as u16]));
}

/// Packed writes to consecutive coils that all exist, with every bit
/// inside `values`, succeed and leave the bits written.
proof fn lemma_apply_packed_all(m: Map<u16, bool>, cursor: u16, quantity: int, values: Seq<u8>, offset: int, n: int)
    requires
        0 <= n <= quantity,
        0 <= offset,
        cursor + quantity <= u16::MAX + 1,
        offset + quantity <= 8 * values.len(),
        forall|k: int| n <= k < quantity ==> #[trigger] present(m, cursor + k),
    ensures
        apply_packed_writes(m, cursor, quantity, values, offset, n) == (
            Map::new(
                |a: u16| m.dom().contains(a),
                |a: u16| if cursor + n <= a < cursor + quantity { crate::models::bits::packed_bit(values, offset + (a - cursor)) } else { m[a] },
            ),
            Ok::<(), MbusError>(()),
        ),
    decreases quantity - n,
{
    let target = Map::new(
        |a: u16| m.dom().contains(a),
        |a: u16| if cursor + n <= a < cursor + quantity { crate::models::bits::packed_bit(values, offset + (a - cursor)) } else { m[a] },
    );
    if n == quantity {
        assert(apply_packed_writes(m, cursor, quantity, values, offset, n).0 =~= target);
    } else {
        assert(present(m, cursor + n));
        assert((offset + n) / 8 < values.len());
        let m2 = m.insert((cursor + n) as u16, crate::models::bits::packed_bit(values, offset + n));
        assert(m2.dom() =~= m.dom());
        assert forall|k: int| n + 1 <= k < quantity implies #[trigger] present(m2, cursor + k) by {
            assert(present(m, cursor + k));
        }
        lemma_apply_packed_all(m2, cursor, quantity, values, offset, n + 1);
        assert(apply_packed_writes(m, cursor, quantity, values, offset, n).0 =~= target);
    }
}

/// A multi-coil write over coils that all exist, with every bit inside
/// `values` and ending below the top of the address space, succeeds and
/// leaves exactly the written bits.
proof fn lemma_coils_write_all(banks: Seq<CoilModel>, dv: Map<u16, bool>, cursor: int, remaining: int, values: Seq<u8>, offset: int)
    requires
        banks_ok(banks),
        0 <= cursor,
        0 <= remaining,
        0 <= offset,
        cursor + remaining <= u16::MAX,
        offset + remaining <= 8 * values.len(),
        forall|a: u16| #[trigger] dv.dom().contains(a) ==> covered(banks, a as int),
        forall|k: int| 0 <= k < remaining ==> #[trigger] present(dv, cursor + k),
    ensures
        coils_write_outcome(banks, dv, cursor, remaining, values, offset) == (
            Map::new(
                |a: u16| dv.dom().contains(a),
                |a: u16| if cursor <= a < cursor + remaining { crate::models::bits::packed_bit(values, offset + (a - cursor)) } else { dv[a] },
            ),
            Ok::<(), MbusError>(()),
        ),
    decreases remaining,
{
    let target = Map::new(
        |a: u16| dv.dom().contains(a),
        |a: u16| if cursor <= a < cursor + remaining { crate::models::bits::packed_bit(values, offset + (a - cursor)) } else { dv[a] },
    );
    if remaining == 0 {
        assert(dv =~= target);
    } else {
        assert(present(dv, cursor + 0));
        assert(covered(banks, cursor));
        let i = bank_for(banks, cursor);
        assert(covers(banks, i, cursor));
        let take = seg_take(banks, cursor, remaining);
        assert(1 <= take <= remaining);
        assert forall|k: int| 0 <= k < take implies #[trigger] present(dv, (cursor as u16) + k) by {
            assert(present(dv, cursor + k));
        }
        lemma_apply_packed_all(dv, cursor as u16, take, values, offset, 0);
        let dv2 = apply_packed_writes(dv, cursor as u16, take, values, offset, 0).0;
        assert(dv2.dom() =~= dv.dom());
        assert forall|k: int| 0 <= k < remaining - take implies #[trigger] present(dv2, (cursor + take) + k) by {
            assert(present(dv, cursor + (take + k)));
            assert(cursor + (take + k) == (cursor + take) + k);
        }
        lemma_coils_write_all(banks, dv2, cursor + take, remaining - take, values, offset + take);
        let target2 = Map::new(
            |a: u16| dv2.dom().contains(a),
            |a: u16| if cursor + take <= a < cursor + take + (remaining - take) { crate::models::bits::packed_bit(values, (offset + take) + (a - (cursor + take))) } else { dv2[a] },
        );
        assert(target2 =~= target) by {
            assert forall|a: u16| #[trigger] target2.dom().contains(a) implies target2[a] == target[a] by {
                if cursor + take <= a < cursor + remaining {
                    assert((offset + take) + (a - (cursor + take)) == offset + (a - cursor));
                }
            }
        }
    }
}

/// A coil read over coils that all exist copies every segment whole.
proof fn lemma_coils_copied_all(banks: Seq<CoilModel>, cursor: int, remaining: int)
    requires
        banks_ok(banks),
        0 <= remaining,
        forall|k: int| 0 <= k < remaining ==> #[trigger] present(domain_view(banks), cursor + k),
    ensures
        coils_copied(banks, cursor, remaining) == remaining,
    decreases remaining,
{
    if remaining > 0 {
        let dv = domain_view(banks);
        assert(present(dv, cursor + 0));
        assert(covered(banks, cursor));
        let i = bank_for(banks, cursor);
        assert(covers(banks, i, cursor));
        let take = seg_take(banks, cursor, remaining);
        assert(1 <= take <= remaining);
        assert forall|k: int| 0 <= k < take implies #[trigger] present(dv, cursor + k) by {}
        crate::maps::field_map::lemma_run_len(dv, cursor, take, take);
        assert forall|k: int| 0 <= k < remaining - take implies #[trigger] present(dv, (cursor + take) + k) by {
            assert(present(dv, cursor + (take + k)));
            assert(cursor + (take + k) == (cursor + take) + k);
        }
        lemma_coils_copied_all(banks, cursor + take, remaining - take);
    }
}

/// Writing coils of a group of models and reading them back gives the
/// written bits: when every address of the window is a coil of some model,
/// the packed values hold all the bits, and the window ends below the top
/// of the address space, the write succeeds and a read of the same window
/// succeeds and copies every coil, each with its written value. `after` is
/// the group once the write was made.
pub proof fn lemma_coils_write_then_read(banks: Seq<CoilModel>, after: Seq<CoilModel>, start: u16, quantity: u16, values: Seq<u8>, out_len: int)
    requires
        banks_ok(banks),
        banks_ok(after),
        same_layout(banks, after),
        0 < quantity,
        start + quantity <= u16::MAX,
        ceil8(quantity as int) <= values.len(),
        forall|k: int| 0 <= k < quantity ==> #[trigger] present(domain_view(banks), start + k),
        domain_view(after) == coils_write_outcome(banks, domain_view(banks), start as int, quantity as int, values, 0).0,
        out_len >= ceil8(quantity as int),
    ensures
        coils_write_outcome(banks, domain_view(banks), start as int, quantity as int, values, 0).1 == Ok::<(), MbusError>(()),
        coils_read_result(domain_view(after), start, quantity, out_len) == Ok::<u8, MbusError>(ceil8(quantity as int) as u8),
        coils_copied(after, start as int, quantity as int) == quantity,
        forall|k: int| 0 <= k < quantity ==> #[trigger] domain_view(after)[(start + k) as u16] == crate::models::bits::packed_bit(values, k),
{
    let dv = domain_view(banks);
    lemma_coils_write_all(banks, dv, start as int, quantity as int, values, 0);
    let dva = domain_view(after);
    assert forall|k: int| 0 <= k < quantity implies #[trigger] present(dva, start + k) by {
        assert(present(dv, start + k));
    }
    crate::maps::field_map::lemma_run_len(dva, start as int, quantity as int, quantity as int);
    lemma_coils_copied_all(after, start as int, quantity as int);
    assert forall|k: int| 0 <= k < quantity implies #[trigger] dva[(start + k) as u16] == crate::models::bits::packed_bit(values, k) by {
        assert(present(dv, start + k));
        assert(0 + ((start + k) - start) == k);
    }
}

/// The models that a server application serves, by data domain.
#[derive(Debug)]
pub struct AppMaps {
    holding: Vec<RegisterModel>,
    input: Vec<RegisterModel>,
    coils: Vec<CoilModel>,
}

/// The layout of the three groups of models is valid: at least one model
/// in all, and in each group ranges that do not overlap, in ascending order.
pub open spec fn app_layout_ok(h: Seq<RegisterModel>, i: Seq<RegisterModel>, c: Seq<CoilModel>) -> bool {
    &&& !(h.len() == 0 && i.len() == 0 && c.len() == 0)
    &&& all_apart(h) && all_apart(i) && all_apart(c)
    &&& mins_ascending(h) && mins_ascending(i) && mins_ascending(c)
}

impl AppMaps {
    /// Every group of models is well formed and well ordered.
    pub closed spec fn wf(&self) -> bool {
        banks_ok(self.holding@) && banks_ok(self.input@) && banks_ok(self.coils@)
    }

    /// The holding-register models.
    pub closed spec fn holding_models(&self) -> Seq<RegisterModel> {
        self.holding@
    }

    /// The input-register models.
    pub closed spec fn input_models(&self) -> Seq<RegisterModel> {
        self.input@
    }

    /// The coil models.
    pub closed spec fn coil_models(&self) -> Seq<CoilModel> {
        self.coils@
    }

    /// The models of a well-formed application are well ordered.
    pub proof fn lemma_wf(&self)
        requires
            self.wf(),
        ensures
            banks_ok(self.holding_models()),
            banks_ok(self.input_models()),
            banks_ok(self.coil_models()),
    {
    }

    /// Groups the models of an application. Refused when there is no model
    /// at all; then, group by group (holding registers, input registers,
    /// coils), at the first pair of overlapping ranges; then, group by
    /// group, at the first model that starts above the next one.
    pub fn new(holding: Vec<RegisterModel>, input: Vec<RegisterModel>, coils: Vec<CoilModel>) -> (r: Result<AppMaps, AppLayoutError>)
        requires
            forall|k: int| 0 <= k < holding@.len() ==> #[trigger] holding@[k].wf(),
            forall|k: int| 0 <= k < input@.len() ==> #[trigger] input@[k].wf(),
            forall|k: int| 0 <= k < coils@.len() ==> #[trigger] coils@[k].wf(),
        ensures
            r is Ok <==> app_layout_ok(holding@, input@, coils@),
            r matches Ok(m) ==> m.wf() && m.holding_models() == holding@ && m.input_models() == input@
                && m.coil_models() == coils@,
            holding@.len() == 0 && input@.len() == 0 && coils@.len() == 0 ==> r == Err::<AppMaps, AppLayoutError>(AppLayoutError::NoMaps),
            r matches Err(AppLayoutError::Overlap { domain, first, second }) ==> match domain {
                DataDomain::HoldingRegisters => is_first_overlap(holding@, first as int, second as int),
                DataDomain::InputRegisters => all_apart(holding@) && is_first_overlap(input@, first as int, second as int),
                DataDomain::Coils => all_apart(holding@) && all_apart(input@) && is_first_overlap(coils@, first as int, second as int),
            },
            r matches Err(AppLayoutError::Unordered { domain, index }) ==> all_apart(holding@) && all_apart(input@)
                && all_apart(coils@) && match domain {
                DataDomain::HoldingRegisters => is_first_unordered(holding@, index as int),
                DataDomain::InputRegisters => mins_ascending(holding@) && is_first_unordered(input@, index as int),
                DataDomain::Coils => mins_ascending(holding@) && mins_ascending(input@) && is_first_unordered(coils@, index as int),
            },
            !(holding@.len() == 0 && input@.len() == 0 && coils@.len() == 0) && !all_apart(holding@) ==> r matches Err(
                AppLayoutError::Overlap { domain: DataDomain::HoldingRegisters, .. }),
            !(holding@.len() == 0 && input@.len() == 0 && coils@.len() == 0) && all_apart(holding@) && !all_apart(input@)
                ==> r matches Err(AppLayoutError::Overlap { domain: DataDomain::InputRegisters, .. }),
            !(holding@.len() == 0 && input@.len() == 0 && coils@.len() == 0) && all_apart(holding@) && all_apart(input@)
                && !all_apart(coils@) ==> r matches Err(AppLayoutError::Overlap { domain: DataDomain::Coils, .. }),
            !(holding@.len() == 0 && input@.len() == 0 && coils@.len() == 0) && all_apart(holding@) && all_apart(input@)
                && all_apart(coils@) && !mins_ascending(holding@) ==> r matches Err(
                AppLayoutError::Unordered { domain: DataDomain::HoldingRegisters, .. }),
            !(holding@.len() == 0 && input@.len() == 0 && coils@.len() == 0) && all_apart(holding@) && all_apart(input@)
                && all_apart(coils@) && mins_ascending(holding@) && !mins_ascending(input@) ==> r matches Err(
                AppLayoutError::Unordered { domain: DataDomain::InputRegisters, .. }),
    {
        if holding.len() == 0 && input.len() == 0 && coils.len() == 0 {
            return Err(AppLayoutError::NoMaps);
        }
        if let Some((first, second)) = find_overlap(&holding) {
            return Err(AppLayoutError::Overlap { domain: DataDomain::HoldingRegisters, first, second });
        }
        if let Some((first, second)) = find_overlap(&input) {
            return Err(AppLayoutError::Overlap { domain: DataDomain::InputRegisters, first, second });
        }
        if let Some((first, second)) = find_overlap(&coils) {
            return Err(AppLayoutError::Overlap { domain: DataDomain::Coils, first, second });
        }
        if let Some(index) = find_unordered(&holding) {
            return Err(AppLayoutError::Unordered { domain: DataDomain::HoldingRegisters, index });
        }
        if let Some(index) = find_unordered(&input) {
            return Err(AppLayoutError::Unordered { domain: DataDomain::InputRegisters, index });
        }
        if let Some(index) = find_unordered(&coils) {
            return Err(AppLayoutError::Unordered { domain: DataDomain::Coils, index });
        }
        proof {
            lemma_ranges_in_order(holding@);
            lemma_ranges_in_order(input@);
            lemma_ranges_in_order(coils@);
        }
        Ok(AppMaps { holding, input, coils })
    }

    /// Reads `quantity` holding registers from `address` into `out`, model
    /// by model, and returns the byte count.
    ///
    /// Fails with `InvalidQuantity` for a zero quantity, with
    /// `BufferTooSmall` when `out` cannot hold two bytes per register, and
    /// with `InvalidAddress` when an address of the window is not a
    /// register of any model or the window ends at the top of the address
    /// space (the words before the failing address are already written).
    pub fn read_multiple_holding_registers_request(&self, address: u16, quantity: u16, out: &mut [u8]) -> (r: Result<u8, MbusError>)
        requires
            self.wf(),
        ensures
            r == registers_read_result(domain_view(self.holding_models()), address, quantity, old(out)@.len() as int),
            final(out)@ == with_words(old(out)@, domain_view(self.holding_models()), address as int, registers_read_written(domain_view(self.holding_models()), address, quantity, old(out)@.len() as int)),
    {
        read_registers(&self.holding, address, quantity, out)
    }

    /// Reads `quantity` input registers from `address` into `out`, model by
    /// model; fails as a holding-register read does.
    pub fn read_multiple_input_registers_request(&self, address: u16, quantity: u16, out: &mut [u8]) -> (r: Result<u8, MbusError>)
        requires
            self.wf(),
        ensures
            r == registers_read_result(domain_view(self.input_models()), address, quantity, old(out)@.len() as int),
            final(out)@ == with_words(old(out)@, domain_view(self.input_models()), address as int, registers_read_written(domain_view(self.input_models()), address, quantity, old(out)@.len() as int)),
    {
        read_registers(&self.input, address, quantity, out)
    }

    /// Packs `quantity` coils from `address` into `out`, model by model, and
    /// returns the byte count.
    ///
    /// Fails with `InvalidQuantity` for a zero quantity, with
    /// `BufferTooSmall` when `out` cannot hold the packed bits, and with
    /// `InvalidAddress` when an address of the window is not a coil of any
    /// model or the window ends at the top of the address space. The packed
    /// bytes are cleared first; each model's part of the window is copied
    /// in once all of its coils were found.
    pub fn read_coils_request(&self, address: u16, quantity: u16, out: &mut [u8]) -> (r: Result<u8, MbusError>)
        requires
            self.wf(),
            quantity > 0 && old(out)@.len() >= ceil8(quantity as int) ==> coil_segments_fit(self.coil_models(), address as int, quantity as int),
        ensures
            r == coils_read_result(domain_view(self.coil_models()), address, quantity, old(out)@.len() as int),
            quantity > 0 && old(out)@.len() >= ceil8(quantity as int) ==> packs_coils(final(out)@, old(out)@, domain_view(self.coil_models()), address as int, coils_copied(self.coil_models(), address as int, quantity as int), ceil8(quantity as int)),
            !(quantity > 0 && old(out)@.len() >= ceil8(quantity as int)) ==> final(out)@ == old(out)@,
    {
        read_coils(&self.coils, address, quantity, out)
    }

    /// Writes one holding register; fails with `InvalidAddress`, changing
    /// nothing, when no model holds `address`.
    pub fn write_single_register_request(&mut self, address: u16, value: u16) -> (r: Result<(), MbusError>)
        requires
            old(self).wf(),
        ensures
            final(self).wf(),
            same_layout(old(self).holding_models(), final(self).holding_models()),
            final(self).input_models() == old(self).input_models(),
            final(self).coil_models() == old(self).coil_models(),
            r is Ok <==> domain_view(old(self).holding_models()).dom().contains(address),
            r is Ok ==> domain_view(final(self).holding_models()) == domain_view(old(self).holding_models()).insert(address, value),
            r matches Err(e) ==> e == MbusError::InvalidAddress && final(self).holding_models() == old(self).holding_models(),
    {
        write_single_in(&mut self.holding, address, value)
    }

    /// Writes one coil; fails with `InvalidAddress`, changing nothing, when
    /// no model holds `address`.
    pub fn write_single_coil_request(&mut self, address: u16, value: bool) -> (r: Result<(), MbusError>)
        requires
            old(self).wf(),
        ensures
            final(self).wf(),
            same_layout(old(self).coil_models(), final(self).coil_models()),
            final(self).holding_models() == old(self).holding_models(),
            final(self).input_models() == old(self).input_models(),
            r is Ok <==> domain_view(old(self).coil_models()).dom().contains(address),
            r is Ok ==> domain_view(final(self).coil_models()) == domain_view(old(self).coil_models()).insert(address, value),
            r matches Err(e) ==> e == MbusError::InvalidAddress && final(self).coil_models() == old(self).coil_models(),
    {
        write_single_in(&mut self.coils, address, value)
    }

    /// Writes `values` to consecutive holding registers from
    /// `starting_address`, model by model (see `registers_write_outcome`);
    /// the writes before a failure stay made. Fails with
    /// `InvalidQuantity`, changing nothing, when `values` is empty.
    pub fn write_multiple_registers_request(&mut self, starting_address: u16, values: &[u16]) -> (r: Result<(), MbusError>)
        requires
            old(self).wf(),
        ensures
            final(self).wf(),
            same_layout(old(self).holding_models(), final(self).holding_models()),
            final(self).input_models() == old(self).input_models(),
            final(self).coil_models() == old(self).coil_models(),
            values@.len() == 0 ==> r == Err::<(), MbusError>(MbusError::InvalidQuantity) && final(self).holding_models() == old(self).holding_models(),
            values@.len() > 0 ==> (domain_view(final(self).holding_models()), r) == registers_write_outcome(
                old(self).holding_models(),
                domain_view(old(self).holding_models()),
                starting_address as int,
                values@,
                0,
            ),
    {
        if values.len() == 0 {
            return Err(MbusError::InvalidQuantity);
        }
        let ghost orig = self.holding@;
        let mut cursor: u16 = starting_address;
        let mut pos: usize = 0;
        while pos < values.len()
            invariant
                banks_ok(self.holding@),
                banks_ok(self.input@),
                banks_ok(self.coils@),
                self.input@ == old(self).input@,
                self.coils@ == old(self).coils@,
                orig == old(self).holding@,
                banks_ok(orig),
                same_layout(orig, self.holding@),
                pos <= values@.len(),
                registers_write_outcome(orig, domain_view(orig), starting_address as int, values@, 0)
                    == registers_write_outcome(orig, domain_view(self.holding@), cursor as int, values@, pos as int),
            decreases values@.len() - pos,
        {
            proof {
                assert forall|k: int| #[trigger] covers(orig, k, cursor as int) == covers(self.holding@, k, cursor as int) by {
                    if 0 <= k < orig.len() {
                        assert(self.holding@[k].wf());
                    }
                }
            }
            let i = match find_bank(&self.holding, cursor) {
                Some(i) => i,
                None => {
                    return Err(MbusError::InvalidAddress);
                },
            };
            proof {
                lemma_bank_for(self.holding@, i as int, cursor as int);
                lemma_bank_for(orig, i as int, cursor as int);
            }
            let map_max = self.holding[i].addr_max();
            let available = (map_max - cursor).saturating_add(1);
            let rem16 = #[verifier::truncate] ((values.len() - pos) as u16);
            let take = if rem16 < available {
                rem16
            } else {
                available
            };
            proof {
                assert(self.holding@[i as int].wf());
                assert(orig[i as int].spec_addr_max() == map_max);
                assert(rem16 == ((values@.len() - pos) as u16));
            }
            assert(take == seg_take(orig, cursor as int, ((values@.len() - pos) as u16) as int));
            let split = take as usize;
            let seg = &values[pos..pos + split];
            let ghost before = self.holding@;
            let ghost dv = domain_view(before);
            proof {
                assert(covers(orig, i as int, cursor as int));
                assert(seg@ == values@.subrange(pos as int, pos + split));
                let wt = apply_writes(dv, cursor, values@.subrange(pos as int, pos + split), 0);
                assert(registers_write_outcome(orig, dv, cursor as int, values@, pos as int) == (if take <= 0 {
                    (dv, Err::<(), MbusError>(MbusError::InvalidQuantity))
                } else if !wt.1 {
                    (wt.0, Err::<(), MbusError>(MbusError::InvalidAddress))
                } else if cursor + take > u16::MAX {
                    (wt.0, Err::<(), MbusError>(MbusError::InvalidAddress))
                } else {
                    registers_write_outcome(orig, wt.0, cursor + take, values@, pos + take)
                }));
            }
            let w = self.holding[i].write_many(cursor, seg);
            proof {
                assert(self.holding@ == before.update(i as int, self.holding@[i as int]));
                if split > 0 {
                    assert forall|a: u16| before[i as int].spec_addr_min() <= a <= before[i as int].spec_addr_max() implies (#[trigger] before[i as int]@.dom().contains(a)
                        == dv.dom().contains(a) && (before[i as int]@.dom().contains(a) ==> before[i as int]@[a] == dv[a])) by {
                        lemma_domain_in_bank(before, i as int, a as int);
                    }
                    lemma_apply_writes_agree(before[i as int]@, dv, before[i as int].spec_addr_min() as int, before[i as int].spec_addr_max() as int, cursor, seg@, 0);
                }
                assert(self.holding@[i as int]@.dom() =~= before[i as int]@.dom());
                lemma_replace_bank(before, i as int, self.holding@[i as int]);
                lemma_same_layout_trans(orig, before, self.holding@);
            }
            match w {
                Ok(()) => {},
                Err(e) => {
                    proof {
                        if split == 0 {
                            assert(self.holding@ =~= before);
                        } else {
                            assert(domain_view(self.holding@) =~= apply_writes(dv, cursor, seg@, 0).0) by {
                                assert forall|a: u16| #[trigger] domain_view(self.holding@).dom().contains(a) == apply_writes(dv, cursor, seg@, 0).0.dom().contains(a) by {
                                    if covers(before, i as int, a as int) {
                                    } else {
                                    }
                                }
                                assert forall|a: u16| #[trigger] domain_view(self.holding@).dom().contains(a) implies domain_view(self.holding@)[a] == apply_writes(dv, cursor, seg@, 0).0[a] by {
                                    if covers(before, i as int, a as int) {
                                    } else {
                                    }
                                }
                            }
                        }
                    }
                    return Err(e);
                },
            }
            proof {
                assert(domain_view(self.holding@) =~= apply_writes(dv, cursor, seg@, 0).0) by {
                    assert forall|a: u16| #[trigger] domain_view(self.holding@).dom().contains(a) == apply_writes(dv, cursor, seg@, 0).0.dom().contains(a) by {
                        if covers(before, i as int, a as int) {
                        } else {
                        }
                    }
                    assert forall|a: u16| #[trigger] domain_view(self.holding@).dom().contains(a) implies domain_view(self.holding@)[a] == apply_writes(dv, cursor, seg@, 0).0[a] by {
                        if covers(before, i as int, a as int) {
                        } else {
                        }
                    }
                }
            }
            cursor = match cursor.checked_add(take) {
                Some(c) => c,
                None => {
                    return Err(MbusError::InvalidAddress);
                },
            };
            pos = pos + split;
        }
        Ok(())
    }

    /// Writes `quantity` consecutive coils from `starting_address`, their
    /// values taken from the packed bits of `values`, model by model (see
    /// `coils_write_outcome`); the writes before a failure stay made. Fails
    /// with `InvalidQuantity`, changing nothing, for a zero quantity.
    pub fn write_multiple_coils_request(&mut self, starting_address: u16, quantity: u16, values: &[u8]) -> (r: Result<(), MbusError>)
        requires
            old(self).wf(),
        ensures
            final(self).wf(),
            same_layout(old(self).coil_models(), final(self).coil_models()),
            final(self).holding_models() == old(self).holding_models(),
            final(self).input_models() == old(self).input_models(),
            quantity == 0 ==> r == Err::<(), MbusError>(MbusError::InvalidQuantity) && final(self).coil_models() == old(self).coil_models(),
            quantity > 0 ==> (domain_view(final(self).coil_models()), r) == coils_write_outcome(
                old(self).coil_models(),
                domain_view(old(self).coil_models()),
                starting_address as int,
                quantity as int,
                values@,
                0,
            ),
    {
        if quantity == 0 {
            return Err(MbusError::InvalidQuantity);
        }
        let ghost orig = self.coils@;
        let mut cursor: u16 = starting_address;
        let mut remaining_bits: u16 = quantity;
        let mut bit_offset: usize = 0;
        while remaining_bits > 0
            invariant
                banks_ok(self.holding@),
                banks_ok(self.input@),
                banks_ok(self.coils@),
                self.input@ == old(self).input@,
                self.holding@ == old(self).holding@,
                orig == old(self).coils@,
                banks_ok(orig),
                same_layout(orig, self.coils@),
                remaining_bits <= quantity,
                bit_offset == quantity - remaining_bits,
                coils_write_outcome(orig, domain_view(orig), starting_address as int, quantity as int, values@, 0)
                    == coils_write_outcome(orig, domain_view(self.coils@), cursor as int, remaining_bits as int, values@, bit_offset as int),
            decreases remaining_bits,
        {
            proof {
                assert forall|k: int| #[trigger] covers(orig, k, cursor as int) == covers(self.coils@, k, cursor as int) by {
                    if 0 <= k < orig.len() {
                        assert(self.coils@[k].wf());
                    }
                }
            }
            let i = match find_bank(&self.coils, cursor) {
                Some(i) => i,
                None => {
                    return Err(MbusError::InvalidAddress);
                },
            };
            proof {
                lemma_bank_for(self.coils@, i as int, cursor as int);
                lemma_bank_for(orig, i as int, cursor as int);
                assert(self.coils@[i as int].wf());
            }
            let map_max = self.coils[i].addr_max();
            let available = (map_max - cursor).saturating_add(1);
            let take = if remaining_bits < available {
                remaining_bits
            } else {
                available
            };
            assert(take == seg_take(orig, cursor as int, remaining_bits as int));
            let ghost before = self.coils@;
            let ghost dv = domain_view(before);
            proof {
                assert(covers(orig, i as int, cursor as int));
                let wt = apply_packed_writes(dv, cursor, take as int, values@, bit_offset as int, 0);
                assert(coils_write_outcome(orig, dv, cursor as int, remaining_bits as int, values@, bit_offset as int) == (if wt.1 is Err {
                    wt
                } else if cursor + take > u16::MAX {
                    (wt.0, Err::<(), MbusError>(MbusError::InvalidAddress))
                } else {
                    coils_write_outcome(orig, wt.0, cursor + take, remaining_bits - take, values@, bit_offset + take)
                }));
            }
            let w = self.coils[i].write_many_from_packed(cursor, take, values, bit_offset);
            proof {
                assert(self.coils@ == before.update(i as int, self.coils@[i as int]));
                assert forall|a: u16| before[i as int].spec_addr_min() <= a <= before[i as int].spec_addr_max() implies (#[trigger] before[i as int]@.dom().contains(a)
                    == dv.dom().contains(a) && (before[i as int]@.dom().contains(a) ==> before[i as int]@[a] == dv[a])) by {
                    lemma_domain_in_bank(before, i as int, a as int);
                }
                lemma_apply_packed_agree(before[i as int]@, dv, before[i as int].spec_addr_min() as int, before[i as int].spec_addr_max() as int, cursor, take as int, values@, bit_offset as int, 0);
                assert(self.coils@[i as int]@.dom() =~= before[i as int]@.dom());
                lemma_replace_bank(before, i as int, self.coils@[i as int]);
                lemma_same_layout_trans(orig, before, self.coils@);
                assert(domain_view(self.coils@) =~= apply_packed_writes(dv, cursor, take as int, values@, bit_offset as int, 0).0) by {
                    assert forall|a: u16| #[trigger] domain_view(self.coils@).dom().contains(a) == apply_packed_writes(dv, cursor, take as int, values@, bit_offset as int, 0).0.dom().contains(a) by {
                        if covers(before, i as int, a as int) {
                        } else {
                        }
                    }
                    assert forall|a: u16| #[trigger] domain_view(self.coils@).dom().contains(a) implies domain_view(self.coils@)[a] == apply_packed_writes(dv, cursor, take as int, values@, bit_offset as int, 0).0[a] by {
                        if covers(before, i as int, a as int) {
                        } else {
                        }
                    }
                }
            }
            match w {
                Ok(()) => {},
                Err(e) => {
                    return Err(e);
                },
            }
            cursor = match cursor.checked_add(take) {
                Some(c) => c,
                None => {
                    return Err(MbusError::InvalidAddress);
                },
            };
            remaining_bits = remaining_bits - take;
            bit_offset = bit_offset + take as usize;
        }
        Ok(())
    }
}

} // verus!
