use vstd::prelude::*;

verus! {

/// Whether bit `k` (0 = least significant) of `b` is set.
pub open spec fn bit_set(b: u8, k: int) -> bool {
    b & (1u8 << (k as u8)) != 0
}

/// Whether the `i`-th bit of a packed little-bit-first byte sequence is set:
/// bit `i % 8` of byte `i / 8`.
pub open spec fn packed_bit(bytes: Seq<u8>, i: int) -> bool {
    bit_set(bytes[i / 8], i % 8)
}

/// Number of bytes needed to hold `n` packed bits.
pub open spec fn ceil8(n: int) -> int {
    (n + 7) / 8
}

/// `bytes` is the packing of `values`: bit `k` of byte `j` is set exactly
/// when `values` has an element at position `8 * j + k` and it is `true`.
pub open spec fn is_packing(bytes: Seq<u8>, values: Seq<bool>) -> bool {
    &&& bytes.len() == ceil8(values.len() as int)
    &&& forall|j: int, k: int|
        0 <= j < bytes.len() && 0 <= k < 8 ==> #[trigger] bit_set(bytes[j], k) == (8 * j + k
            < values.len() && values[8 * j + k])
}

/// The first `n` bits of a packed byte sequence.
pub open spec fn unpack(bytes: Seq<u8>, n: nat) -> Seq<bool> {
    Seq::new(n, |i: int| packed_bit(bytes, i))
}

/// Facts about setting, clearing and testing one bit of a byte.
pub proof fn lemma_bit_ops(b: u8, k: u8, j: u8)
    requires
        k < 8,
        j < 8,
    ensures
        (b | (1u8 << k)) & (1u8 << k) != 0,
        (b & !(1u8 << k)) & (1u8 << k) == 0,
        j != k ==> (((b | (1u8 << k)) & (1u8 << j)) != 0) == ((b & (1u8 << j)) != 0),
        j != k ==> (((b & !(1u8 << k)) & (1u8 << j)) != 0) == ((b & (1u8 << j)) != 0),
        ((b >> j) & 1u8 == 1u8) == ((b & (1u8 << j)) != 0),
{
    assert((b | (1u8 << k)) & (1u8 << k) != 0) by (bit_vector)
        requires
            k < 8,
    ;
    assert((b & !(1u8 << k)) & (1u8 << k) == 0) by (bit_vector)
        requires
            k < 8,
    ;
    assert(j != k ==> (((b | (1u8 << k)) & (1u8 << j)) != 0) == ((b & (1u8 << j)) != 0))
        by (bit_vector)
        requires
            k < 8,
            j < 8,
    ;
    assert(j != k ==> (((b & !(1u8 << k)) & (1u8 << j)) != 0) == ((b & (1u8 << j)) != 0))
        by (bit_vector)
        requires
            k < 8,
            j < 8,
    ;
    assert(((b >> j) & 1u8 == 1u8) == ((b & (1u8 << j)) != 0)) by (bit_vector)
        requires
            j < 8,
    ;
}

/// A byte with none of its eight bits set is zero; zero has no bit set.
pub proof fn lemma_byte_zero(b: u8)
    ensures
        (b == 0) == (!bit_set(b, 0) && !bit_set(b, 1) && !bit_set(b, 2) && !bit_set(b, 3)
            && !bit_set(b, 4) && !bit_set(b, 5) && !bit_set(b, 6) && !bit_set(b, 7)),
{
    assert((b == 0) == ((b & (1u8 << 0u8)) == 0 && (b & (1u8 << 1u8)) == 0 && (b & (1u8 << 2u8))
        == 0 && (b & (1u8 << 3u8)) == 0 && (b & (1u8 << 4u8)) == 0 && (b & (1u8 << 5u8)) == 0
        && (b & (1u8 << 6u8)) == 0 && (b & (1u8 << 7u8)) == 0)) by (bit_vector);
}

/// Unpacking the packing of a sequence of booleans gives the sequence back.
pub proof fn lemma_unpack_packing(bytes: Seq<u8>, values: Seq<bool>)
    requires
        is_packing(bytes, values),
    ensures
        unpack(bytes, values.len()) == values,
{
    assert forall|i: int| 0 <= i < values.len() implies #[trigger] unpack(bytes, values.len())[i]
        == values[i] by {
        let j = i / 8;
        let k = i % 8;
        assert(0 <= j < bytes.len());
        assert(8 * j + k == i);
        assert(bit_set(bytes[j], k) == (8 * j + k < values.len() && values[8 * j + k]));
    }
    assert(unpack(bytes, values.len()) =~= values);
}


/// Bits are numbered from the least significant: bit `k` of `b` is set
/// exactly when `b` divided by `2^k` is odd, and `n` values take the
/// smallest number of bytes with room for `n` bits.
pub proof fn lemma_bit_numbering(b: u8, k: u8, n: nat)
    requires
        k < 8,
    ensures
        bit_set(b, k as int) == ((b >> k) % 2 == 1),
        bit_set(b, 0) == (b % 2 == 1),
        bit_set(b, 7) == (b >= 128),
        8 * ceil8(n as int) >= n,
        n > 0 ==> 8 * (ceil8(n as int) - 1) < n,
        ceil8(0) == 0,
{
    assert(((b & (1u8 << k)) != 0) == ((b >> k) % 2 == 1)) by (bit_vector)
        requires
            k < 8,
    ;
    assert(((b & (1u8 << 0u8)) != 0) == (b % 2 == 1)) by (bit_vector);
    assert(((b & (1u8 << 7u8)) != 0) == (b >= 128)) by (bit_vector);
}

} // verus!
