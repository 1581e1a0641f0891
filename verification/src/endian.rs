//! Unsigned integers as they lie in a byte slice, under either byte order.

use vstd::arithmetic::power2::{lemma2_to64, lemma_pow2_adds, lemma_pow2_strictly_increases, pow2};
use vstd::bits::lemma_usize_shl_is_mul;
use vstd::layout::unsigned_int_max_values;
use vstd::prelude::*;

verus! {

/// Byte order of the multi-byte integers in a TIFF section.
#[derive(Debug, Clone, Copy, PartialEq, Eq, Structural)]
pub enum Endian {
    /// Least significant byte first (`"II"`).
    LittleEndian,
    /// Most significant byte first (`"MM"`).
    BigEndian,
}

impl Endian {
    /// The other byte order.
    pub open spec fn swapped(self) -> Endian {
        match self {
            Endian::LittleEndian => Endian::BigEndian,
            Endian::BigEndian => Endian::LittleEndian,
        }
    }
}

/// The number whose base-256 digits are `digits`, least significant first:
/// the digit at position `i` counts `digits[i] * 2^(8 * i)`.
pub open spec fn le_value(digits: Seq<u8>) -> nat
    decreases digits.len(),
{
    if digits.len() == 0 {
        0
    } else {
        le_value(digits.drop_last()) + digits.last() as nat * pow2(8 * (digits.len() - 1) as nat)
    }
}

/// The bytes of `bytes` from least to most significant under `order`: as
/// they lie for little endian, reversed for big endian.
pub open spec fn by_significance(bytes: Seq<u8>, order: Endian) -> Seq<u8> {
    match order {
        Endian::LittleEndian => bytes,
        Endian::BigEndian => bytes.reverse(),
    }
}

/// The unsigned integer that `bytes` encodes under `order`.
pub open spec fn endian_value(bytes: Seq<u8>, order: Endian) -> nat {
    le_value(by_significance(bytes, order))
}

/// The unsigned integer that the `n` least significant bytes of `bytes`
/// encode under `order` (all of them where `bytes` has fewer than `n`): the
/// first `n` bytes for little endian, the last `n` for big endian.
pub open spec fn endian_value_n(bytes: Seq<u8>, order: Endian, n: nat) -> nat {
    let used = if n <= bytes.len() { n } else { bytes.len() };
    le_value(by_significance(bytes, order).take(used as int))
}

/// An integer of `digits.len()` bytes is below `2^(8 * digits.len())`.
pub proof fn lemma_le_value_bound(digits: Seq<u8>)
    ensures
        le_value(digits) < pow2(8 * digits.len()),
    decreases digits.len(),
{
    if digits.len() == 0 {
        lemma2_to64();
    } else {
        let rest = digits.drop_last();
        let high = pow2(8 * rest.len());
        lemma_le_value_bound(rest);
        lemma_pow2_adds(8 * rest.len(), 8);
        lemma2_to64();
        assert(digits.last() as nat * high <= 255 * high) by (nonlinear_arith)
            requires
                digits.last() as nat <= 255,
        ;
    }
}

/// An integer of `bytes.len()` bytes is below `2^(8 * bytes.len())`, under
/// either byte order.
pub proof fn lemma_endian_value_bound(bytes: Seq<u8>, order: Endian)
    ensures
        endian_value(bytes, order) < pow2(8 * bytes.len()),
{
    lemma_le_value_bound(by_significance(bytes, order));
}

/// Reading a slice under one byte order gives what reading the reversed slice
/// under the other byte order gives.
pub proof fn lemma_reversed_bytes_swap_order(bytes: Seq<u8>, order: Endian)
    ensures
        endian_value(bytes, order) == endian_value(bytes.reverse(), order.swapped()),
{
    assert(bytes.reverse().reverse() =~= bytes);
}

/// Decodes the `n` least significant bytes of `bytes` under `byte_order`:
/// the first `n` for little endian, the last `n` for big endian, and the
/// whole slice where it is shorter than `n`.
///
/// The bytes that are read must fit a `usize`.
pub fn usizeify_n(bytes: &[u8], byte_order: Endian, n: usize) -> (value: usize)
    requires
        n <= usize::BITS / 8 || bytes.len() <= usize::BITS / 8,
    ensures
        value == endian_value_n(bytes@, byte_order, n as nat),
        n >= bytes.len() ==> value == endian_value(bytes@, byte_order),
{
    let len = bytes.len();
    let used = if n <= len { n } else { len };
    let ghost digits = by_significance(bytes@, byte_order);
    let mut sum: usize = 0;
    let mut index: usize = 0;
    while index < used
        invariant
            index <= used <= len,
            len == bytes.len(),
            used * 8 <= usize::BITS,
            digits == by_significance(bytes@, byte_order),
            sum == le_value(digits.take(index as int)),
        decreases used - index,
    {
        let byte = match byte_order {
            Endian::LittleEndian => bytes[index],
            Endian::BigEndian => bytes[len - 1 - index],
        };
        proof {
            let next = digits.take(index + 1);
            assert(next.drop_last() == digits.take(index as int));
            lemma_le_value_bound(next);
            if 8 * (index + 1) < usize::BITS {
                lemma_pow2_strictly_increases((8 * (index + 1)) as nat, usize::BITS as nat);
            }
            unsigned_int_max_values();
            lemma_usize_shl_is_mul(byte as usize, (index * 8) as usize);
        }
        sum = sum + ((byte as usize) << (index * 8));
        index += 1;
    }
    assert(n >= len ==> digits.take(used as int) == digits);
    sum
}

/// Decodes the whole of `bytes` as one unsigned integer under `byte_order`.
///
/// The slice must fit a `usize`: at most four bytes on a 32-bit machine,
/// eight on a 64-bit one.
pub fn usizeify(bytes: &[u8], byte_order: Endian) -> (value: usize)
    requires
        bytes.len() <= usize::BITS / 8,
    ensures
        value == endian_value(bytes@, byte_order),
{
    usizeify_n(bytes, byte_order, bytes.len())
}

} // verus!
