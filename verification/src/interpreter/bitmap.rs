//! Bitmaps as they are handed on: eight flags to a byte, the first flag in
//! the lowest bit.
use vstd::prelude::*;
use crate::interpreter::laws::count_true;

verus! {

/// Whether the bit `bit` of a byte is set.
pub open spec fn byte_has(byte: u8, bit: u8) -> bool {
    (byte >> bit) & 1 == 1
}

/// Whether the flag at `idx` is set in a packed bitmap.
pub open spec fn bitmap_has(bytes: Seq<u8>, idx: int) -> bool {
    byte_has(bytes[idx / 8], (idx % 8) as u8)
}

/// The number of flags that are set among the first `n` of a packed
/// bitmap.
pub open spec fn bitmap_count(bytes: Seq<u8>, n: nat) -> nat
    decreases n,
{
    if n == 0 {
        0
    } else {
        bitmap_count(bytes, (n - 1) as nat) + if bitmap_has(bytes, n - 1) {
            1nat
        } else {
            0nat
        }
    }
}

/// Whether the bytes are the flags, packed: they hold each flag at its
/// position, and no bit behind the last flag is set.
pub open spec fn is_packed(bytes: Seq<u8>, bits: Seq<bool>) -> bool {
    &&& bytes.len() == (bits.len() + 7) / 8
    &&& forall|i: int| 0 <= i < bits.len() ==> bitmap_has(bytes, i) == #[trigger] bits[i]
    &&& forall|i: int| bits.len() <= i < 8 * bytes.len() ==> !#[trigger] bitmap_has(bytes, i)
}

/// A byte with one more bit set has that bit and the bits it had.
proof fn lemma_set_bit(byte: u8, bit: u8, other: u8)
    requires
        bit < 8,
        other < 8,
    ensures
        byte_has(byte | (1u8 << bit), other) == (other == bit || byte_has(byte, other)),
        !byte_has(0u8, other),
{
    assert((((byte | (1u8 << bit)) >> other) & 1 == 1) == (other == bit || ((byte >> other) & 1
        == 1))) by (bit_vector)
        requires
            bit < 8,
            other < 8,
    ;
    assert((0u8 >> other) & 1 == 0) by (bit_vector)
        requires
            other < 8,
    ;
}

/// Packs flags into bytes, eight to a byte, the first flag in the lowest
/// bit.
pub fn pack_bits(bits: &Vec<bool>) -> (res: Vec<u8>)
    ensures
        is_packed(res@, bits@),
{
    let n: usize = bits.len();
    let mut bytes: Vec<u8> = Vec::new();
    let mut i: usize = 0;
    while i < n
        invariant
            n == bits@.len(),
            i <= n,
            bytes@.len() == (i + 7) / 8,
            forall|k: int| 0 <= k < i ==> bitmap_has(bytes@, k) == #[trigger] bits@[k],
            forall|k: int| i <= k < 8 * bytes@.len() ==> !#[trigger] bitmap_has(bytes@, k),
        decreases n - i,
    {
        let ghost before = bytes@;
        let bit: u8 = (i % 8) as u8;
        if bit == 0 {
            bytes.push(0u8);
            proof {
                assert forall|k: int| i <= k < 8 * bytes@.len() implies !#[trigger] bitmap_has(
                    bytes@,
                    k,
                ) by {
                    if k / 8 == i / 8 {
                        lemma_set_bit(0u8, 0u8, (k % 8) as u8);
                    }
                }
            }
        }
        let ghost pushed = bytes@;
        let last: usize = bytes.len() - 1;
        assert(last == i / 8);
        if bits[i] {
            let byte: u8 = bytes[last];
            bytes[last] = byte | (1u8 << bit);
            proof {
                assert forall|k: int| 0 <= k < 8 * bytes@.len() implies #[trigger] bitmap_has(
                    bytes@,
                    k,
                ) == (k == i || bitmap_has(pushed, k)) by {
                    if k / 8 == last as int {
                        lemma_set_bit(byte, bit, (k % 8) as u8);
                    }
                }
            }
        }
        i = i + 1;
    }
    bytes
}

/// A packed bitmap has as many bits set as there are flags that are set.
pub proof fn lemma_packed_count(bytes: Seq<u8>, bits: Seq<bool>, n: nat)
    requires
        is_packed(bytes, bits),
        n <= bits.len(),
    ensures
        bitmap_count(bytes, n) == count_true(bits.take(n as int)),
    decreases n,
{
    if n == 0 {
        assert(bits.take(0).len() == 0);
    } else {
        lemma_packed_count(bytes, bits, (n - 1) as nat);
        assert(bits.take(n as int).drop_last() =~= bits.take(n - 1));
        assert(bits.take(n as int).last() == bits[n - 1]);
    }
}

} // verus!
