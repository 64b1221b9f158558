//! Bit sequences, most significant bit first: how numbers and bytes are
//! written as bits, and how bits are read back.
use vstd::prelude::*;

verus! {

/// The `n` low-order bits of `value`, most significant first.
pub open spec fn be_bits(value: nat, n: nat) -> Seq<bool>
    decreases n,
{
    if n == 0 {
        Seq::<bool>::empty()
    } else {
        be_bits(value / 2, (n - 1) as nat).push(value % 2 == 1)
    }
}

/// Two to the power `n`.
pub open spec fn two_to(n: nat) -> nat
    decreases n,
{
    if n == 0 {
        1
    } else {
        2 * two_to((n - 1) as nat)
    }
}

/// The powers of two up to the twenty-first.
pub proof fn lemma_two_to_values()
    ensures
        two_to(0) == 1,
        two_to(1) == 2,
        two_to(2) == 4,
        two_to(3) == 8,
        two_to(4) == 16,
        two_to(5) == 32,
        two_to(6) == 64,
        two_to(7) == 128,
        two_to(8) == 256,
        two_to(9) == 512,
        two_to(10) == 1024,
        two_to(11) == 2048,
        two_to(12) == 4096,
        two_to(13) == 8192,
        two_to(14) == 16384,
        two_to(15) == 32768,
        two_to(16) == 65536,
        two_to(17) == 131072,
        two_to(18) == 262144,
        two_to(19) == 524288,
        two_to(20) == 1048576,
        two_to(21) == 2097152,
{
    reveal_with_fuel(two_to, 23);
}

/// The number that a bit sequence denotes, most significant bit first.
pub open spec fn bits_value(bits: Seq<bool>) -> nat
    decreases bits.len(),
{
    if bits.len() == 0 {
        0
    } else {
        2 * bits_value(bits.drop_last()) + if bits.last() {
            1nat
        } else {
            0nat
        }
    }
}

/// A sequence of `n` zero bits.
pub open spec fn zero_bits(n: nat) -> Seq<bool> {
    Seq::new(n, |i: int| false)
}

/// The bytes that a bit sequence fills, eight bits to a byte; bits behind
/// the last full byte are left out.
pub open spec fn pack_bytes(bits: Seq<bool>) -> Seq<u8> {
    Seq::new(bits.len() / 8, |i: int| bits_value(bits.subrange(8 * i, 8 * i + 8)) as u8)
}

/// The bits behind the last full byte.
pub open spec fn residue_bits(bits: Seq<bool>) -> Seq<bool> {
    bits.subrange(((bits.len() / 8) * 8) as int, bits.len() as int)
}

/// The place value of bit `k` of a byte, bit 0 being the most significant.
pub open spec fn bit_weight(k: int) -> int {
    if k == 0 {
        128
    } else if k == 1 {
        64
    } else if k == 2 {
        32
    } else if k == 3 {
        16
    } else if k == 4 {
        8
    } else if k == 5 {
        4
    } else if k == 6 {
        2
    } else {
        1
    }
}

/// Bit `k` of a byte, bit 0 being the most significant.
pub open spec fn byte_bit(b: u8, k: int) -> bool {
    (b as int / bit_weight(k)) % 2 == 1
}

/// The bits of a byte sequence, eight per byte, most significant first.
pub open spec fn bytes_to_bits(bytes: Seq<u8>) -> Seq<bool> {
    Seq::new(8 * bytes.len(), |i: int| byte_bit(bytes[i / 8], i % 8))
}

/// `be_bits` yields as many bits as asked for.
pub proof fn lemma_be_bits_len(value: nat, n: nat)
    ensures
        be_bits(value, n).len() == n,
    decreases n,
{
    if n > 0 {
        lemma_be_bits_len(value / 2, (n - 1) as nat);
    }
}

/// The bits of zero are all zero.
pub proof fn lemma_be_bits_zero(n: nat)
    ensures
        be_bits(0, n) =~= zero_bits(n),
    decreases n,
{
    if n > 0 {
        lemma_be_bits_zero((n - 1) as nat);
    }
}

/// A number of `n` bits is less than two to the power `n`.
pub proof fn lemma_bits_value_bound(bits: Seq<bool>)
    ensures
        bits_value(bits) < two_to(bits.len()),
    decreases bits.len(),
{
    if bits.len() > 0 {
        lemma_bits_value_bound(bits.drop_last());
    }
}

/// A zero bit behind a bit sequence doubles the number that it denotes.
pub proof fn lemma_bits_value_shift(bits: Seq<bool>, n: nat)
    ensures
        bits_value(bits + zero_bits(n)) == bits_value(bits) * two_to(n),
    decreases n,
{
    let v = bits_value(bits);
    if n == 0 {
        assert(bits + zero_bits(0) =~= bits);
        assert(v * 1 == v) by (nonlinear_arith);
    } else {
        let longer = bits + zero_bits(n);
        assert(longer.drop_last() =~= bits + zero_bits((n - 1) as nat));
        assert(!longer.last());
        assert(bits_value(longer) == 2 * bits_value(longer.drop_last()));
        lemma_bits_value_shift(bits, (n - 1) as nat);
        assert(bits_value(bits) * (2 * two_to((n - 1) as nat)) == 2 * (bits_value(bits) * two_to(
            (n - 1) as nat,
        ))) by (nonlinear_arith);
    }
}

/// Four zero bits behind a bit sequence that ends four bits behind a byte
/// boundary fill its last byte: the full bytes stay, and the bits behind
/// them become the high half of one more byte.
pub proof fn lemma_pack_half_byte(bits: Seq<bool>)
    requires
        bits.len() % 8 == 4,
    ensures
        bits_value(residue_bits(bits)) < 16,
        pack_bytes(bits + zero_bits(4)) == pack_bytes(bits).push(
            (bits_value(residue_bits(bits)) * 16) as u8,
        ),
{
    let k = (bits.len() / 8) as int;
    let longer = bits + zero_bits(4);
    let tail = residue_bits(bits);
    lemma_bits_value_bound(tail);
    lemma_two_to_values();
    lemma_bits_value_shift(tail, 4);
    assert(longer.subrange(8 * k, 8 * k + 8) =~= tail + zero_bits(4));
    assert forall|i: int| 0 <= i < k implies #[trigger] longer.subrange(8 * i, 8 * i + 8)
        == bits.subrange(8 * i, 8 * i + 8) by {
        assert(longer.subrange(8 * i, 8 * i + 8) =~= bits.subrange(8 * i, 8 * i + 8));
    }
    assert(pack_bytes(longer) =~= pack_bytes(bits).push((bits_value(tail) * 16) as u8));
}

/// Bit `i` of the sequence of all bits of `bytes`.
pub fn get_bit(bytes: &[u8], i: usize) -> (b: bool)
    requires
        i < 8 * bytes@.len(),
    ensures
        b == bytes_to_bits(bytes@)[i as int],
{
    let byte: u8 = bytes[i / 8];
    let k: usize = i % 8;
    let weight: u8 = if k == 0 {
        128
    } else if k == 1 {
        64
    } else if k == 2 {
        32
    } else if k == 3 {
        16
    } else if k == 4 {
        8
    } else if k == 5 {
        4
    } else if k == 6 {
        2
    } else {
        1
    };
    (byte / weight) % 2 == 1
}

} // verus!
