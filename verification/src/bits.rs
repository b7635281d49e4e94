use vstd::prelude::*;

verus! {

/// Bit `i` of a bit string, reading `false` past its end.
pub open spec fn bit_or_zero(bits: Seq<bool>, i: int) -> bool {
    0 <= i < bits.len() && bits[i]
}

/// The number whose binary digits, most significant first, are the `n` bits
/// of `bits` starting at `start` (bits past the end count as zero).
pub open spec fn chunk_value(bits: Seq<bool>, start: int, n: nat) -> nat
    decreases n,
{
    if n == 0 {
        0
    } else {
        2 * chunk_value(bits, start, (n - 1) as nat) + if bit_or_zero(bits, start + n - 1) {
            1nat
        } else {
            0nat
        }
    }
}

/// `2` to the power `n`.
pub open spec fn two_pow(n: nat) -> nat
    decreases n,
{
    if n == 0 {
        1
    } else {
        2 * two_pow((n - 1) as nat)
    }
}

/// Whether `bytes` holds `bits` packed eight to a byte, most significant bit
/// first, with the last byte padded with zero bits.
pub open spec fn packs(bytes: Seq<u8>, bits: Seq<bool>) -> bool {
    &&& bytes.len() == (bits.len() + 7) / 8
    &&& forall|i: int| 0 <= i < bytes.len() ==> #[trigger] bytes[i] == chunk_value(bits, 8 * i, 8)
}

proof fn lemma_chunk_value_bound(bits: Seq<bool>, start: int, n: nat)
    ensures
        chunk_value(bits, start, n) < two_pow(n),
    decreases n,
{
    if n > 0 {
        lemma_chunk_value_bound(bits, start, (n - 1) as nat);
    }
}

proof fn lemma_two_pow_small(n: nat)
    requires
        n < 8,
    ensures
        2 * two_pow(n) <= 256,
{
    reveal_with_fuel(two_pow, 9);
}

/// Packs bits eight to a byte, most significant bit first; the last byte is
/// padded with zero bits.
pub fn pack_bits(bits: &Vec<bool>) -> (r: Vec<u8>)
    ensures
        packs(r@, bits@),
{
    let mut r: Vec<u8> = Vec::new();
    let mut current: u8 = 0;
    let mut count: u8 = 0;
    let mut k: usize = 0;
    while k < bits.len()
        invariant
            k <= bits@.len(),
            count < 8,
            r@.len() * 8 + count == k,
            current == chunk_value(bits@, (8 * r@.len()) as int, count as nat),
            forall|i: int| 0 <= i < r@.len() ==> #[trigger] r@[i] == chunk_value(bits@, 8 * i, 8),
        decreases bits@.len() - k,
    {
        let ghost start: int = (8 * r@.len()) as int;
        proof {
            lemma_chunk_value_bound(bits@, start, count as nat);
            lemma_two_pow_small(count as nat);
        }
        let b: u8 = if bits[k] { 1 } else { 0 };
        assert(start + (count + 1) - 1 == k);
        current = current * 2 + b;
        count = count + 1;
        if count == 8 {
            r.push(current);
            current = 0;
            count = 0;
        }
        k = k + 1;
    }
    if count > 0 {
        let ghost start: int = (8 * r@.len()) as int;
        while count < 8
            invariant
                0 < count <= 8,
                start + count >= bits@.len(),
                start == 8 * r@.len(),
                current == chunk_value(bits@, start, count as nat),
            decreases 8 - count,
        {
            proof {
                lemma_chunk_value_bound(bits@, start, count as nat);
                lemma_two_pow_small(count as nat);
            }
            current = current * 2;
            count = count + 1;
        }
        r.push(current);
    }
    r
}

} // verus!
