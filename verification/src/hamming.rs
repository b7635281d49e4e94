use vstd::prelude::*;

verus! {

/// Bit `i` (counted from the least significant bit) of `x`.
pub open spec fn bit(x: u64, i: nat) -> bool {
    (x >> (i as u64)) & 1u64 == 1u64
}

/// Number of set bits among the `n` lowest bits of `x`.
pub open spec fn ones_below(x: u64, n: nat) -> nat
    decreases n,
{
    if n == 0 {
        0
    } else {
        ones_below(x, (n - 1) as nat) + if bit(x, (n - 1) as nat) { 1nat } else { 0nat }
    }
}

/// Number of bit positions, among the `n` lowest, where `a` and `b` differ.
pub open spec fn differing_bits(a: u64, b: u64, n: nat) -> nat
    decreases n,
{
    if n == 0 {
        0
    } else {
        differing_bits(a, b, (n - 1) as nat) + if bit(a, (n - 1) as nat) != bit(b, (n - 1) as nat) {
            1nat
        } else {
            0nat
        }
    }
}

/// Hamming distance of two 64-bit hash values: the number of bit positions where they differ.
pub open spec fn hamming(a: u64, b: u64) -> nat {
    differing_bits(a, b, 64)
}

proof fn lemma_xor_bit(a: u64, b: u64, i: u64)
    requires
        i < 64,
    ensures
        ((a ^ b) >> i) & 1u64 == 1u64 <==> (((a >> i) & 1u64 == 1u64) != ((b >> i) & 1u64 == 1u64)),
{
    assert(((a ^ b) >> i) & 1u64 == 1u64 <==> (((a >> i) & 1u64 == 1u64) != ((b >> i) & 1u64
        == 1u64))) by (bit_vector)
        requires
            i < 64,
    ;
}

proof fn lemma_ones_of_xor(a: u64, b: u64, n: nat)
    requires
        n <= 64,
    ensures
        ones_below(a ^ b, n) == differing_bits(a, b, n),
    decreases n,
{
    if n > 0 {
        lemma_ones_of_xor(a, b, (n - 1) as nat);
        lemma_xor_bit(a, b, (n - 1) as u64);
    }
}

proof fn lemma_differing_bits_bound(a: u64, b: u64, n: nat)
    ensures
        differing_bits(a, b, n) <= n,
    decreases n,
{
    if n > 0 {
        lemma_differing_bits_bound(a, b, (n - 1) as nat);
    }
}

/// Hamming distance between two 64-bit hash values.
pub fn hamming_distance(hash1: u64, hash2: u64) -> (r: u32)
    ensures
        r == hamming(hash1, hash2),
        r <= 64,
{
    let x = hash1 ^ hash2;
    let mut count: u32 = 0;
    let mut k: u64 = 0;
    while k < 64
        invariant
            k <= 64,
            count == ones_below(x, k as nat),
            count <= k,
        decreases 64 - k,
    {
        if (x >> k) & 1u64 == 1u64 {
            count = count + 1;
        }
        k = k + 1;
    }
    proof {
        lemma_ones_of_xor(hash1, hash2, 64);
    }
    count
}

proof fn lemma_differing_bits_symmetric(a: u64, b: u64, n: nat)
    ensures
        differing_bits(a, b, n) == differing_bits(b, a, n),
    decreases n,
{
    if n > 0 {
        lemma_differing_bits_symmetric(a, b, (n - 1) as nat);
    }
}

proof fn lemma_differing_bits_triangle(a: u64, b: u64, c: u64, n: nat)
    ensures
        differing_bits(a, c, n) <= differing_bits(a, b, n) + differing_bits(b, c, n),
    decreases n,
{
    if n > 0 {
        lemma_differing_bits_triangle(a, b, c, (n - 1) as nat);
    }
}

/// Values with no differing bit among the `n` lowest agree on those bits.
proof fn lemma_equal_low_bits(a: u64, b: u64, n: nat)
    requires
        1 <= n <= 64,
        differing_bits(a, b, n) == 0,
    ensures
        a & (u64::MAX >> ((64 - n) as u64)) == b & (u64::MAX >> ((64 - n) as u64)),
    decreases n,
{
    let i = (n - 1) as u64;
    assert(((a >> i) & 1u64 == 1u64) == ((b >> i) & 1u64 == 1u64));
    if n == 1 {
        assert(a & (u64::MAX >> 63u64) == b & (u64::MAX >> 63u64)) by (bit_vector)
            requires
                ((a >> 0u64) & 1u64 == 1u64) == ((b >> 0u64) & 1u64 == 1u64),
        ;
    } else {
        lemma_equal_low_bits(a, b, (n - 1) as nat);
        let sh = (64 - n) as u64;
        assert(a & (u64::MAX >> sh) == b & (u64::MAX >> sh)) by (bit_vector)
            requires
                sh < 63,
                i == 63 - sh,
                a & (u64::MAX >> (sh + 1)) == b & (u64::MAX >> (sh + 1)),
                ((a >> i) & 1u64 == 1u64) == ((b >> i) & 1u64 == 1u64),
        ;
    }
}

/// The Hamming distance is symmetric, zero exactly on equal values, bounded
/// by 64 and satisfies the triangle inequality.
pub proof fn lemma_hamming_metric(a: u64, b: u64, c: u64)
    ensures
        hamming(a, b) == hamming(b, a),
        hamming(a, a) == 0,
        hamming(a, b) == 0 <==> a == b,
        hamming(a, b) <= 64,
        hamming(a, c) <= hamming(a, b) + hamming(b, c),
{
    if hamming(a, b) == 0 {
        lemma_equal_low_bits(a, b, 64);
        assert(a & (u64::MAX >> 0u64) == a && b & (u64::MAX >> 0u64) == b) by (bit_vector);
    }
    lemma_differing_bits_symmetric(a, b, 64);
    lemma_differing_bits_triangle(a, b, c, 64);
    lemma_differing_bits_bound(a, b, 64);
    lemma_differing_bits_self(a, 64);
}

proof fn lemma_differing_bits_self(a: u64, n: nat)
    ensures
        differing_bits(a, a, n) == 0,
    decreases n,
{
    if n > 0 {
        lemma_differing_bits_self(a, (n - 1) as nat);
    }
}

} // verus!
