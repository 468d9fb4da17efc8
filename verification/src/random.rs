use vstd::prelude::*;

verus! {

/// Multiplication by the golden-ratio constant modulo 2^32.
pub open spec fn mix(x: u32) -> u32 {
    ((x as nat * 2654435769nat) % 0x1_0000_0000nat) as u32
}

/// The integer hash: an xor with a seed constant, then three rounds of multiplication,
/// the last two each preceded by folding the high half into the low half.
pub open spec fn hash_spec(state: u32) -> u32 {
    let s1 = mix(state ^ 2747636419u32);
    let s2 = mix(s1 ^ (s1 >> 16u32));
    mix(s2 ^ (s2 >> 16u32))
}

/// Scrambles a 32-bit state into a pseudo-random 32-bit value.
pub fn hash(state: u32) -> (h: u32)
    ensures
        h == hash_spec(state),
{
    let mut state = state;
    state = (state ^ 2747636419).wrapping_mul(2654435769);
    state = (state ^ (state >> 16)).wrapping_mul(2654435769);
    state = (state ^ (state >> 16)).wrapping_mul(2654435769);
    state
}

/// The seed of grid corner `(cx, cy)` for noise seeded with `seed`.
pub open spec fn corner_seed(seed: u32, cx: u32, cy: u32) -> int {
    seed + 1512347 * cx + 213154127 * cy
}

/// The random value of grid corner `(cx, cy)`: the hash of the corner's seed.
pub fn corner_hash(seed: u32, cx: u32, cy: u32) -> (h: u32)
    requires
        corner_seed(seed, cx, cy) <= u32::MAX,
    ensures
        h == hash_spec(corner_seed(seed, cx, cy) as u32),
{
    hash(seed + 1512347 * cx + 213154127 * cy)
}

/// Multiplication by the inverse of the golden-ratio constant modulo 2^32.
spec fn unmix(y: u32) -> u32 {
    ((y as nat * 340573321nat) % 0x1_0000_0000nat) as u32
}

proof fn lemma_unmix_mix(x: u32)
    ensures
        unmix(mix(x)) == x,
{
    assert((((x as nat * 2654435769nat) % 0x1_0000_0000nat) * 340573321nat) % 0x1_0000_0000nat
        == x) by (bit_vector);
}

proof fn lemma_unfold_high_half(x: u32)
    ensures
        (x ^ (x >> 16u32)) ^ ((x ^ (x >> 16u32)) >> 16u32) == x,
{
    assert((x ^ (x >> 16u32)) ^ ((x ^ (x >> 16u32)) >> 16u32) == x) by (bit_vector);
}

proof fn lemma_unseed(x: u32)
    ensures
        (x ^ 2747636419u32) ^ 2747636419u32 == x,
{
    assert((x ^ 2747636419u32) ^ 2747636419u32 == x) by (bit_vector);
}

/// `hash` never maps two different states to the same value: it is a permutation of `u32`.
pub proof fn lemma_hash_injective(a: u32, b: u32)
    requires
        hash_spec(a) == hash_spec(b),
    ensures
        a == b,
{
    let a1 = mix(a ^ 2747636419u32);
    let a2 = mix(a1 ^ (a1 >> 16u32));
    let b1 = mix(b ^ 2747636419u32);
    let b2 = mix(b1 ^ (b1 >> 16u32));
    lemma_unmix_mix(a2 ^ (a2 >> 16u32));
    lemma_unmix_mix(b2 ^ (b2 >> 16u32));
    lemma_unfold_high_half(a2);
    lemma_unfold_high_half(b2);
    lemma_unmix_mix(a1 ^ (a1 >> 16u32));
    lemma_unmix_mix(b1 ^ (b1 >> 16u32));
    lemma_unfold_high_half(a1);
    lemma_unfold_high_half(b1);
    lemma_unmix_mix(a ^ 2747636419u32);
    lemma_unmix_mix(b ^ 2747636419u32);
    lemma_unseed(a);
    lemma_unseed(b);
}

/// `hash` in closed form, for every state: xor with 2747636419, then three rounds of
/// multiplication by 2654435769 modulo 2^32, the second and third each preceded by xoring
/// the value with its top 16 bits (the value divided by 65536).
pub proof fn lemma_hash_closed_form(s: u32)
    ensures
        ({
            let a = ((s ^ 2747636419u32) as nat * 2654435769nat % 4294967296nat) as u32;
            let b = ((a ^ (a / 65536u32)) as nat * 2654435769nat % 4294967296nat) as u32;
            let c = ((b ^ (b / 65536u32)) as nat * 2654435769nat % 4294967296nat) as u32;
            hash_spec(s) == c
        }),
{
    let a = ((s ^ 2747636419u32) as nat * 2654435769nat % 4294967296nat) as u32;
    assert(a >> 16u32 == a / 65536u32) by (bit_vector);
    let b = ((a ^ (a / 65536u32)) as nat * 2654435769nat % 4294967296nat) as u32;
    assert(b >> 16u32 == b / 65536u32) by (bit_vector);
}

} // verus!
