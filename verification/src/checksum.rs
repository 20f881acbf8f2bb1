//! The checksum by which a changed migration file is recognised.

use vstd::prelude::*;

verus! {

/// The FNV-1a offset basis for 64 bits.
pub const FNV_OFFSET_BASIS: u64 = 0xcbf29ce484222325;

/// The FNV-1a prime for 64 bits.
pub const FNV_PRIME: u64 = 0x100000001b3;

/// One round of FNV-1a: mix a byte in, then multiply modulo 2^64.
pub open spec fn fnv_round(hash: u64, byte: u8) -> u64 {
    (((hash ^ (byte as u64)) * FNV_PRIME) % 0x1_0000_0000_0000_0000) as u64
}

/// FNV-1a over `data`, started at `hash`.
pub open spec fn fnv_from(hash: u64, data: Seq<u8>) -> u64 {
    data.fold_left(hash, |h: u64, b: u8| fnv_round(h, b))
}

/// The 64-bit FNV-1a checksum of `data`.
pub open spec fn fnv1a(data: Seq<u8>) -> u64 {
    fnv_from(FNV_OFFSET_BASIS, data)
}

/// The 64-bit FNV-1a checksum of `data`.
pub fn hash64(data: &[u8]) -> (hash: u64)
    ensures
        hash == fnv1a(data@),
{
    let mut hash: u64 = FNV_OFFSET_BASIS;
    let mut i: usize = 0;
    while i < data.len()
        invariant
            i <= data@.len(),
            hash == fnv1a(data@.take(i as int)),
        decreases data@.len() - i,
    {
        proof {
            assert(data@.take(i + 1).drop_last() =~= data@.take(i as int));
        }
        let mixed: u64 = hash ^ (data[i] as u64);
        hash = mixed.wrapping_mul(FNV_PRIME);
        i += 1;
    }
    proof {
        assert(data@.take(data@.len() as int) =~= data@);
    }
    hash
}

/// A checksum can be taken piece by piece: hashing `a` and going on with `b`
/// gives the checksum of the two put together.
pub proof fn fnv1a_of_concatenation(a: Seq<u8>, b: Seq<u8>)
    ensures
        fnv1a(a + b) == fnv_from(fnv1a(a), b),
    decreases b.len(),
{
    if b.len() == 0 {
        assert(a + b =~= a);
    } else {
        fnv1a_of_concatenation(a, b.drop_last());
        assert((a + b).drop_last() =~= a + b.drop_last());
    }
}

/// Multiplying by the prime loses nothing: it is odd, and so has an inverse
/// modulo 2^64.
proof fn prime_is_invertible(x: u64, y: u64)
    requires
        (x * FNV_PRIME) % 0x1_0000_0000_0000_0000 == (y * FNV_PRIME) % 0x1_0000_0000_0000_0000,
    ensures
        x == y,
{
    undoing_the_multiplication(x as int);
    undoing_the_multiplication(y as int);
}

proof fn undoing_the_multiplication(x: int)
    requires
        0 <= x < 0x1_0000_0000_0000_0000,
    ensures
        (((x * FNV_PRIME) % 0x1_0000_0000_0000_0000) * 0xce965057aff6957b) % 0x1_0000_0000_0000_0000 == x,
{
    let m: int = 0x1_0000_0000_0000_0000;
    let p: int = FNV_PRIME as int;
    let inverse: int = 0xce965057aff6957b;
    let k: int = 0xce9650590f;
    assert(p * inverse == 1 + k * m);
    vstd::arithmetic::div_mod::lemma_mul_mod_noop_left(x * p, inverse, m);
    assert((x * p) * inverse == m * (x * k) + x) by (nonlinear_arith)
        requires
            p * inverse == 1 + k * m,
    ;
    vstd::arithmetic::div_mod::lemma_mod_multiples_vanish(x * k, x, m);
    vstd::arithmetic::div_mod::lemma_small_mod(x as nat, m as nat);
}

/// A round tells its arguments apart, as long as one of them is the same.
proof fn round_tells_apart(h: u64, b: u8, g: u64, c: u8)
    requires
        h == g || b == c,
        h != g || b != c,
    ensures
        fnv_round(h, b) != fnv_round(g, c),
{
    let x = h ^ (b as u64);
    let y = g ^ (c as u64);
    assert(x != y) by (bit_vector)
        requires
            x == h ^ (b as u64),
            y == g ^ (c as u64),
            h == g || b == c,
            h != g || b != c,
    ;
    if fnv_round(h, b) == fnv_round(g, c) {
        prime_is_invertible(x, y);
    }
}

proof fn different_hashes_stay_different(h: u64, g: u64, data: Seq<u8>)
    requires
        h != g,
    ensures
        fnv_from(h, data) != fnv_from(g, data),
    decreases data.len(),
{
    if data.len() > 0 {
        different_hashes_stay_different(h, g, data.drop_last());
        round_tells_apart(
            fnv_from(h, data.drop_last()),
            data.last(),
            fnv_from(g, data.drop_last()),
            data.last(),
        );
    }
}

/// A file in which one byte was changed has another checksum.
pub proof fn changed_byte_changes_the_checksum(data: Seq<u8>, at: int, byte: u8)
    requires
        0 <= at < data.len(),
        byte != data[at],
    ensures
        fnv1a(data.update(at, byte)) != fnv1a(data),
{
    let front = data.take(at);
    let back = data.skip(at + 1);
    let changed = data.update(at, byte);
    assert(data =~= front.push(data[at]) + back);
    assert(changed =~= front.push(byte) + back);
    fnv1a_of_concatenation(front.push(data[at]), back);
    fnv1a_of_concatenation(front.push(byte), back);
    assert(front.push(data[at]).drop_last() =~= front);
    assert(front.push(byte).drop_last() =~= front);
    round_tells_apart(fnv1a(front), data[at], fnv1a(front), byte);
    different_hashes_stay_different(fnv1a(front.push(data[at])), fnv1a(front.push(byte)), back);
}

} // verus!
