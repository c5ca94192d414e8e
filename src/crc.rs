use vstd::prelude::*;

verus! {

/// The Castagnoli polynomial 0x1EDC6F41 in reflected (least significant bit first) form.
pub const CRC32C_POLY_REFLECTED: u32 = 0x82F6_3B78;

/// One shift of the reflected CRC register: the bit that falls out decides
/// whether the polynomial is folded back in.
pub open spec fn shift_bit(reg: u32) -> u32 {
    if reg & 1 == 1 {
        (reg >> 1) ^ CRC32C_POLY_REFLECTED
    } else {
        reg >> 1
    }
}

/// `n` successive shifts of the register.
pub open spec fn shift_bits(reg: u32, n: nat) -> u32
    decreases n,
{
    if n == 0 {
        reg
    } else {
        shift_bit(shift_bits(reg, (n - 1) as nat))
    }
}

/// The register after one byte has been fed into it.
pub open spec fn feed_byte(reg: u32, b: u8) -> u32 {
    shift_bits(reg ^ (b as u32), 8)
}

/// The register after the bytes of `data` have been fed into it, first to last.
pub open spec fn feed(reg: u32, data: Seq<u8>) -> u32
    decreases data.len(),
{
    if data.len() == 0 {
        reg
    } else {
        feed_byte(feed(reg, data.drop_last()), data.last())
    }
}

/// The CRC-32C of `data`, continuing from the checksum `seed`
/// (0 for a fresh checksum). The register is inverted on entry and on exit.
pub open spec fn crc32c(seed: u32, data: Seq<u8>) -> u32 {
    feed(seed ^ 0xFFFF_FFFF, data) ^ 0xFFFF_FFFF
}

/// Updates the checksum `crc` with the bytes of `data`.
pub fn crc32c_mem(crc: u32, data: &[u8]) -> (r: u32)
    ensures
        r == crc32c(crc, data@),
{
    let mut reg: u32 = crc ^ 0xFFFF_FFFF;
    let mut i: usize = 0;
    while i < data.len()
        invariant
            i <= data@.len(),
            reg == feed(crc ^ 0xFFFF_FFFF, data@.subrange(0, i as int)),
        decreases data@.len() - i,
    {
        let x: u32 = reg ^ (data[i] as u32);
        reg = x;
        let mut k: u32 = 0;
        while k < 8
            invariant
                k <= 8,
                reg == shift_bits(x, k as nat),
            decreases 8 - k,
        {
            if reg & 1 == 1 {
                reg = (reg >> 1) ^ CRC32C_POLY_REFLECTED;
            } else {
                reg = reg >> 1;
            }
            k = k + 1;
        }
        proof {
            let prefix = data@.subrange(0, i + 1);
            assert(prefix.drop_last() =~= data@.subrange(0, i as int));
            assert(prefix.last() == data@[i as int]);
        }
        i = i + 1;
    }
    proof {
        assert(data@.subrange(0, data@.len() as int) =~= data@);
    }
    reg ^ 0xFFFF_FFFF
}

/// Feeding `a` and then `b` leaves the register as feeding `a + b` does.
pub proof fn lemma_feed_append(reg: u32, a: Seq<u8>, b: Seq<u8>)
    ensures
        feed(feed(reg, a), b) == feed(reg, a + b),
    decreases b.len(),
{
    if b.len() == 0 {
        assert(a + b =~= a);
    } else {
        lemma_feed_append(reg, a, b.drop_last());
        assert((a + b).drop_last() =~= a + b.drop_last());
        assert((a + b).last() == b.last());
    }
}

/// A checksum can be computed in pieces: continuing from the checksum of `a`
/// over `b` gives the checksum of `a + b`.
pub proof fn lemma_crc32c_concat(seed: u32, a: Seq<u8>, b: Seq<u8>)
    ensures
        crc32c(crc32c(seed, a), b) == crc32c(seed, a + b),
{
    let r = feed(seed ^ 0xFFFF_FFFF, a);
    assert((r ^ 0xFFFF_FFFF) ^ 0xFFFF_FFFF == r) by (bit_vector);
    lemma_feed_append(seed ^ 0xFFFF_FFFF, a, b);
}

/// An empty input leaves the checksum equal to the seed.
pub proof fn lemma_crc32c_empty(seed: u32)
    ensures
        crc32c(seed, Seq::<u8>::empty()) == seed,
{
    assert((seed ^ 0xFFFF_FFFF) ^ 0xFFFF_FFFF == seed) by (bit_vector);
}

/// One shift of the register loses nothing: distinct registers stay distinct.
pub proof fn lemma_shift_bit_injective(x: u32, y: u32)
    ensures
        shift_bit(x) == shift_bit(y) ==> x == y,
{
    assert(((if x & 1 == 1 { (x >> 1) ^ 0x82F6_3B78u32 } else { x >> 1 }) == (if y & 1 == 1 {
        (y >> 1) ^ 0x82F6_3B78u32
    } else {
        y >> 1
    })) ==> x == y) by (bit_vector);
}

/// Any number of shifts loses nothing.
pub proof fn lemma_shift_bits_injective(x: u32, y: u32, n: nat)
    ensures
        shift_bits(x, n) == shift_bits(y, n) ==> x == y,
    decreases n,
{
    if n > 0 {
        lemma_shift_bit_injective(shift_bits(x, (n - 1) as nat), shift_bits(y, (n - 1) as nat));
        lemma_shift_bits_injective(x, y, (n - 1) as nat);
    }
}

/// Feeding the same bytes into distinct registers leaves them distinct.
pub proof fn lemma_feed_injective(x: u32, y: u32, data: Seq<u8>)
    ensures
        feed(x, data) == feed(y, data) ==> x == y,
    decreases data.len(),
{
    if data.len() > 0 {
        let (fx, fy) = (feed(x, data.drop_last()), feed(y, data.drop_last()));
        let b = data.last();
        lemma_shift_bits_injective(fx ^ (b as u32), fy ^ (b as u32), 8);
        assert((fx ^ (b as u32)) == (fy ^ (b as u32)) ==> fx == fy) by (bit_vector);
        lemma_feed_injective(x, y, data.drop_last());
    }
}

/// Two inputs of one length that differ in exactly one byte have different
/// checksums from any seed.
pub proof fn lemma_crc32c_one_byte_differs(seed: u32, d: Seq<u8>, e: Seq<u8>, i: int)
    requires
        d.len() == e.len(),
        0 <= i < d.len(),
        d[i] != e[i],
        forall|j: int| 0 <= j < d.len() && j != i ==> d[j] == e[j],
    ensures
        crc32c(seed, d) != crc32c(seed, e),
{
    let reg = seed ^ 0xFFFF_FFFF;
    let (pre, post) = (d.subrange(0, i), d.subrange(i + 1, d.len() as int));
    assert(e.subrange(0, i) =~= pre);
    assert(e.subrange(i + 1, e.len() as int) =~= post);
    assert(d =~= pre.push(d[i]) + post);
    assert(e =~= pre.push(e[i]) + post);
    lemma_feed_append(reg, pre.push(d[i]), post);
    lemma_feed_append(reg, pre.push(e[i]), post);
    assert(pre.push(d[i]).drop_last() =~= pre);
    assert(pre.push(e[i]).drop_last() =~= pre);
    let p = feed(reg, pre);
    let (bd, be) = (d[i], e[i]);
    assert(bd != be ==> (p ^ (bd as u32)) != (p ^ (be as u32))) by (bit_vector);
    lemma_shift_bits_injective(p ^ (bd as u32), p ^ (be as u32), 8);
    lemma_feed_injective(feed_byte(p, bd), feed_byte(p, be), post);
    let (fd, fe) = (feed(reg, d), feed(reg, e));
    assert(fd != fe ==> (fd ^ 0xFFFF_FFFF) != (fe ^ 0xFFFF_FFFF)) by (bit_vector);
}

/// Flipping any single bit of the input changes the checksum, from any seed.
pub proof fn lemma_crc32c_bit_flip(seed: u32, data: Seq<u8>, i: int, bit: u8)
    requires
        0 <= i < data.len(),
        bit < 8,
    ensures
        crc32c(seed, data) != crc32c(seed, data.update(i, data[i] ^ (1u8 << bit))),
{
    let b = data[i];
    assert(bit < 8 ==> b ^ (1u8 << bit) != b) by (bit_vector);
    lemma_crc32c_one_byte_differs(seed, data, data.update(i, b ^ (1u8 << bit)), i);
}

} // verus!
