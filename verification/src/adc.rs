//! The words exchanged with a 12-bit, eight-channel converter on the SPI
//! bus: the bits that ask for a channel, and the sample that the answer
//! spells. Clocking the bits in and out is left to the owner of the bus.

use vstd::prelude::*;

verus! {

/// How many bits a sample has.
pub const SAMPLE_BITS: usize = 12;

/// How many channels a converter has.
pub const CHANNELS: u8 = 8;

/// The number that a run of bits spells, most significant bit first.
pub open spec fn word(bits: Seq<bool>) -> nat
    decreases bits.len(),
{
    if bits.len() == 0 {
        0
    } else {
        2 * word(bits.drop_last()) + if bits.last() { 1nat } else { 0nat }
    }
}

/// The bits that ask a converter for one channel, in the order in which they
/// are clocked out: a start bit, a bit that asks for a single-ended reading,
/// and the three bits of the channel, most significant first.
pub open spec fn request(channel: u8) -> Seq<bool> {
    seq![true, true, channel / 4 % 2 == 1, channel / 2 % 2 == 1, channel % 2 == 1]
}

/// The bits that ask for `channel`; none for a channel that a converter does
/// not have.
pub fn request_bits(channel: u8) -> (bits: Option<Vec<bool>>)
    ensures
        channel < CHANNELS <==> bits is Some,
        bits matches Some(b) ==> b@ == request(channel),
{
    if channel >= CHANNELS {
        None
    } else {
        let mut bits: Vec<bool> = Vec::new();
        bits.push(true);
        bits.push(true);
        bits.push(channel / 4 % 2 == 1);
        bits.push(channel / 2 % 2 == 1);
        bits.push(channel % 2 == 1);
        assert(bits@ =~= request(channel));
        Some(bits)
    }
}

/// The sample that the twelve bits of an answer spell, most significant bit
/// first; none for an answer of another length.
pub fn sample_of(bits: &[bool]) -> (sample: Option<u16>)
    ensures
        bits@.len() == SAMPLE_BITS <==> sample is Some,
        sample matches Some(s) ==> s as nat == word(bits@) && s < 4096,
{
    if bits.len() != SAMPLE_BITS {
        return None;
    }
    let mut value: u16 = 0;
    let mut i: usize = 0;
    proof {
        vstd::arithmetic::power2::lemma2_to64();
    }
    while i < SAMPLE_BITS
        invariant
            i <= SAMPLE_BITS,
            bits@.len() == SAMPLE_BITS,
            value as nat == word(bits@.take(i as int)),
            (value as nat) < vstd::arithmetic::power2::pow2(i as nat),
        decreases SAMPLE_BITS - i,
    {
        proof {
            assert(bits@.take(i as int + 1).drop_last() =~= bits@.take(i as int));
            vstd::arithmetic::power2::lemma2_to64();
            vstd::arithmetic::power2::lemma_pow2_unfold(i as nat + 1);
            vstd::arithmetic::power2::lemma_pow2_strictly_increases(i as nat, 12);
        }
        value = value * 2 + if bits[i] { 1 } else { 0 };
        i += 1;
    }
    proof {
        assert(bits@.take(i as int) =~= bits@);
        vstd::arithmetic::power2::lemma2_to64();
    }
    Some(value)
}

} // verus!
