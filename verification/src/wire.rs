//! Bit-level wire protocol of the inter-half link.
//!
//! One byte travels over the shared idle-high wire as: a sync pulse (one
//! bit period low, then released high), one further bit period of settle
//! time, eight data bits most-significant first, and one even-parity bit,
//! each held for one bit period. The sender then returns the line to idle.
//!
//! Every wait on either side is computed as the time remaining until
//! `origin + k * bit_period`, where the origin is the observed falling
//! edge (receiver) or the start of transmission (sender); re-deriving each
//! deadline from the absolute step index cancels cumulative scheduler
//! jitter instead of accumulating it.

use vstd::prelude::*;

use crate::sync::LinkError;

verus! {

/// Duration of one bit period on the wire, in nanoseconds.
pub const BIT_DELAY_NS: u64 = 3_000_000;

/// Nanoseconds the secondary role waits before its first frame, letting
/// the peer's receiver initialize.
pub const STARTUP_DELAY_NS: u64 = 1_000_000_000;

/// Data bit `i` of byte `b`, most significant first: bit 0 is the first
/// level on the wire.
pub open spec fn spec_bit(b: u8, i: int) -> bool
    recommends
        0 <= i < 8,
{
    (b >> ((7 - i) as u8)) & 1 == 1
}

/// The eight data-bit levels of byte `b` in wire order.
pub open spec fn spec_data_bits(b: u8) -> Seq<bool> {
    Seq::new(8, |i: int| spec_bit(b, i))
}

/// True when an odd number of the eight levels is high. The sender drives
/// the parity bit to this value, so data plus parity carry an even count
/// of ones.
pub open spec fn spec_parity_of(s: Seq<bool>) -> bool
    recommends
        s.len() == 8,
{
    (((((((s[0] != s[1]) != s[2]) != s[3]) != s[4]) != s[5]) != s[6]) != s[7])
}

/// The parity level transmitted for byte `b`.
pub open spec fn spec_parity_bit(b: u8) -> bool {
    spec_parity_of(spec_data_bits(b))
}

/// The nine sampled levels of one byte on the wire: eight data bits, most
/// significant first, then the parity bit.
pub open spec fn spec_wire_levels(b: u8) -> Seq<bool> {
    spec_data_bits(b).push(spec_parity_bit(b))
}

/// The byte a receiver assembles from eight sampled data levels.
pub open spec fn spec_byte_of(s: Seq<bool>) -> u8
    recommends
        s.len() == 8,
{
    (if s[0] { 128u8 } else { 0u8 }) | (if s[1] { 64u8 } else { 0u8 })
        | (if s[2] { 32u8 } else { 0u8 }) | (if s[3] { 16u8 } else { 0u8 })
        | (if s[4] { 8u8 } else { 0u8 }) | (if s[5] { 4u8 } else { 0u8 })
        | (if s[6] { 2u8 } else { 0u8 }) | (if s[7] { 1u8 } else { 0u8 })
}

/// What decoding nine sampled levels yields: the assembled byte when the
/// sampled parity matches the data bits, a parity error otherwise.
pub open spec fn spec_decode_byte(s: Seq<bool>) -> Result<u8, LinkError>
    recommends
        s.len() == 9,
{
    if s[8] == spec_parity_of(s.take(8)) {
        Ok(spec_byte_of(s.take(8)))
    } else {
        Err(LinkError::ParityMismatch)
    }
}

/// Levels of byte `b` as the sender drives them: eight data bits, most
/// significant first, then the even-parity bit.
pub fn encode_byte(b: u8) -> (r: Vec<bool>)
    ensures
        r@.len() == 9,
        r@ == spec_wire_levels(b),
{
    let d0 = (b >> 7u8) & 1 == 1;
    let d1 = (b >> 6u8) & 1 == 1;
    let d2 = (b >> 5u8) & 1 == 1;
    let d3 = (b >> 4u8) & 1 == 1;
    let d4 = (b >> 3u8) & 1 == 1;
    let d5 = (b >> 2u8) & 1 == 1;
    let d6 = (b >> 1u8) & 1 == 1;
    let d7 = b & 1 == 1;
    let parity = (((((((d0 != d1) != d2) != d3) != d4) != d5) != d6) != d7);
    let mut r: Vec<bool> = Vec::new();
    r.push(d0);
    r.push(d1);
    r.push(d2);
    r.push(d3);
    r.push(d4);
    r.push(d5);
    r.push(d6);
    r.push(d7);
    r.push(parity);
    proof {
        assert((b & 1 == 1) == ((b >> 0u8) & 1 == 1)) by (bit_vector);
        assert(r@ =~= spec_wire_levels(b));
    }
    r
}

/// Decodes nine sampled levels: checks the parity bit against the eight
/// data bits and assembles the byte, most significant bit first.
pub fn decode_byte(samples: &Vec<bool>) -> (r: Result<u8, LinkError>)
    requires
        samples@.len() == 9,
    ensures
        r == spec_decode_byte(samples@),
{
    let d0 = *samples.get(0).unwrap();
    let d1 = *samples.get(1).unwrap();
    let d2 = *samples.get(2).unwrap();
    let d3 = *samples.get(3).unwrap();
    let d4 = *samples.get(4).unwrap();
    let d5 = *samples.get(5).unwrap();
    let d6 = *samples.get(6).unwrap();
    let d7 = *samples.get(7).unwrap();
    let p = *samples.get(8).unwrap();
    let computed = (((((((d0 != d1) != d2) != d3) != d4) != d5) != d6) != d7);
    proof {
        assert(samples@.take(8)[0] == d0);
        assert(samples@.take(8)[1] == d1);
        assert(samples@.take(8)[2] == d2);
        assert(samples@.take(8)[3] == d3);
        assert(samples@.take(8)[4] == d4);
        assert(samples@.take(8)[5] == d5);
        assert(samples@.take(8)[6] == d6);
        assert(samples@.take(8)[7] == d7);
    }
    if p == computed {
        let byte = (if d0 { 128u8 } else { 0u8 }) | (if d1 { 64u8 } else { 0u8 })
            | (if d2 { 32u8 } else { 0u8 }) | (if d3 { 16u8 } else { 0u8 })
            | (if d4 { 8u8 } else { 0u8 }) | (if d5 { 4u8 } else { 0u8 })
            | (if d6 { 2u8 } else { 0u8 }) | (if d7 { 1u8 } else { 0u8 });
        Ok(byte)
    } else {
        Err(LinkError::ParityMismatch)
    }
}

/// An uncorrupted byte decodes back to itself: the levels the sender
/// drives pass the parity check and reassemble to the original byte.
pub proof fn lemma_byte_round_trip(b: u8)
    ensures
        spec_decode_byte(spec_wire_levels(b)) == Ok::<u8, LinkError>(b),
{
    let s = spec_wire_levels(b);
    assert(s.take(8) =~= spec_data_bits(b));
    let b0 = spec_bit(b, 0);
    let b1 = spec_bit(b, 1);
    let b2 = spec_bit(b, 2);
    let b3 = spec_bit(b, 3);
    let b4 = spec_bit(b, 4);
    let b5 = spec_bit(b, 5);
    let b6 = spec_bit(b, 6);
    let b7 = spec_bit(b, 7);
    assert(((if b0 { 128u8 } else { 0u8 }) | (if b1 { 64u8 } else { 0u8 })
        | (if b2 { 32u8 } else { 0u8 }) | (if b3 { 16u8 } else { 0u8 })
        | (if b4 { 8u8 } else { 0u8 }) | (if b5 { 4u8 } else { 0u8 })
        | (if b6 { 2u8 } else { 0u8 }) | (if b7 { 1u8 } else { 0u8 })) == b) by (bit_vector)
        requires
            b0 == ((b >> 7u8) & 1 == 1),
            b1 == ((b >> 6u8) & 1 == 1),
            b2 == ((b >> 5u8) & 1 == 1),
            b3 == ((b >> 4u8) & 1 == 1),
            b4 == ((b >> 3u8) & 1 == 1),
            b5 == ((b >> 2u8) & 1 == 1),
            b6 == ((b >> 1u8) & 1 == 1),
            b7 == ((b >> 0u8) & 1 == 1),
    ;
}

/// The sequence `s` with the level at position `i` inverted.
pub open spec fn spec_flip_at(s: Seq<bool>, i: int) -> Seq<bool>
    recommends
        0 <= i < s.len(),
{
    s.update(i, !s[i])
}

/// Inverting exactly one of the nine transmitted levels — any data bit or
/// the parity bit itself — makes the receiver's parity check fail: every
/// single-bit error is detected, none is corrected.
pub proof fn lemma_single_flip_detected(b: u8, i: int)
    requires
        0 <= i < 9,
    ensures
        spec_decode_byte(spec_flip_at(spec_wire_levels(b), i))
            == Err::<u8, LinkError>(LinkError::ParityMismatch),
{
    let s = spec_wire_levels(b);
    let f = spec_flip_at(s, i);
    assert(s.take(8) =~= spec_data_bits(b));
    if i == 8 {
        assert(f.take(8) =~= s.take(8));
        assert(f[8] == !s[8]);
    } else {
        assert(f[8] == s[8]);
        assert(forall|j: int| 0 <= j < 8 && j != i ==> f.take(8)[j] == s.take(8)[j]);
        assert(f.take(8)[i] == !s.take(8)[i]);
        assert(spec_parity_of(f.take(8)) == !spec_parity_of(s.take(8)));
    }
}

/// Nanoseconds from the frame origin at which the receiver samples level
/// `bit` (data bits 0 through 7, parity as bit 8): half a bit period past
/// the start of that bit's hold window.
pub fn rx_sample_deadline_ns(bit: u64) -> (r: u64)
    requires
        bit <= 8,
    ensures
        r == 2 * BIT_DELAY_NS + BIT_DELAY_NS / 2 + bit * BIT_DELAY_NS,
{
    2 * BIT_DELAY_NS + BIT_DELAY_NS / 2 + bit * BIT_DELAY_NS
}

/// Nanoseconds from the frame origin at which the sender stops holding
/// level `bit` (data bits 0 through 7, parity as bit 8) and moves to the
/// next step of the schedule.
pub fn tx_hold_deadline_ns(bit: u64) -> (r: u64)
    requires
        bit <= 8,
    ensures
        r == 2 * BIT_DELAY_NS + (bit + 1) * BIT_DELAY_NS,
{
    2 * BIT_DELAY_NS + (bit + 1) * BIT_DELAY_NS
}

/// How long to suspend so that the absolute deadline `target` (measured
/// from the frame origin) is met, given that `elapsed` nanoseconds have
/// already passed: the drift compensation at the heart of the timing
/// design. A deadline already in the past asks for no wait at all.
pub fn remaining_ns(target: u64, elapsed: u64) -> (r: u64)
    ensures
        elapsed < target ==> r == target - elapsed,
        elapsed >= target ==> r == 0,
{
    if target > elapsed {
        target - elapsed
    } else {
        0
    }
}

/// Wire time of one whole byte: two bit periods of preamble (sync pulse
/// and settle), then nine held bits.
pub fn byte_frame_ns() -> (r: u64)
    ensures
        r == 11 * BIT_DELAY_NS,
{
    11 * BIT_DELAY_NS
}

/// The receiver's sample point for every bit falls strictly inside the
/// window in which the sender holds that bit, so an uncorrupted level is
/// read back exactly as driven.
pub proof fn lemma_sample_inside_hold_window(bit: int)
    requires
        0 <= bit <= 8,
    ensures
        2 * BIT_DELAY_NS + bit * BIT_DELAY_NS
            < 2 * BIT_DELAY_NS + BIT_DELAY_NS / 2 + bit * BIT_DELAY_NS
            < 2 * BIT_DELAY_NS + (bit + 1) * BIT_DELAY_NS,
{
}

} // verus!
