//! The bounded ring of interleaved samples that the device callback drains.
//!
//! Samples are IEEE 754 single-precision bit patterns (see [`crate::pcm`]).

use std::collections::VecDeque;
use vstd::arithmetic::div_mod::{lemma_fundamental_div_mod, lemma_fundamental_div_mod_converse};
use vstd::prelude::*;

verus! {

/// About two seconds of stereo at 48 kHz.
pub const RING_CAP_SAMPLES: usize = 192_000;

/// The newest `cap` samples of `samples`, or all of them when there are fewer.
pub open spec fn newest(samples: Seq<u32>, cap: nat) -> Seq<u32> {
    if samples.len() <= cap {
        samples
    } else {
        samples.skip(samples.len() - cap)
    }
}

/// How many frames of `channels` samples start within the first `samples` samples.
pub open spec fn frame_starts(samples: int, channels: int) -> int {
    (samples + channels - 1) / channels
}

/// How many of `count` samples find room in a ring that holds `held`.
pub open spec fn room_for(held: nat, count: nat) -> nat {
    if held + count <= RING_CAP_SAMPLES {
        count
    } else {
        (RING_CAP_SAMPLES - held) as nat
    }
}

/// How many frames are dropped when `count` samples of `channels`-channel frames
/// enter a ring that holds `held`: one for each incoming frame whose first sample
/// finds the ring full.
pub open spec fn dropped_frames(held: nat, count: nat, channels: int) -> int {
    frame_starts(count as int, channels) - frame_starts(room_for(held, count) as int, channels)
}

/// What the device plays for a request of `len` samples: the oldest samples, then
/// silence.
pub open spec fn rendered(ring: Seq<u32>, len: nat) -> Seq<u32> {
    Seq::new(
        len,
        |i: int|
            if i < ring.len() {
                ring[i]
            } else {
                0
            },
    )
}

/// How many samples of a request of `len` come out of the ring.
pub open spec fn taken(ring: Seq<u32>, len: nat) -> nat {
    if len <= ring.len() {
        len
    } else {
        ring.len()
    }
}

/// One more sample starts one more frame exactly when it is a frame's first.
proof fn frame_starts_step(i: int, channels: int)
    requires
        0 <= i,
        1 <= channels,
    ensures
        frame_starts(i + 1, channels) == frame_starts(i, channels) + if i % channels == 0 {
            1int
        } else {
            0int
        },
{
    lemma_fundamental_div_mod(i, channels);
    let q = i / channels;
    let r = i % channels;
    assert((q + 1) * channels == channels * q + channels) by (nonlinear_arith);
    assert(q * channels == channels * q) by (nonlinear_arith);
    lemma_fundamental_div_mod_converse(i + channels, channels, q + 1, r);
    if r == 0 {
        lemma_fundamental_div_mod_converse(i + channels - 1, channels, q, channels - 1);
    } else {
        lemma_fundamental_div_mod_converse(i + channels - 1, channels, q + 1, r - 1);
    }
}

/// Append samples, letting the oldest go once the ring is full.
///
/// Returns the number of frames that were dropped.
pub fn push_samples(ring: &mut VecDeque<u32>, samples: &Vec<u32>, channels: usize) -> (dropped: u64)
    requires
        old(ring)@.len() <= RING_CAP_SAMPLES,
        1 <= channels,
    ensures
        final(ring)@ == newest(old(ring)@ + samples@, RING_CAP_SAMPLES as nat),
        dropped == dropped_frames(old(ring)@.len(), samples@.len(), channels as int),
{
    let ghost held: Seq<u32> = ring@;
    let mut dropped: u64 = 0;
    let mut i: usize = 0;
    proof {
        assert(held + samples@.take(0) =~= held);
        lemma_fundamental_div_mod_converse(channels - 1, channels as int, 0, channels - 1);
    }
    while i < samples.len()
        invariant
            i <= samples@.len(),
            1 <= channels,
            held.len() <= RING_CAP_SAMPLES,
            ring@ == newest(held + samples@.take(i as int), RING_CAP_SAMPLES as nat),
            dropped == dropped_frames(held.len(), i as nat, channels as int),
            dropped <= i,
        decreases samples@.len() - i,
    {
        proof {
            frame_starts_step(i as int, channels as int);
            assert(samples@.take(i + 1) =~= samples@.take(i as int).push(samples@[i as int]));
            assert(held + samples@.take(i + 1) =~= (held + samples@.take(i as int)).push(
                samples@[i as int],
            ));
        }
        if ring.len() >= RING_CAP_SAMPLES {
            let _ = ring.pop_front();
            if i % channels == 0 {
                dropped = dropped + 1;
            }
        }
        ring.push_back(samples[i]);
        assert(ring@ =~= newest(held + samples@.take(i + 1), RING_CAP_SAMPLES as nat));
        i = i + 1;
    }
    assert(samples@.take(samples@.len() as int) =~= samples@);
    dropped
}

/// Take `len` samples for the device, padding with silence when the ring runs dry.
///
/// Returns the samples and how many of them came out of the ring.
pub fn take_samples(ring: &mut VecDeque<u32>, len: usize) -> (out: (Vec<u32>, usize))
    ensures
        out.0@ == rendered(old(ring)@, len as nat),
        out.1 == taken(old(ring)@, len as nat),
        final(ring)@ == old(ring)@.skip(taken(old(ring)@, len as nat) as int),
{
    let ghost held: Seq<u32> = ring@;
    let mut out: Vec<u32> = Vec::with_capacity(len);
    let mut got: usize = 0;
    assert(held.skip(0) =~= held);
    while out.len() < len
        invariant
            out@.len() <= len,
            out@ == rendered(held, out@.len()),
            got == taken(held, out@.len()),
            ring@ == held.skip(got as int),
        decreases len - out@.len(),
    {
        let ghost before: Seq<u32> = out@;
        match ring.pop_front() {
            Some(sample) => {
                out.push(sample);
                got = got + 1;
                assert(ring@ =~= held.skip(got as int));
            },
            None => {
                out.push(0);
            },
        }
        assert(out@ =~= rendered(held, before.len() + 1));
    }
    (out, got)
}

/// A full ring keeps the newest samples: as many as there are, up to its bound, counted
/// from the end.
pub proof fn newest_counts_from_the_end(samples: Seq<u32>, cap: nat, back: int)
    requires
        1 <= back <= cap,
        back <= samples.len(),
    ensures
        samples.len() <= cap ==> newest(samples, cap).len() == samples.len(),
        samples.len() > cap ==> newest(samples, cap).len() == cap,
        newest(samples, cap)[newest(samples, cap).len() - back] == samples[samples.len() - back],
{
}

/// Nothing is dropped while everything fits. Otherwise, of `total` incoming frames all
/// are counted as dropped but the first `fitting` ones, whose first sample still finds
/// room.
pub proof fn frames_that_find_the_ring_full_are_dropped(
    held: nat,
    count: nat,
    channels: int,
    total: int,
    fitting: int,
)
    requires
        held <= 192_000,
        1 <= channels,
    ensures
        held + count <= 192_000 ==> dropped_frames(held, count, channels) == 0,
        held + count > 192_000 && (total - 1) * channels < count <= total * channels && (fitting
            - 1) * channels < 192_000 - held <= fitting * channels ==> dropped_frames(
            held,
            count,
            channels,
        ) == total - fitting,
{
    if held + count > 192_000 && (total - 1) * channels < count <= total * channels && (fitting - 1)
        * channels < 192_000 - held <= fitting * channels {
        assert((total - 1) * channels == total * channels - channels) by (nonlinear_arith);
        assert((fitting - 1) * channels == fitting * channels - channels) by (nonlinear_arith);
        lemma_fundamental_div_mod_converse(
            count + channels - 1,
            channels,
            total,
            count + channels - 1 - total * channels,
        );
        lemma_fundamental_div_mod_converse(
            192_000 - held + channels - 1,
            channels,
            fitting,
            192_000 - held + channels - 1 - fitting * channels,
        );
    }
}

/// A request gets exactly as many samples as it asks for: the oldest in the ring, in
/// order, and silence from where the ring ends.
pub proof fn requests_get_the_oldest_samples_then_silence(ring: Seq<u32>, len: nat, i: int)
    requires
        0 <= i < len,
    ensures
        rendered(ring, len).len() == len,
        i < ring.len() ==> rendered(ring, len)[i] == ring[i],
        ring.len() <= i ==> rendered(ring, len)[i] == 0,
        taken(ring, len) <= len,
        taken(ring, len) <= ring.len(),
        taken(ring, len) == len || taken(ring, len) == ring.len(),
{
}

} // verus!
