//! PCM packets and their samples.
//!
//! A sample is carried as the bit pattern of an IEEE 754 single-precision number:
//! the top bit is the sign, the other 31 bits order the magnitudes, and a magnitude
//! above that of infinity is not a number.

use vstd::arithmetic::div_mod::{lemma_fundamental_div_mod, lemma_fundamental_div_mod_converse};
use vstd::prelude::*;

verus! {

/// 100 ns ticks in a second.
pub const TICKS_PER_SECOND: i64 = 10_000_000;

/// Sign bit of a sample.
pub const SIGN_BIT: u32 = 0x8000_0000;

/// Bit pattern of positive infinity, the largest magnitude that is a number.
pub const INFINITY_BITS: u32 = 0x7f80_0000;

/// Bit pattern of `1.0`, full scale.
pub const FULL_SCALE_BITS: u32 = 0x3f80_0000;

/// A sample without its sign.
pub open spec fn magnitude(sample: u32) -> u32 {
    sample % SIGN_BIT
}

/// The sample is not a number.
pub open spec fn is_nan(sample: u32) -> bool {
    magnitude(sample) > INFINITY_BITS
}

/// The largest magnitude in a plane; what is not a number does not count, and
/// silence stands for an empty plane.
pub open spec fn peak(plane: Seq<u32>) -> u32
    decreases plane.len(),
{
    if plane.len() == 0 {
        0
    } else {
        let before = peak(plane.drop_last());
        let last = plane.last();
        if !is_nan(last) && magnitude(last) > before {
            magnitude(last)
        } else {
            before
        }
    }
}

/// A sample held between `-1.0` and `1.0`; what is not a number stays as it is.
pub open spec fn limited(sample: u32) -> u32 {
    if is_nan(sample) || magnitude(sample) <= FULL_SCALE_BITS {
        sample
    } else if sample >= SIGN_BIT {
        (SIGN_BIT + FULL_SCALE_BITS) as u32
    } else {
        FULL_SCALE_BITS
    }
}

/// Every sample held between `-1.0` and `1.0`.
pub open spec fn limited_plane(plane: Seq<u32>) -> Seq<u32> {
    plane.map_values(|sample: u32| limited(sample))
}

/// Planes held between `-1.0` and `1.0`.
pub open spec fn limited_planes(planes: Seq<Seq<u32>>) -> Seq<Seq<u32>> {
    planes.map_values(|plane: Seq<u32>| limited_plane(plane))
}

/// No sample that is a number lies beyond full scale.
pub open spec fn within_scale(samples: Seq<u32>) -> bool {
    forall|i: int|
        0 <= i < samples.len() ==> is_nan(#[trigger] samples[i]) || magnitude(samples[i])
            <= FULL_SCALE_BITS
}

/// The little-endian 32-bit word at byte `at`.
pub open spec fn word_at(data: Seq<u8>, at: int) -> u32 {
    (data[at] + 0x100 * data[at + 1] + 0x1_0000 * data[at + 2] + 0x100_0000 * data[at + 3]) as u32
}

/// The planes of a packet: `channels` planes of `frames` little-endian words, one
/// after the other.
pub open spec fn planes_of(data: Seq<u8>, channels: nat, frames: nat) -> Seq<Seq<u32>> {
    Seq::new(
        channels,
        |c: int| Seq::new(frames, |s: int| word_at(data, (c * frames + s) * 4)),
    )
}

/// The sequences that a vector of planes holds.
pub open spec fn planes_view(planes: Seq<Vec<u32>>) -> Seq<Seq<u32>> {
    planes.map_values(|plane: Vec<u32>| plane@)
}

/// Planes of a packet as a count: at least one.
pub open spec fn plane_count(channels: i32) -> nat {
    if channels < 1 {
        1
    } else {
        channels as nat
    }
}

/// Frames of a packet as a count: none when the header says less.
pub open spec fn frame_count(samples: i32) -> nat {
    if samples < 0 {
        0
    } else {
        samples as nat
    }
}

/// A packet that can be decoded: it has frames, and bytes for all of them.
pub open spec fn packet_complete(len: nat, channels: i32, samples: i32) -> bool {
    &&& frame_count(samples) > 0
    &&& plane_count(channels) * frame_count(samples) * 4 <= len
}

/// A declared rate, at least 1.
pub open spec fn positive_rate(sample_rate: i32) -> int {
    if sample_rate < 1 {
        1
    } else {
        sample_rate as int
    }
}

/// How long `frames` frames last at `sample_rate`, in 100 ns ticks, rounded down.
pub open spec fn packet_ticks(frames: nat, sample_rate: i32) -> int {
    frames * TICKS_PER_SECOND / positive_rate(sample_rate)
}

/// Word `s` of plane `c` lies within the packet.
proof fn word_in_packet(c: int, s: int, channels: int, frames: int)
    requires
        0 <= c < channels,
        0 <= s < frames,
    ensures
        0 <= (c * frames + s) * 4,
        (c * frames + s) * 4 + 4 <= channels * frames * 4,
{
    assert(0 <= c * frames) by (nonlinear_arith)
        requires
            0 <= c,
            0 < frames,
    ;
    assert(c * frames + frames <= channels * frames) by (nonlinear_arith)
        requires
            c + 1 <= channels,
            0 < frames,
    ;
}

/// A packet's duration is an `i64`.
pub proof fn packet_ticks_bound(frames: nat, sample_rate: i32)
    requires
        frames <= i32::MAX,
    ensures
        0 <= packet_ticks(frames, sample_rate) <= i64::MAX,
{
    let ticks = frames * TICKS_PER_SECOND;
    let rate = positive_rate(sample_rate);
    assert(0 <= ticks / rate <= ticks) by (nonlinear_arith)
        requires
            0 <= ticks,
            1 <= rate,
    ;
}

/// Whether `len` bytes hold the whole packet that its header declares.
pub fn packet_is_complete(len: usize, channels: i32, samples: i32) -> (complete: bool)
    ensures
        complete == packet_complete(len as nat, channels, samples),
{
    let planes: u64 = if channels < 1 {
        1
    } else {
        channels as u64
    };
    let frames: u64 = if samples < 0 {
        0
    } else {
        samples as u64
    };
    assert(planes * frames <= 0x7fff_ffff * 0x7fff_ffff) by (nonlinear_arith)
        requires
            planes <= 0x7fff_ffff,
            frames <= 0x7fff_ffff,
    ;
    assert(planes * frames >= 0) by (nonlinear_arith)
        requires
            planes >= 0,
            frames >= 0,
    ;
    frames > 0 && planes * frames * 4 <= len as u64
}

/// Read one little-endian word.
fn read_word(data: &[u8], at: usize) -> (word: u32)
    requires
        at + 4 <= data@.len(),
    ensures
        word == word_at(data@, at as int),
{
    data[at] as u32 + 0x100 * data[at + 1] as u32 + 0x1_0000 * data[at + 2] as u32 + 0x100_0000
        * data[at + 3] as u32
}

/// Split planar little-endian PCM into its planes.
pub fn decode_planes(data: &[u8], channels: usize, frames: usize) -> (planes: Vec<Vec<u32>>)
    requires
        channels * frames * 4 <= data@.len(),
    ensures
        planes_view(planes@) == planes_of(data@, channels as nat, frames as nat),
{
    let len: usize = data.len();
    let mut planes: Vec<Vec<u32>> = Vec::with_capacity(channels);
    let mut c: usize = 0;
    while c < channels
        invariant
            c <= channels,
            planes@.len() == c,
            channels * frames * 4 <= len == data@.len(),
            forall|k: int|
                0 <= k < c ==> (#[trigger] planes@[k])@ == planes_of(
                    data@,
                    channels as nat,
                    frames as nat,
                )[k],
        decreases channels - c,
    {
        let mut plane: Vec<u32> = Vec::with_capacity(frames);
        let mut s: usize = 0;
        while s < frames
            invariant
                c < channels,
                s <= frames,
                plane@.len() == s,
                channels * frames * 4 <= len == data@.len(),
                forall|k: int|
                    0 <= k < s ==> #[trigger] plane@[k] == word_at(data@, (c * frames + k) * 4),
            decreases frames - s,
        {
            proof {
                word_in_packet(c as int, s as int, channels as int, frames as int);
                assert(c * frames >= 0) by (nonlinear_arith)
                    requires
                        c >= 0,
                        frames >= 0,
                ;
            }
            let at: usize = (c * frames + s) * 4;
            plane.push(read_word(data, at));
            s = s + 1;
        }
        assert(plane@ =~= planes_of(data@, channels as nat, frames as nat)[c as int]);
        planes.push(plane);
        c = c + 1;
    }
    assert(planes_view(planes@) =~= planes_of(data@, channels as nat, frames as nat));
    planes
}

/// The true peak of a plane.
pub fn plane_peak(plane: &Vec<u32>) -> (top: u32)
    ensures
        top == peak(plane@),
{
    let mut top: u32 = 0;
    let mut i: usize = 0;
    assert(plane@.take(0) =~= Seq::<u32>::empty());
    while i < plane.len()
        invariant
            i <= plane@.len(),
            top == peak(plane@.take(i as int)),
        decreases plane@.len() - i,
    {
        assert(plane@.take(i + 1).drop_last() =~= plane@.take(i as int));
        let size: u32 = plane[i] % SIGN_BIT;
        if size <= INFINITY_BITS && size > top {
            top = size;
        }
        i = i + 1;
    }
    assert(plane@.take(plane@.len() as int) =~= plane@);
    top
}

/// Hold one sample between `-1.0` and `1.0`.
pub fn limit_sample(sample: u32) -> (held: u32)
    ensures
        held == limited(sample),
{
    let size: u32 = sample % SIGN_BIT;
    if size > INFINITY_BITS || size <= FULL_SCALE_BITS {
        sample
    } else if sample >= SIGN_BIT {
        SIGN_BIT + FULL_SCALE_BITS
    } else {
        FULL_SCALE_BITS
    }
}

/// Hold every sample between `-1.0` and `1.0`.
pub fn limit_plane(plane: &Vec<u32>) -> (held: Vec<u32>)
    ensures
        held@ == limited_plane(plane@),
{
    let mut held: Vec<u32> = Vec::with_capacity(plane.len());
    while held.len() < plane.len()
        invariant
            held@.len() <= plane@.len(),
            forall|k: int| 0 <= k < held@.len() ==> #[trigger] held@[k] == limited(plane@[k]),
        decreases plane@.len() - held@.len(),
    {
        held.push(limit_sample(plane[held.len()]));
    }
    assert(held@ =~= limited_plane(plane@));
    held
}

/// Hold every sample of every plane between `-1.0` and `1.0`.
pub fn limit_planes(planes: &Vec<Vec<u32>>) -> (held: Vec<Vec<u32>>)
    ensures
        planes_view(held@) == limited_planes(planes_view(planes@)),
{
    let mut held: Vec<Vec<u32>> = Vec::with_capacity(planes.len());
    while held.len() < planes.len()
        invariant
            held@.len() <= planes@.len(),
            forall|k: int|
                0 <= k < held@.len() ==> (#[trigger] held@[k])@ == limited_plane(planes@[k]@),
        decreases planes@.len() - held@.len(),
    {
        held.push(limit_plane(&planes[held.len()]));
    }
    assert(planes_view(held@) =~= limited_planes(planes_view(planes@)));
    held
}

/// A peak is no smaller than any sample of the plane that is a number, and, unless it
/// is silence, it is the magnitude of one of them.
pub proof fn peak_is_the_largest_magnitude(plane: Seq<u32>)
    ensures
        forall|i: int|
            0 <= i < plane.len() && !is_nan(#[trigger] plane[i]) ==> magnitude(plane[i]) <= peak(
                plane,
            ),
        peak(plane) == 0 || exists|i: int|
            0 <= i < plane.len() && !is_nan(#[trigger] plane[i]) && magnitude(plane[i]) == peak(
                plane,
            ),
    decreases plane.len(),
{
    if plane.len() > 0 {
        let rest = plane.drop_last();
        peak_is_the_largest_magnitude(rest);
        assert forall|i: int| 0 <= i < plane.len() && !is_nan(#[trigger] plane[i]) implies magnitude(
            plane[i],
        ) <= peak(plane) by {
            if i < rest.len() {
                assert(rest[i] == plane[i]);
            }
        }
        if peak(plane) != 0 {
            if peak(plane) == peak(rest) {
                let k = choose|k: int|
                    0 <= k < rest.len() && !is_nan(#[trigger] rest[k]) && magnitude(rest[k]) == peak(
                        rest,
                    );
                assert(plane[k] == rest[k]);
            } else {
                assert(plane[plane.len() - 1] == plane.last());
            }
        }
    }
}

/// A peak is a number.
pub proof fn peak_is_a_number(plane: Seq<u32>)
    ensures
        peak(plane) <= INFINITY_BITS,
    decreases plane.len(),
{
    if plane.len() > 0 {
        peak_is_a_number(plane.drop_last());
    }
}

/// What is limited stays within full scale, and what is within full scale is not changed
/// by limiting.
pub proof fn limited_samples_are_within_scale(samples: Seq<u32>)
    ensures
        within_scale(limited_plane(samples)),
        within_scale(samples) ==> limited_plane(samples) == samples,
{
    if within_scale(samples) {
        assert(limited_plane(samples) =~= samples);
    }
}

/// Limiting brings every sample that is a number to full scale or below, leaves what
/// was there alone, and keeps the sign.
pub proof fn limiting_keeps_what_fits(sample: u32)
    ensures
        is_nan(sample) || magnitude(limited(sample)) <= FULL_SCALE_BITS,
        magnitude(sample) <= FULL_SCALE_BITS ==> limited(sample) == sample,
        limited(limited(sample)) == limited(sample),
        limited(sample) >= SIGN_BIT <==> sample >= SIGN_BIT,
{
}

/// A quotient, times the divisor, is the most that fits.
pub(crate) proof fn quotient_is_the_most_that_fits(a: int, b: int)
    requires
        0 <= a,
        0 < b,
    ensures
        0 <= a / b,
        (a / b) * b <= a < (a / b + 1) * b,
{
    lemma_fundamental_div_mod(a, b);
    let q = a / b;
    assert(q * b == b * q) by (nonlinear_arith);
    assert((q + 1) * b == b * q + b) by (nonlinear_arith);
    assert(0 <= a / b) by (nonlinear_arith)
        requires
            0 <= a,
            0 < b,
    ;
}

/// All bits but the sign make the magnitude, and magnitudes beyond infinity are the
/// patterns that are not a number, whatever their sign.
pub proof fn sign_does_not_matter_to_magnitude(bits: u32)
    requires
        bits < 0x8000_0000,
    ensures
        magnitude(bits) == bits,
        magnitude((bits + 0x8000_0000) as u32) == bits,
        is_nan(bits) <==> bits > 0x7f80_0000,
        is_nan((bits + 0x8000_0000) as u32) <==> bits > 0x7f80_0000,
{
}

/// A number beyond full scale becomes full scale with its sign; every other sample stays
/// as it is.
pub proof fn limiting_holds_numbers_at_full_scale(bits: u32)
    requires
        bits < 0x8000_0000,
    ensures
        0x3f80_0000 < bits <= 0x7f80_0000 ==> {
            &&& limited(bits) == 0x3f80_0000
            &&& limited((bits + 0x8000_0000) as u32) == 0xbf80_0000
        },
        bits <= 0x3f80_0000 || 0x7f80_0000 < bits ==> {
            &&& limited(bits) == bits
            &&& limited((bits + 0x8000_0000) as u32) == bits + 0x8000_0000
        },
{
}

/// Limiting works sample by sample, in every plane.
pub proof fn limiting_works_sample_by_sample(planes: Seq<Seq<u32>>, c: int, s: int)
    requires
        0 <= c < planes.len(),
        0 <= s < planes[c].len(),
    ensures
        limited_planes(planes).len() == planes.len(),
        limited_planes(planes)[c].len() == planes[c].len(),
        limited_planes(planes)[c][s] == limited(planes[c][s]),
        limited_plane(planes[c]).len() == planes[c].len(),
        limited_plane(planes[c])[s] == limited(planes[c][s]),
{
}

/// A vector of planes stands for its planes, in order.
pub proof fn planes_are_viewed_in_order(planes: Seq<Vec<u32>>, c: int)
    requires
        0 <= c < planes.len(),
    ensures
        planes_view(planes).len() == planes.len(),
        planes_view(planes)[c] == planes[c]@,
{
}

/// A decoded packet has a plane for each channel and a sample for each frame. The four
/// bytes of frame `s` in plane `c` follow `c * frames + s` earlier samples, the lowest
/// byte first.
pub proof fn decoded_samples_keep_their_bytes(
    data: Seq<u8>,
    channels: nat,
    frames: nat,
    c: int,
    s: int,
)
    requires
        0 <= c < channels,
        0 <= s < frames,
    ensures
        ({
            let planes = planes_of(data, channels, frames);
            let at = 4 * (c * frames + s);
            let word = planes[c][s] as int;
            &&& planes.len() == channels
            &&& planes[c].len() == frames
            &&& word % 0x100 == data[at]
            &&& word / 0x100 % 0x100 == data[at + 1]
            &&& word / 0x1_0000 % 0x100 == data[at + 2]
            &&& word / 0x100_0000 == data[at + 3]
        }),
{
    let at = 4 * (c * frames + s);
    assert(planes_of(data, channels, frames)[c][s] == word_at(data, at));
}

/// A packet can be decoded exactly when it declares frames and brings four bytes for
/// every frame of every channel; a header without channels counts as one channel.
pub proof fn packets_need_all_their_bytes(len: nat, channels: i32, samples: i32)
    ensures
        samples < 1 ==> !packet_complete(len, channels, samples),
        samples >= 1 && channels >= 1 ==> (packet_complete(len, channels, samples) <==> 4 * (
        channels * samples) <= len),
        samples >= 1 && channels < 1 ==> (packet_complete(len, channels, samples) <==> 4 * samples
            <= len),
        channels >= 1 ==> plane_count(channels) == channels,
        channels < 1 ==> plane_count(channels) == 1,
        samples >= 0 ==> frame_count(samples) == samples,
        samples < 0 ==> frame_count(samples) == 0,
{
    let planes = plane_count(channels);
    let frames = frame_count(samples);
    assert(planes * frames * 4 == 4 * (planes * frames));
    if channels < 1 {
        assert(planes * frames == frames) by (nonlinear_arith)
            requires
                planes == 1,
        ;
    }
    if channels >= 1 && samples >= 1 {
        assert(planes * frames == channels * samples);
    }
}

/// A packet lasts as long as its frames at its own rate: its duration in ticks, times the
/// rate, is the most that fits in ten million ticks for each frame. Without a rate, every
/// frame lasts a second.
pub proof fn packet_lasts_its_frames_at_its_rate(frames: nat, sample_rate: i32)
    ensures
        0 <= packet_ticks(frames, sample_rate),
        sample_rate >= 1 ==> packet_ticks(frames, sample_rate) * sample_rate <= frames * 10_000_000
            < (packet_ticks(frames, sample_rate) + 1) * sample_rate,
        sample_rate < 1 ==> packet_ticks(frames, sample_rate) == frames * 10_000_000,
{
    quotient_is_the_most_that_fits((frames * 10_000_000) as int, positive_rate(sample_rate));
}

/// As many frames as the rate make one second, and so many times more make as many
/// seconds.
pub proof fn whole_seconds_last_whole_seconds(seconds: nat, sample_rate: i32)
    requires
        sample_rate >= 1,
    ensures
        packet_ticks(seconds * sample_rate as nat, sample_rate) == seconds * 10_000_000,
{
    let frames: int = (seconds * sample_rate as nat) as int;
    assert(frames * 10_000_000 == (seconds * 10_000_000) * sample_rate) by (nonlinear_arith)
        requires
            frames == seconds * sample_rate,
    ;
    lemma_fundamental_div_mod_converse(
        frames * 10_000_000,
        sample_rate as int,
        (seconds * 10_000_000) as int,
        0,
    );
}

} // verus!
