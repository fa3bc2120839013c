//! Linear resampling to the device rate and mapping onto the device channels.
//!
//! This module decides how many frames come out, which source samples feed each
//! output sample, in which proportion, and which outputs are silent. The weighted sums
//! themselves are floating-point work for the caller, who gets a [`Blend`] per output
//! sample.

use crate::pcm::{planes_view, positive_rate, quotient_is_the_most_that_fits};
use vstd::arithmetic::div_mod::{lemma_fundamental_div_mod, lemma_fundamental_div_mod_converse};
use vstd::prelude::*;

verus! {

/// How one output sample is made.
#[derive(Clone, Copy, Debug, PartialEq, Eq)]
pub enum Blend {
    /// `from + (to - from) * offset / out_frames`, where `from` and `to` are
    /// single-precision bit patterns and `out_frames` is the number of output frames.
    Mix {
        /// The sample at or before the position.
        from: u32,
        /// The sample after it.
        to: u32,
        /// How far the output frame lies past `from`, in parts of `out_frames`.
        offset: usize,
    },
    /// No source channel feeds this device channel.
    Silence,
}

/// Device frames that `frames` source frames become: as many at equal rates, else
/// in proportion, rounded down, and never none.
pub open spec fn device_frames(frames: nat, sample_rate: i32, device_rate: u32) -> int {
    let from = positive_rate(sample_rate);
    let to = if device_rate < 1 {
        1
    } else {
        device_rate as int
    };
    if from == to {
        frames as int
    } else if frames * to / from < 1 {
        1
    } else {
        frames * to / from
    }
}

/// The smaller of two frame numbers.
pub open spec fn nearest(index: int, last: int) -> int {
    if index <= last {
        index
    } else {
        last
    }
}

/// The source frame at or before output frame `i`: output frames are spread evenly over
/// the source.
pub open spec fn source_frame(frames: int, out_frames: int, i: int) -> int {
    nearest(i * frames / out_frames, frames - 1)
}

/// How far output frame `i` lies past its source frame, in parts of `out_frames`.
pub open spec fn offset_at(frames: int, out_frames: int, i: int) -> int {
    i * frames % out_frames
}

/// How device channel `c` of output frame `i` is made. A lone source channel feeds
/// every device channel; otherwise device channels without a source stay silent.
pub open spec fn blend_at(
    planes: Seq<Seq<u32>>,
    frames: int,
    out_frames: int,
    i: int,
    c: int,
) -> Blend {
    let index = source_frame(frames, out_frames, i);
    let offset = offset_at(frames, out_frames, i) as usize;
    let next = nearest(index + 1, frames - 1);
    if c < planes.len() {
        Blend::Mix { from: planes[c][index], to: planes[c][next], offset }
    } else if planes.len() == 1 {
        Blend::Mix { from: planes[0][index], to: planes[0][next], offset }
    } else {
        Blend::Silence
    }
}

/// The interleaved output: frame after frame, and within a frame channel after
/// channel.
pub open spec fn interleaved(
    planes: Seq<Seq<u32>>,
    frames: nat,
    out_channels: nat,
    out_frames: nat,
) -> Seq<Blend> {
    if frames == 0 || out_frames == 0 || planes.len() == 0 {
        Seq::empty()
    } else {
        Seq::new(
            out_frames * out_channels,
            |k: int|
                blend_at(
                    planes,
                    frames as int,
                    out_frames as int,
                    k / out_channels as int,
                    k % out_channels as int,
                ),
        )
    }
}

/// A packet never becomes more frames than the timeline can count.
pub proof fn device_frames_bound(frames: nat, sample_rate: i32, device_rate: u32)
    requires
        frames <= i32::MAX,
    ensures
        0 <= device_frames(frames, sample_rate, device_rate) <= i64::MAX,
{
    let from = positive_rate(sample_rate);
    let to = if device_rate < 1 {
        1
    } else {
        device_rate as int
    };
    assert(0 <= frames * to <= 0x7fff_ffff * 0xffff_ffff) by (nonlinear_arith)
        requires
            0 <= frames <= 0x7fff_ffff,
            0 <= to <= 0xffff_ffff,
    ;
    assert(0 <= (frames * to) / from <= frames * to) by (nonlinear_arith)
        requires
            0 <= frames * to,
            1 <= from,
    ;
}

/// Device frames that a packet of `frames` frames becomes.
pub fn resampled_frames(frames: u32, sample_rate: i32, device_rate: u32) -> (out: u64)
    ensures
        out == device_frames(frames as nat, sample_rate, device_rate),
{
    let from: u64 = if sample_rate < 1 {
        1
    } else {
        sample_rate as u64
    };
    let to: u64 = if device_rate < 1 {
        1
    } else {
        device_rate as u64
    };
    if from == to {
        return frames as u64;
    }
    assert(frames * to <= 0xffff_ffff * 0xffff_ffff) by (nonlinear_arith)
        requires
            frames <= 0xffff_ffff,
            to <= 0xffff_ffff,
    ;
    assert(frames * to >= 0) by (nonlinear_arith)
        requires
            frames >= 0,
            to >= 0,
    ;
    let scaled: u64 = frames as u64 * to / from;
    if scaled < 1 {
        1
    } else {
        scaled
    }
}

/// The source frame at or before output frame `i`.
pub fn source_index(i: usize, frames: usize, out_frames: usize) -> (index: usize)
    requires
        0 < frames,
        i < out_frames,
    ensures
        index == nearest(i * frames / out_frames as int, frames - 1),
        index == i * frames / out_frames as int,
{
    proof {
        product_fits(i, frames);
        source_frame_is_within(i as int, frames as int, out_frames as int);
    }
    (i as u128 * frames as u128 / out_frames as u128) as usize
}

/// How far output frame `i` lies past its source frame, in parts of `out_frames`.
pub fn source_offset(i: usize, frames: usize, out_frames: usize) -> (offset: usize)
    requires
        0 < out_frames,
    ensures
        offset == i * frames % out_frames as int,
{
    proof {
        product_fits(i, frames);
    }
    (i as u128 * frames as u128 % out_frames as u128) as usize
}

proof fn product_fits(a: usize, b: usize)
    ensures
        0 <= a * b <= u128::MAX,
{
    assert(0 <= a * b <= 0xffff_ffff_ffff_ffff * 0xffff_ffff_ffff_ffff) by (nonlinear_arith)
        requires
            0 <= a <= 0xffff_ffff_ffff_ffff,
            0 <= b <= 0xffff_ffff_ffff_ffff,
    ;
}

/// Evenly spread output frames stay within the source.
proof fn source_frame_is_within(i: int, frames: int, out_frames: int)
    requires
        0 < frames,
        0 <= i < out_frames,
    ensures
        0 <= i * frames / out_frames < frames,
{
    assert(0 <= i * frames < frames * out_frames) by (nonlinear_arith)
        requires
            0 < frames,
            0 <= i < out_frames,
    ;
    assert(0 <= (i * frames) / out_frames < frames) by (nonlinear_arith)
        requires
            0 <= i * frames < frames * out_frames,
            0 < out_frames,
    ;
}

/// Say, for every output sample, which source samples make it.
///
/// The first `frames` samples of each plane are the source.
pub fn resample_interleaved(
    planes: &Vec<Vec<u32>>,
    frames: usize,
    out_channels: usize,
    out_frames: usize,
) -> (out: Vec<Blend>)
    requires
        forall|c: int| 0 <= c < planes@.len() ==> (#[trigger] planes@[c])@.len() >= frames,
    ensures
        out@ == interleaved(
            planes_view(planes@),
            frames as nat,
            out_channels as nat,
            out_frames as nat,
        ),
{
    let mut out: Vec<Blend> = Vec::new();
    if frames == 0 || out_frames == 0 || planes.len() == 0 {
        assert(out@ =~= Seq::<Blend>::empty());
        return out;
    }
    let ghost whole: Seq<Blend> = interleaved(
        planes_view(planes@),
        frames as nat,
        out_channels as nat,
        out_frames as nat,
    );
    let source_channels: usize = planes.len();
    let last: usize = frames - 1;
    let mut i: usize = 0;
    assert(0 * out_channels == 0) by (nonlinear_arith);
    while i < out_frames
        invariant
            i <= out_frames,
            0 < frames,
            last == frames - 1,
            source_channels == planes@.len() > 0,
            forall|c: int| 0 <= c < planes@.len() ==> (#[trigger] planes@[c])@.len() >= frames,
            whole == interleaved(
                planes_view(planes@),
                frames as nat,
                out_channels as nat,
                out_frames as nat,
            ),
            out@.len() == i * out_channels,
            forall|k: int| 0 <= k < out@.len() ==> #[trigger] out@[k] == whole[k],
        decreases out_frames - i,
    {
        let index: usize = source_index(i, frames, out_frames);
        let offset: usize = source_offset(i, frames, out_frames);
        let next: usize = if index < last {
            index + 1
        } else {
            last
        };
        let mut c: usize = 0;
        while c < out_channels
            invariant
                c <= out_channels,
                i < out_frames,
                0 < frames,
                source_channels == planes@.len() > 0,
                forall|p: int| 0 <= p < planes@.len() ==> (#[trigger] planes@[p])@.len() >= frames,
                index <= next < frames,
                index == source_frame(frames as int, out_frames as int, i as int),
                offset == offset_at(frames as int, out_frames as int, i as int),
                next == nearest(index + 1, frames - 1),
                whole == interleaved(
                    planes_view(planes@),
                    frames as nat,
                    out_channels as nat,
                    out_frames as nat,
                ),
                out@.len() == i * out_channels + c,
                forall|k: int| 0 <= k < out@.len() ==> #[trigger] out@[k] == whole[k],
            decreases out_channels - c,
        {
            proof {
                let k: int = i * out_channels + c;
                lemma_fundamental_div_mod_converse(
                    k,
                    out_channels as int,
                    i as int,
                    c as int,
                );
                assert(0 <= k < out_frames * out_channels) by (nonlinear_arith)
                    requires
                        k == i * out_channels + c,
                        0 <= c < out_channels,
                        0 <= i < out_frames,
                ;
                assert(whole[k] == blend_at(
                    planes_view(planes@),
                    frames as int,
                    out_frames as int,
                    i as int,
                    c as int,
                ));
            }
            let blend: Blend = if c < source_channels {
                Blend::Mix { from: planes[c][index], to: planes[c][next], offset }
            } else if source_channels == 1 {
                Blend::Mix { from: planes[0][index], to: planes[0][next], offset }
            } else {
                Blend::Silence
            };
            out.push(blend);
            c = c + 1;
        }
        assert((i + 1) * out_channels == i * out_channels + out_channels) by (nonlinear_arith);
        i = i + 1;
    }
    assert(out@ =~= whole);
    out
}

/// Sample `c` of output frame `i` is at `i * out_channels + c`.
pub proof fn output_is_interleaved(
    planes: Seq<Seq<u32>>,
    frames: nat,
    out_channels: nat,
    out_frames: nat,
    i: int,
    c: int,
)
    requires
        0 < frames,
        0 < planes.len(),
        0 <= i < out_frames,
        0 <= c < out_channels,
    ensures
        0 <= i * out_channels + c < interleaved(
            planes,
            frames,
            out_channels,
            out_frames,
        ).len(),
        interleaved(planes, frames, out_channels, out_frames)[i * out_channels + c]
            == blend_at(planes, frames as int, out_frames as int, i, c),
{
    let k: int = i * out_channels + c;
    lemma_fundamental_div_mod_converse(k, out_channels as int, i, c);
    assert(0 <= k < out_frames * out_channels) by (nonlinear_arith)
        requires
            k == i * out_channels + c,
            0 <= c < out_channels,
            0 <= i < out_frames,
    ;
}

/// At equal frame counts every output sample starts from the source sample of the same
/// frame, with nothing of the next mixed in: the channel's own, or the only one.
pub proof fn unchanged_rate_keeps_samples(
    planes: Seq<Seq<u32>>,
    frames: nat,
    out_channels: nat,
    i: int,
    c: int,
)
    requires
        0 < planes.len(),
        0 <= i < frames,
        0 <= c < out_channels,
        c < planes.len() || planes.len() == 1,
    ensures
        ({
            let source = if c < planes.len() {
                c
            } else {
                0
            };
            let next = if i + 1 < frames {
                i + 1
            } else {
                i
            };
            interleaved(planes, frames, out_channels, frames)[i * out_channels + c]
                == (Blend::Mix { from: planes[source][i], to: planes[source][next], offset: 0 })
        }),
{
    output_is_interleaved(planes, frames, out_channels, frames, i, c);
    lemma_fundamental_div_mod_converse(i * frames, frames as int, i, 0);
}

/// The first output frame is the first source frame, whatever the rates: nothing of the
/// second is mixed in.
pub proof fn first_frame_is_the_first_source_frame(
    planes: Seq<Seq<u32>>,
    frames: nat,
    out_channels: nat,
    out_frames: nat,
    c: int,
)
    requires
        0 < frames,
        0 < out_frames,
        0 <= c < out_channels,
        c < planes.len(),
    ensures
        ({
            let next = nearest(1, frames - 1);
            interleaved(planes, frames, out_channels, out_frames)[c] == (Blend::Mix {
                from: planes[c][0],
                to: planes[c][next],
                offset: 0,
            })
        }),
{
    output_is_interleaved(planes, frames, out_channels, out_frames, 0, c);
    assert(0 * frames == 0) by (nonlinear_arith);
    assert(0 * out_channels == 0) by (nonlinear_arith);
    lemma_fundamental_div_mod_converse(0, out_frames as int, 0, 0);
}

/// Every output sample is made from two samples of one source channel, the same frame or
/// neighbours, or it is silence: a channel that holds one value only is mixed from that
/// value alone.
pub proof fn constant_channel_stays_constant(
    planes: Seq<Seq<u32>>,
    frames: nat,
    out_channels: nat,
    out_frames: nat,
    i: int,
    c: int,
    value: u32,
)
    requires
        0 < frames,
        0 <= i < out_frames,
        0 <= c < out_channels,
        c < planes.len(),
        forall|k: int| 0 <= k < frames ==> #[trigger] planes[c][k] == value,
    ensures
        interleaved(planes, frames, out_channels, out_frames)[i * out_channels + c]
            matches Blend::Mix { from, to, offset: _ } && from == value && to == value,
{
    output_is_interleaved(planes, frames, out_channels, out_frames, i, c);
    source_frame_is_within(i, frames as int, out_frames as int);
}

/// An output frame's position in the source, `i * frames / out_frames`, is its source
/// frame and the offset past it, and the offset is less than a frame.
pub proof fn position_is_source_frame_and_offset(frames: int, out_frames: int, i: int)
    requires
        0 < frames,
        0 <= i < out_frames,
    ensures
        i * frames == source_frame(frames, out_frames, i) * out_frames + offset_at(
            frames,
            out_frames,
            i,
        ),
        0 <= offset_at(frames, out_frames, i) < out_frames,
        0 <= source_frame(frames, out_frames, i) < frames,
{
    source_frame_is_within(i, frames, out_frames);
    lemma_fundamental_div_mod(i * frames, out_frames);
    let q = i * frames / out_frames;
    assert(out_frames * q == q * out_frames) by (nonlinear_arith);
}

/// Packets are never lost to rounding: frames in, frames out; and equal rates keep the
/// count.
pub proof fn frames_survive_resampling(frames: nat, sample_rate: i32, device_rate: u32)
    requires
        0 < frames,
    ensures
        1 <= device_frames(frames, sample_rate, device_rate),
        1 <= sample_rate == device_rate ==> device_frames(frames, sample_rate, device_rate)
            == frames,
{
}

/// Every device sample that a source channel feeds is mixed from that channel, and in
/// the same way in every channel. With `k` the last source frame that does not lie after
/// output frame `i`, when output frames are spread evenly over the source, it lies between
/// frames `k` and `k + 1` of the channel (or at the last one), and the rest of the way
/// past `k` is the offset. A channel of the device takes the source channel of its own
/// number, or the only one there is.
pub proof fn output_is_spread_evenly_over_every_channel(
    planes: Seq<Seq<u32>>,
    frames: nat,
    out_channels: nat,
    out_frames: nat,
    i: int,
    c: int,
    k: int,
)
    requires
        0 < planes.len(),
        0 < frames,
        0 <= i < out_frames <= usize::MAX,
        0 <= c < out_channels,
        c < planes.len() || planes.len() == 1,
        k * out_frames <= i * frames < (k + 1) * out_frames,
    ensures
        ({
            let source = if planes.len() == 1 {
                planes[0]
            } else {
                planes[c]
            };
            0 <= k < frames && interleaved(planes, frames, out_channels, out_frames)[i
                * out_channels + c] == (Blend::Mix {
                from: source[k],
                to: if k + 1 < frames {
                    source[k + 1]
                } else {
                    source[k]
                },
                offset: (i * frames - k * out_frames) as usize,
            })
        }),
{
    output_is_interleaved(planes, frames, out_channels, out_frames, i, c);
    source_frame_is_within(i, frames as int, out_frames as int);
    assert((k + 1) * out_frames == k * out_frames + out_frames) by (nonlinear_arith);
    lemma_fundamental_div_mod_converse(
        i * frames,
        out_frames as int,
        k,
        i * frames - k * out_frames,
    );
}

/// Channels with the same samples sound the same in every output frame, at any rates; a
/// lone channel sounds the same everywhere.
pub proof fn equal_channels_stay_equal(
    planes: Seq<Seq<u32>>,
    frames: nat,
    out_channels: nat,
    out_frames: nat,
    i: int,
    c: int,
    d: int,
)
    requires
        0 < planes.len(),
        0 < frames,
        0 <= i < out_frames <= usize::MAX,
        0 <= c < out_channels,
        0 <= d < out_channels,
        planes.len() == 1 || c < planes.len() && d < planes.len() && planes[c] == planes[d],
    ensures
        ({
            let out = interleaved(planes, frames, out_channels, out_frames);
            out[i * out_channels + c] == out[i * out_channels + d]
        }),
{
    let k = i * frames / out_frames as int;
    assert(0 <= i * frames) by (nonlinear_arith)
        requires
            0 <= i,
            0 < frames,
    ;
    quotient_is_the_most_that_fits(i * frames, out_frames as int);
    output_is_spread_evenly_over_every_channel(planes, frames, out_channels, out_frames, i, c, k);
    output_is_spread_evenly_over_every_channel(planes, frames, out_channels, out_frames, i, d, k);
}

/// Device channels beyond the channels of a source that has several stay silent.
pub proof fn channels_without_a_source_are_silent(
    planes: Seq<Seq<u32>>,
    frames: nat,
    out_channels: nat,
    out_frames: nat,
    i: int,
    c: int,
)
    requires
        2 <= planes.len() <= c < out_channels,
        0 < frames,
        0 <= i < out_frames,
    ensures
        interleaved(planes, frames, out_channels, out_frames)[i * out_channels + c]
            == Blend::Silence,
{
    output_is_interleaved(planes, frames, out_channels, out_frames, i, c);
}

/// There is a sample for every channel of every output frame, or nothing at all when
/// there is no source or no room for it.
pub proof fn output_has_a_sample_for_every_channel(
    planes: Seq<Seq<u32>>,
    frames: nat,
    out_channels: nat,
    out_frames: nat,
)
    ensures
        0 < planes.len() && 0 < frames ==> interleaved(
            planes,
            frames,
            out_channels,
            out_frames,
        ).len() == out_frames * out_channels,
        planes.len() == 0 || frames == 0 ==> interleaved(
            planes,
            frames,
            out_channels,
            out_frames,
        ).len() == 0,
{
    assert(0 * out_channels == 0) by (nonlinear_arith);
}

/// A packet keeps its length in time on the device, to the frame: so many device frames
/// at the device's rate are the most that its own frames at its own rate give, but never
/// less than one, and a rate below 1 counts as 1. At equal rates the count stays.
pub proof fn device_frames_keep_the_length_in_time(
    frames: nat,
    sample_rate: i32,
    device_rate: u32,
)
    ensures
        ({
            let out = device_frames(frames, sample_rate, device_rate);
            let from = if sample_rate < 1 {
                1
            } else {
                sample_rate as int
            };
            let to = if device_rate < 1 {
                1
            } else {
                device_rate as int
            };
            &&& 0 <= out
            &&& frames * to < (out + 1) * from
            &&& out * from <= frames * to || out == 1
            &&& from == to ==> out == frames
            &&& from != to ==> 1 <= out
        }),
{
    let from = positive_rate(sample_rate);
    let to = if device_rate < 1 {
        1
    } else {
        device_rate as int
    };
    assert(0 <= frames * to) by (nonlinear_arith)
        requires
            0 <= frames,
            1 <= to,
    ;
    quotient_is_the_most_that_fits(frames * to, from);
    assert((frames + 1) * from == frames * from + from) by (nonlinear_arith);
    let q = frames * to / from;
    if q < 1 {
        assert((q + 1) * from <= 2 * from) by (nonlinear_arith)
            requires
                q < 1,
                1 <= from,
        ;
    }
}

} // verus!
