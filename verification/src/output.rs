//! The state of one audio output and everything that happens to it.
//!
//! [`AudioOutput`] is sequential: whoever shares it between a media thread, a device
//! callback and a device worker puts it behind a lock. Times are nanoseconds on a
//! monotonic clock that the caller reads.

use crate::pcm::{
    decode_planes, frame_count, is_nan, limit_plane, limit_planes, limit_sample, limited,
    limited_plane, limited_planes, limited_samples_are_within_scale, magnitude, packet_complete,
    packet_is_complete, packet_ticks, peak, peak_is_a_number, plane_count, plane_peak, planes_of,
    planes_view, within_scale, FULL_SCALE_BITS, TICKS_PER_SECOND,
};
use crate::resample::{
    device_frames, device_frames_bound, interleaved, resample_interleaved, resampled_frames, Blend,
};
use crate::ring::{
    dropped_frames, newest, push_samples, rendered, take_samples, taken, RING_CAP_SAMPLES,
};
use crate::timeline::{
    consume_pts_frames, consuming_leaves_no_spent_runs, playhead_after, runs_wf,
    runs_unspent, timeline_after, timeline_of, timeline_of_push, PtsRun,
};
use std::collections::VecDeque;
use vstd::prelude::*;

verus! {

/// First PCM queued, but the device never pulled at all: 500 ms.
pub const DEAD_OUTPUT_GRACE: u64 = 500_000_000;

/// After callbacks have started, tolerate this gap before reopening: 1.5 s.
pub const STALL_REOPEN: u64 = 1_500_000_000;

/// How recent "recently played" is: 250 ms.
pub const CALLBACK_ALIVE: u64 = 250_000_000;

/// Peak levels for VU display (linear 0..1, per channel).
///
/// The peaks are single-precision bit patterns.
#[derive(Clone, Copy, Debug, PartialEq, Eq)]
pub struct AudioLevels {
    /// Left (or mono) peak.
    pub peak_l: u32,
    /// Right peak (0 when mono).
    pub peak_r: u32,
    /// Audio packets pushed into the player.
    pub frames: u64,
    /// Declared sample rate of the last packet.
    pub sample_rate: i32,
    /// Declared channel count of the last packet.
    pub channels: i32,
}

/// Levels before any packet.
pub open spec fn no_levels() -> AudioLevels {
    AudioLevels { peak_l: 0, peak_r: 0, frames: 0, sample_rate: 0, channels: 0 }
}

impl Default for AudioLevels {
    fn default() -> (levels: Self)
        ensures
            levels == no_levels(),
    {
        AudioLevels { peak_l: 0, peak_r: 0, frames: 0, sample_rate: 0, channels: 0 }
    }
}

/// A packet counter moved on by one; it stays at the top.
pub open spec fn counted(frames: u64) -> u64 {
    if frames == u64::MAX {
        frames
    } else {
        (frames + 1) as u64
    }
}

/// Whether system audio playback is currently usable.
#[derive(Clone, Copy, Debug, PartialEq, Eq, Structural)]
pub enum AudioOutputStatus {
    /// Output device is being opened.
    Opening,
    /// Device stream is running.
    Ready,
    /// No usable device; PCM is discarded and video stays on wall clock.
    Unavailable,
}

/// Channel count and sample rate of the open device.
#[derive(Clone, Copy, Debug, PartialEq, Eq)]
pub struct DeviceGeometry {
    /// Device channels.
    pub channels: usize,
    /// Device frames per second.
    pub rate: u32,
}

impl DeviceGeometry {
    /// The channel count to work with, at least 1.
    pub open spec fn frame_width(self) -> nat {
        if self.channels < 1 {
            1
        } else {
            self.channels as nat
        }
    }

    /// The rate to work with, at least 1.
    pub open spec fn frame_rate(self) -> u32 {
        if self.rate < 1 {
            1
        } else {
            self.rate
        }
    }
}

/// A message to the thread that owns the device stream.
#[derive(Debug, PartialEq, Eq)]
pub enum AudioCmd {
    /// Open the named device (`None` = system default).
    SetDevice(Option<String>),
    /// Close the stream and end.
    Shutdown,
}

/// A duration in milliseconds, as a fraction.
#[derive(Clone, Copy, Debug, PartialEq, Eq)]
pub struct MsRatio {
    /// Numerator.
    pub numer: u64,
    /// Denominator, at least 1.
    pub denom: u32,
}

/// A decoded packet on its way into the ring.
#[derive(Debug, PartialEq, Eq)]
pub struct PcmPacket {
    /// One plane of samples per channel, as received.
    pub planes: Vec<Vec<u32>>,
    /// Frames in each plane.
    pub frames: u32,
    /// Declared channel count.
    pub channels: i32,
    /// Declared sample rate.
    pub sample_rate: i32,
    /// PTS of the first sample.
    pub timestamp: i64,
    /// Playback boost to apply, in dB.
    pub boost_db: i32,
    /// Listening volume to apply after the boost, in percent.
    pub volume_pct: i32,
}

/// A packet that may be played, before its samples are read.
#[derive(Clone, Copy, Debug, PartialEq, Eq)]
pub struct PacketHeader {
    /// Declared channel count.
    pub channels: i32,
    /// Declared frame count.
    pub samples: i32,
    /// Declared sample rate.
    pub sample_rate: i32,
    /// PTS of the first sample.
    pub timestamp: i64,
    /// Playback boost to apply, in dB.
    pub boost_db: i32,
    /// Listening volume to apply after the boost, in percent.
    pub volume_pct: i32,
}

/// Whether a packet may be played.
#[derive(Clone, Copy, Debug, PartialEq, Eq)]
pub enum Admission {
    /// No frames, or fewer bytes than declared: ignored.
    Rejected,
    /// Nobody is listening: counted and discarded.
    Discarded,
    /// To be decoded and played.
    Admitted(PacketHeader),
}

/// What becomes of a packet that is pushed.
#[derive(Debug, PartialEq, Eq)]
pub enum PushStep {
    /// No frames, or fewer bytes than declared: ignored.
    Rejected,
    /// Nobody is listening: counted and discarded.
    Discarded,
    /// To be amplified, metered and queued.
    Accepted(PcmPacket),
}

/// How a packet goes onto the open device and onto the timeline.
#[derive(Clone, Copy, Debug, PartialEq, Eq)]
pub struct ResamplePlan {
    /// Frames in each plane of the packet.
    pub frames: u32,
    /// Device channels.
    pub out_channels: usize,
    /// Device frames that the packet becomes.
    pub out_frames: u64,
    /// PTS of the packet's first sample.
    pub timestamp: i64,
    /// Stream duration of the packet in 100 ns ticks.
    pub pts_duration: i64,
}

impl PacketHeader {
    /// Read the packet's samples.
    pub fn decode(&self, data: &[u8]) -> (packet: PcmPacket)
        requires
            packet_complete(data@.len(), self.channels, self.samples),
        ensures
            packet.wf(),
            planes_view(packet.planes@) == planes_of(
                data@,
                plane_count(self.channels),
                frame_count(self.samples),
            ),
            packet.frames == frame_count(self.samples),
            packet.channels == self.channels,
            packet.sample_rate == self.sample_rate,
            packet.timestamp == self.timestamp,
            packet.boost_db == self.boost_db,
            packet.volume_pct == self.volume_pct,
    {
        let count: usize = if self.channels < 1 {
            1
        } else {
            self.channels as usize
        };
        let planes: Vec<Vec<u32>> = decode_planes(data, count, self.samples as usize);
        proof {
            let views = planes_view(planes@);
            assert(views.len() == planes@.len());
            assert forall|c: int| 0 <= c < planes@.len() implies (#[trigger] planes@[c])@.len()
                == self.samples by {
                assert(planes@[c]@ == views[c]);
            }
        }
        PcmPacket {
            planes,
            frames: self.samples as u32,
            channels: self.channels,
            sample_rate: self.sample_rate,
            timestamp: self.timestamp,
            boost_db: self.boost_db,
            volume_pct: self.volume_pct,
        }
    }
}

impl PcmPacket {
    /// There is a plane, every plane has all frames, and their count fits a packet
    /// header.
    pub open spec fn wf(&self) -> bool {
        &&& self.planes@.len() >= 1
        &&& forall|c: int|
            0 <= c < self.planes@.len() ==> (#[trigger] self.planes@[c])@.len() == self.frames
        &&& self.frames <= i32::MAX
    }
}

impl ResamplePlan {
    /// There is a channel to play on, and the frames can be counted.
    pub open spec fn wf(&self) -> bool {
        &&& self.out_channels >= 1
        &&& self.out_frames <= i64::MAX
    }

    /// Every timestamp of the packet is an `i64`.
    pub open spec fn pts_in_range(&self) -> bool {
        self.timestamp + run_ticks(self.pts_duration) <= i64::MAX
    }

    /// How the device samples of a packet with these amplified planes are made.
    pub open spec fn laid_out(&self, planes: Seq<Seq<u32>>) -> Seq<Blend> {
        interleaved(
            limited_planes(planes),
            self.frames as nat,
            self.out_channels as nat,
            self.out_frames as nat,
        )
    }

    /// Say how the device samples of a packet are made.
    ///
    /// `planes` holds the packet's planes after boost and volume; what exceeds full
    /// scale is held there.
    pub fn lay_out(&self, planes: &Vec<Vec<u32>>) -> (out: Vec<Blend>)
        requires
            self.out_frames <= usize::MAX,
            forall|c: int|
                0 <= c < planes@.len() ==> (#[trigger] planes@[c])@.len() >= self.frames,
        ensures
            out@ == interleaved(
                limited_planes(planes_view(planes@)),
                self.frames as nat,
                self.out_channels as nat,
                self.out_frames as nat,
            ),
            out@ == self.laid_out(planes_view(planes@)),
    {
        let held: Vec<Vec<u32>> = limit_planes(planes);
        let frames: usize = self.frames as usize;
        assert(planes_view(held@).len() == planes@.len());
        assert forall|c: int| 0 <= c < held@.len() implies (#[trigger] held@[c])@.len()
            >= self.frames by {
            assert(held@[c]@ == limited_planes(planes_view(planes@))[c]);
            assert(planes@[c]@.len() >= self.frames);
        }
        resample_interleaved(&held, frames, self.out_channels, self.out_frames as usize)
    }
}

/// How long ago `at` was; nothing when it lies ahead.
pub open spec fn elapsed(now: u64, at: u64) -> int {
    if at <= now {
        now - at
    } else {
        0
    }
}

/// Something happened, at most `within` ago.
pub open spec fn happened_within(slot: Option<u64>, now: u64, within: u64) -> bool {
    slot is Some && elapsed(now, slot->0) <= within
}

/// The characters of a device name.
pub open spec fn name_view(name: Option<String>) -> Option<Seq<char>> {
    match name {
        Some(text) => Some(text@),
        None => None,
    }
}

/// The marks that a packet of `frames` device frames adds to the timeline.
pub open spec fn packet_marks(timestamp: i64, duration: int, frames: u64) -> Seq<i64> {
    PtsRun {
        pts_start: timestamp,
        pts_duration: duration as i64,
        frames_total: frames,
        frames_consumed: 0,
    }.marks()
}

/// A packet's duration on the timeline: at least one tick.
pub open spec fn run_ticks(pts_duration: i64) -> int {
    if pts_duration < 1 {
        1
    } else {
        pts_duration as int
    }
}

/// What an [`AudioOutput`] stands for.
#[verifier::ext_equal]
pub struct OutputState {
    /// Interleaved samples waiting for the device, oldest first.
    pub ring: Seq<u32>,
    /// One mark per queued device frame, oldest first.
    pub timeline: Seq<i64>,
    /// Meter readings.
    pub levels: AudioLevels,
    /// Playback boost in dB.
    pub boost_db: i32,
    /// Listening volume in percent.
    pub volume_pct: i32,
    /// The open device's shape.
    pub geometry: DeviceGeometry,
    /// Selected device (`None` = system default).
    pub device: Option<Seq<char>>,
    /// PTS being output, while the timeline is active.
    pub playhead: Option<i64>,
    /// When the device last consumed queued PCM.
    pub played_at: Option<u64>,
    /// When the device last asked for samples.
    pub called_at: Option<u64>,
    /// Whether playback is usable.
    pub status: AudioOutputStatus,
    /// When the first packet was queued into the current stream.
    pub queued_at: Option<u64>,
    /// The worker is asked to open the stream again.
    pub needs_reopen: bool,
    /// A worker takes commands.
    pub attached: bool,
}

impl OutputState {
    /// What holds of every output: the ring is bounded, no sample in it and no peak lies
    /// beyond full scale, and the volume is a percentage.
    pub open spec fn valid(self) -> bool {
        &&& self.ring.len() <= RING_CAP_SAMPLES
        &&& within_scale(self.ring)
        &&& self.levels.peak_l <= FULL_SCALE_BITS
        &&& self.levels.peak_r <= FULL_SCALE_BITS
        &&& 0 <= self.volume_pct <= 100
    }

    /// Before anything has happened.
    pub open spec fn initial(attached: bool) -> OutputState {
        OutputState {
            ring: Seq::empty(),
            timeline: Seq::empty(),
            levels: no_levels(),
            boost_db: 0,
            volume_pct: 100,
            geometry: DeviceGeometry { channels: 2, rate: 48_000 },
            device: None,
            playhead: None,
            played_at: None,
            called_at: None,
            status: if attached {
                AudioOutputStatus::Opening
            } else {
                AudioOutputStatus::Unavailable
            },
            queued_at: None,
            needs_reopen: false,
            attached,
        }
    }

    /// A status change also forgets when PCM was first queued.
    pub open spec fn with_status(self, status: AudioOutputStatus) -> OutputState {
        OutputState { status, queued_at: None, ..self }
    }

    /// Without a media-clock playhead.
    pub open spec fn without_playhead(self) -> OutputState {
        OutputState { playhead: None, played_at: None, ..self }
    }

    /// Nothing queued.
    pub open spec fn drained(self) -> OutputState {
        OutputState { ring: Seq::empty(), timeline: Seq::empty(), ..self.without_playhead() }
    }

    /// Nothing queued and nothing metered.
    pub open spec fn cleared(self) -> OutputState {
        OutputState { levels: no_levels(), ..self.drained() }
    }

    /// Another device is selected.
    pub open spec fn device_set(self, name: Option<Seq<char>>) -> OutputState {
        let cleared = OutputState { device: name, ..self.cleared() };
        if self.attached {
            OutputState { needs_reopen: false, ..cleared }.with_status(AudioOutputStatus::Opening)
        } else {
            cleared.with_status(AudioOutputStatus::Unavailable)
        }
    }

    /// The stream is given up: all that is queued goes, the meters fall to silence,
    /// and the worker, if there is one, is asked once to open it again.
    pub open spec fn reopen_requested(self) -> OutputState {
        let muted = OutputState {
            levels: AudioLevels { peak_l: 0, peak_r: 0, ..self.levels },
            ..self.drained()
        };
        if !self.attached {
            muted.with_status(AudioOutputStatus::Unavailable)
        } else if self.needs_reopen {
            muted
        } else {
            OutputState { needs_reopen: true, ..muted }.with_status(AudioOutputStatus::Opening)
        }
    }

    /// The stream is open and has been given PCM, but the device does not pull: it
    /// has not played recently, and either its callback has stopped for longer than
    /// [`STALL_REOPEN`], or it never came within [`DEAD_OUTPUT_GRACE`] of the first
    /// packet.
    pub open spec fn dead(self, now: u64) -> bool {
        &&& self.status is Ready
        &&& !happened_within(self.played_at, now, CALLBACK_ALIVE)
        &&& self.queued_at is Some
        &&& match self.called_at {
            Some(at) => elapsed(now, at) > STALL_REOPEN,
            None => elapsed(now, self.queued_at->0) > DEAD_OUTPUT_GRACE,
        }
    }

    /// A dead output is given up.
    pub open spec fn supervised(self, now: u64) -> OutputState {
        if self.dead(now) {
            self.reopen_requested()
        } else {
            self
        }
    }

    /// A packet was discarded.
    pub open spec fn silent_packet(self, sample_rate: i32, channels: i32) -> OutputState {
        OutputState {
            levels: AudioLevels {
                peak_l: 0,
                peak_r: 0,
                frames: counted(self.levels.frames),
                sample_rate,
                channels,
            },
            ..self
        }
    }

    /// Whether a packet of `len` bytes may be played.
    pub open spec fn admission(
        self,
        now: u64,
        len: nat,
        channels: i32,
        samples: i32,
        sample_rate: i32,
        timestamp: i64,
    ) -> Admission {
        if !packet_complete(len, channels, samples) {
            Admission::Rejected
        } else if !(self.supervised(now).status is Ready) {
            Admission::Discarded
        } else {
            Admission::Admitted(
                PacketHeader {
                    channels,
                    samples,
                    sample_rate,
                    timestamp,
                    boost_db: self.boost_db,
                    volume_pct: self.volume_pct,
                },
            )
        }
    }

    /// A packet asked to be played.
    pub open spec fn asked(
        self,
        now: u64,
        len: nat,
        channels: i32,
        samples: i32,
        sample_rate: i32,
    ) -> OutputState {
        if !packet_complete(len, channels, samples) {
            self
        } else if !(self.supervised(now).status is Ready) {
            self.supervised(now).silent_packet(sample_rate, channels)
        } else {
            self.supervised(now)
        }
    }

    /// A playback boost is set.
    pub open spec fn boost_set(self, db: i32) -> OutputState {
        OutputState { boost_db: db, ..self }
    }

    /// A listening volume is set.
    pub open spec fn volume_set(self, pct: i32) -> OutputState {
        OutputState { volume_pct: percentage(pct), ..self }
    }

    /// What the device hears when it asks for `len` samples: silence when the ring is in
    /// use elsewhere.
    pub open spec fn heard(self, len: nat, ring_free: bool) -> Seq<u32> {
        if ring_free {
            rendered(self.ring, len)
        } else {
            Seq::new(len, |i: int| 0u32)
        }
    }

    /// The output goes away.
    pub open spec fn detached(self) -> OutputState {
        OutputState { attached: false, ..self }
    }

    /// Buffered milliseconds, times the device's rate: a thousand for each whole frame.
    pub open spec fn buffered_numer(self) -> nat {
        self.ring.len() / self.geometry.frame_width() * 1000
    }

    /// A packet with these amplified planes was metered: its peaks show, held at full
    /// scale.
    pub open spec fn metered(
        self,
        planes: Seq<Seq<u32>>,
        sample_rate: i32,
        channels: i32,
    ) -> OutputState {
        OutputState {
            levels: AudioLevels {
                peak_l: limited(peak(planes[0])),
                peak_r: if planes.len() == 1 {
                    0
                } else {
                    limited(peak(planes[1]))
                },
                frames: counted(self.levels.frames),
                sample_rate,
                channels,
            },
            ..self
        }
    }

    /// How a packet goes onto the open device and onto the timeline.
    pub open spec fn plan_for(
        self,
        frames: u32,
        sample_rate: i32,
        timestamp: i64,
    ) -> ResamplePlan {
        ResamplePlan {
            frames,
            out_channels: self.geometry.frame_width() as usize,
            out_frames: device_frames(
                frames as nat,
                sample_rate,
                self.geometry.frame_rate(),
            ) as u64,
            timestamp,
            pts_duration: packet_ticks(frames as nat, sample_rate) as i64,
        }
    }

    /// The samples of a packet were queued, and its frames put on the timeline. What does
    /// not fit goes at the front, of the ring and of the timeline alike; that may be the
    /// start of the packet itself.
    pub open spec fn enqueued(
        self,
        now: u64,
        plan: ResamplePlan,
        samples: Seq<u32>,
    ) -> OutputState {
        let dropped = dropped_frames(
            self.ring.len(),
            samples.len(),
            plan.out_channels as int,
        ) as nat;
        let all = self.timeline + packet_marks(
            plan.timestamp,
            run_ticks(plan.pts_duration),
            plan.out_frames,
        );
        let playhead = playhead_after(all, dropped, self.playhead);
        OutputState {
            ring: newest(self.ring + limited_plane(samples), RING_CAP_SAMPLES as nat),
            timeline: timeline_after(all, dropped),
            playhead: if playhead is None && plan.out_frames > 0 {
                Some(plan.timestamp)
            } else {
                playhead
            },
            queued_at: if self.queued_at is None && plan.out_frames > 0 {
                Some(now)
            } else {
                self.queued_at
            },
            ..self
        }
    }

    /// The device asked for `len` samples while neither queue was in use elsewhere.
    pub open spec fn played(self, now: u64, len: nat, channels: usize) -> OutputState {
        let frames = frames_played(self.ring, len, channels);
        OutputState {
            ring: self.ring.skip(taken(self.ring, len) as int),
            timeline: timeline_after(self.timeline, frames),
            playhead: playhead_after(self.timeline, frames, self.playhead),
            played_at: if frames > 0 {
                Some(now)
            } else {
                self.played_at
            },
            called_at: Some(now),
            ..self
        }
    }

    /// The device asked for `len` samples. When the ring is in use elsewhere it gets
    /// silence; when only the timeline is, the samples go but the timeline stays.
    pub open spec fn called(
        self,
        now: u64,
        len: nat,
        channels: usize,
        ring_free: bool,
        timeline_free: bool,
    ) -> OutputState {
        let played = self.played(now, len, channels);
        if !ring_free {
            OutputState { called_at: Some(now), ..self }
        } else if timeline_free {
            played
        } else {
            OutputState { timeline: self.timeline, playhead: self.playhead, ..played }
        }
    }

    /// A stream of this shape is about to be built.
    pub open spec fn configured(self, channels: u16, rate: u32) -> OutputState {
        OutputState {
            geometry: DeviceGeometry { channels: channels as usize, rate },
            called_at: None,
            ..self.drained()
        }
    }

    /// The worker starts to open the selected device.
    pub open spec fn opening(self) -> OutputState {
        OutputState { needs_reopen: false, ..self.with_status(AudioOutputStatus::Opening) }
    }

    /// The running stream reported an error.
    pub open spec fn stream_failed(self) -> OutputState {
        OutputState { needs_reopen: true, ..self.with_status(AudioOutputStatus::Opening) }
    }
}

/// The newest samples are within scale when all are.
pub proof fn newest_is_within_scale(samples: Seq<u32>, cap: nat)
    requires
        within_scale(samples),
    ensures
        within_scale(newest(samples, cap)),
{
    let kept = newest(samples, cap);
    let gone = samples.len() - kept.len();
    assert forall|i: int| 0 <= i < kept.len() implies is_nan(#[trigger] kept[i]) || magnitude(
        kept[i],
    ) <= FULL_SCALE_BITS by {
        assert(kept[i] == samples[gone + i]);
    }
}

/// Whole frames that a request of `len` samples takes out of the ring.
pub open spec fn frames_played(ring: Seq<u32>, len: nat, channels: usize) -> nat {
    taken(ring, len) / if channels < 1 {
        1
    } else {
        channels as nat
    }
}

/// Whether something happened at most `within` ago.
pub fn recently(slot: Option<u64>, now: u64, within: u64) -> (recent: bool)
    ensures
        recent == happened_within(slot, now, within),
        recent <==> (slot matches Some(at) && now <= at + within),
{
    match slot {
        Some(at) => now.saturating_sub(at) <= within,
        None => false,
    }
}

/// A copy of a device name.
pub(crate) fn copy_name(name: &Option<String>) -> (copy: Option<String>)
    ensures
        copy == *name,
{
    match name {
        Some(text) => Some(text.clone()),
        None => None,
    }
}

/// A volume setting held to 0..=100.
pub open spec fn percentage(pct: i32) -> i32 {
    if pct < 0 {
        0
    } else if pct > 100 {
        100
    } else {
        pct
    }
}

/// Plays decoded planar PCM on a selectable output device.
pub struct AudioOutput {
    ring: VecDeque<u32>,
    pts_runs: VecDeque<PtsRun>,
    levels: AudioLevels,
    boost_db: i32,
    volume_pct: i32,
    geometry: DeviceGeometry,
    device_name: Option<String>,
    playhead: Option<i64>,
    last_playback_activity: Option<u64>,
    last_callback_at: Option<u64>,
    status: AudioOutputStatus,
    output_enabled: bool,
    queued_since_open: bool,
    first_queued_at: Option<u64>,
    needs_reopen: bool,
    attached: bool,
}

impl View for AudioOutput {
    type V = OutputState;

    closed spec fn view(&self) -> OutputState {
        OutputState {
            ring: self.ring@,
            timeline: timeline_of(self.pts_runs@),
            levels: self.levels,
            boost_db: self.boost_db,
            volume_pct: self.volume_pct,
            geometry: self.geometry,
            device: name_view(self.device_name),
            playhead: self.playhead,
            played_at: self.last_playback_activity,
            called_at: self.last_callback_at,
            status: self.status,
            queued_at: self.first_queued_at,
            needs_reopen: self.needs_reopen,
            attached: self.attached,
        }
    }
}

impl AudioOutput {
    /// The fields agree with each other: PCM is let through exactly while the status
    /// is `Ready`, and the first-queued time is known exactly when a packet has been
    /// queued. Every queued run has frames left, so there are no more runs than frames.
    pub closed spec fn fields_agree(&self) -> bool {
        &&& runs_wf(self.pts_runs@)
        &&& runs_unspent(self.pts_runs@)
        &&& self.output_enabled == (self.status is Ready)
        &&& self.queued_since_open == (self.first_queued_at is Some)
    }

    /// What every operation keeps.
    pub open spec fn wf(&self) -> bool {
        &&& self.fields_agree()
        &&& self@.valid()
    }

    /// A new output. `spawned` tells whether the thread that opens devices could be
    /// started; without it the output is a silent stub.
    pub fn new(spawned: bool) -> (output: Self)
        ensures
            output.wf(),
            output@ == OutputState::initial(spawned),
    {
        let output: AudioOutput = AudioOutput {
            ring: VecDeque::with_capacity(8192),
            pts_runs: VecDeque::new(),
            levels: AudioLevels::default(),
            boost_db: 0,
            volume_pct: 100,
            geometry: DeviceGeometry { channels: 2, rate: 48_000 },
            device_name: None,
            playhead: None,
            last_playback_activity: None,
            last_callback_at: None,
            status: if spawned {
                AudioOutputStatus::Opening
            } else {
                AudioOutputStatus::Unavailable
            },
            output_enabled: false,
            queued_since_open: false,
            first_queued_at: None,
            needs_reopen: false,
            attached: spawned,
        };
        assert(output@ =~= OutputState::initial(spawned));
        output
    }

    /// Currently selected device name (`None` = system default).
    pub fn selected_device_name(&self) -> (name: Option<String>)
        ensures
            name_view(name) == self@.device,
    {
        copy_name(&self.device_name)
    }

    /// Snapshot of whether PCM is actually being sent to a device.
    pub fn status(&self) -> (status: AudioOutputStatus)
        ensures
            status == self@.status,
    {
        self.status
    }

    /// Switch output device. `None` selects the system default.
    ///
    /// The command, if any, is for the device worker.
    pub fn set_output_device(&mut self, name: Option<String>) -> (cmd: Option<AudioCmd>)
        requires
            old(self).wf(),
        ensures
            final(self).wf(),
            final(self)@ == old(self)@.device_set(name_view(name)),
            cmd == if old(self)@.attached {
                Some(AudioCmd::SetDevice(name))
            } else {
                None
            },
    {
        self.device_name = copy_name(&name);
        self.clear();
        if self.attached {
            self.needs_reopen = false;
            self.apply_status(AudioOutputStatus::Opening);
            assert(self@ =~= old(self)@.device_set(name_view(name)));
            Some(AudioCmd::SetDevice(name))
        } else {
            self.apply_status(AudioOutputStatus::Unavailable);
            assert(self@ =~= old(self)@.device_set(name_view(name)));
            None
        }
    }

    /// Drop the current device client and open the selected device again.
    pub fn reopen(&mut self) -> (cmd: Option<AudioCmd>)
        requires
            old(self).wf(),
        ensures
            final(self).wf(),
            final(self)@ == old(self)@.device_set(old(self)@.device),
            cmd is Some == old(self)@.attached,
            cmd matches Some(command) ==> command matches AudioCmd::SetDevice(name) && name_view(
                name,
            ) == old(self)@.device,
    {
        let name: Option<String> = copy_name(&self.device_name);
        self.set_output_device(name)
    }

    /// Snapshot of recent true-peak levels (linear 0..1).
    pub fn levels(&self) -> (levels: AudioLevels)
        ensures
            levels == self@.levels,
    {
        self.levels
    }

    /// Set playback boost in dB (typical 0 / 6 / 10 / 20).
    pub fn set_boost_db(&mut self, db: i32)
        requires
            old(self).wf(),
        ensures
            final(self).wf(),
            final(self)@ == (OutputState { boost_db: db, ..old(self)@ }),
            final(self)@ == old(self)@.boost_set(db),
    {
        self.boost_db = db;
    }

    /// Set listening volume (0..=100). Does not change VU peaks.
    pub fn set_volume_pct(&mut self, pct: i32)
        requires
            old(self).wf(),
        ensures
            final(self).wf(),
            final(self)@ == (OutputState { volume_pct: percentage(pct), ..old(self)@ }),
            final(self)@ == old(self)@.volume_set(pct),
            0 <= pct <= 100 ==> final(self)@.volume_pct == pct,
    {
        self.volume_pct = if pct < 0 {
            0
        } else if pct > 100 {
            100
        } else {
            pct
        };
    }

    /// PTS of the sample currently being played, if the timeline is active.
    pub fn playhead_pts(&self) -> (pts: Option<i64>)
        ensures
            pts == self@.playhead,
    {
        self.playhead
    }

    /// Whether the output callback has recently consumed queued PCM.
    pub fn playback_active(&self, now: u64) -> (active: bool)
        ensures
            active == happened_within(self@.played_at, now, CALLBACK_ALIVE),
            active <==> (self@.played_at matches Some(at) && now <= at + 250_000_000),
    {
        recently(self.last_playback_activity, now, CALLBACK_ALIVE)
    }

    /// Buffered audio duration currently sitting in the ring (milliseconds).
    pub fn buffered_ms(&self) -> (buffered: MsRatio)
        requires
            self.wf(),
        ensures
            buffered.numer == self@.ring.len() / self@.geometry.frame_width() * 1000,
            buffered.numer == self@.buffered_numer(),
            buffered.denom == self@.geometry.frame_rate(),
    {
        let width: usize = if self.geometry.channels < 1 {
            1
        } else {
            self.geometry.channels
        };
        let frames: usize = self.ring.len() / width;
        assert(frames <= self.ring@.len()) by (nonlinear_arith)
            requires
                frames == self.ring@.len() as int / width as int,
                width >= 1,
        ;
        MsRatio { numer: frames as u64 * 1000, denom: self.device_sample_rate() }
    }

    /// Device output sample rate currently configured.
    pub fn device_sample_rate(&self) -> (rate: u32)
        ensures
            rate == self@.geometry.frame_rate(),
            self@.geometry.rate >= 1 ==> rate == self@.geometry.rate,
    {
        if self.geometry.rate < 1 {
            1
        } else {
            self.geometry.rate
        }
    }

    /// Clear the ring buffer (on disconnect / source change).
    pub fn clear(&mut self)
        requires
            old(self).wf(),
        ensures
            final(self).wf(),
            final(self)@ == old(self)@.cleared(),
    {
        self.ring.clear();
        self.pts_runs.clear();
        self.levels = AudioLevels::default();
        self.invalidate_playhead();
        assert(self@ =~= old(self)@.cleared());
    }

    /// Drop the media-clock playhead without touching buffered PCM.
    pub fn invalidate_playhead(&mut self)
        requires
            old(self).wf(),
        ensures
            final(self).wf(),
            final(self)@ == old(self)@.without_playhead(),
    {
        self.playhead = None;
        self.last_playback_activity = None;
    }

    /// Set the status, and let PCM through exactly while it is `Ready`.
    pub fn apply_status(&mut self, status: AudioOutputStatus)
        requires
            old(self).wf(),
        ensures
            final(self).wf(),
            final(self)@ == old(self)@.with_status(status),
    {
        self.status = status;
        self.output_enabled = matches!(status, AudioOutputStatus::Ready);
        self.first_queued_at = None;
        self.queued_since_open = false;
    }

    /// Give the current stream up and ask the worker to open it again.
    pub fn request_reopen(&mut self)
        requires
            old(self).wf(),
        ensures
            final(self).wf(),
            final(self)@ == old(self)@.reopen_requested(),
    {
        self.ring.clear();
        self.pts_runs.clear();
        self.invalidate_playhead();
        self.levels.peak_l = 0;
        self.levels.peak_r = 0;
        if self.attached {
            if !self.needs_reopen {
                self.needs_reopen = true;
                self.apply_status(AudioOutputStatus::Opening);
            }
        } else {
            self.apply_status(AudioOutputStatus::Unavailable);
        }
        assert(self@ =~= old(self)@.reopen_requested());
    }

    /// Give up a stream that has been given PCM but is not being pulled.
    pub fn maybe_declare_dead_output(&mut self, now: u64)
        requires
            old(self).wf(),
        ensures
            final(self).wf(),
            final(self)@ == old(self)@.supervised(now),
    {
        if !self.output_enabled {
            return ;
        }
        if self.playback_active(now) {
            return ;
        }
        if !self.queued_since_open {
            return ;
        }
        match self.last_callback_at {
            Some(callback_at) => {
                if now.saturating_sub(callback_at) <= STALL_REOPEN {
                    return ;
                }
            },
            None => match self.first_queued_at {
                Some(queued_at) => {
                    if now.saturating_sub(queued_at) <= DEAD_OUTPUT_GRACE {
                        return ;
                    }
                },
                None => {
                    return ;
                },
            },
        }
        self.request_reopen();
    }

    /// Whether incoming PCM has to be discarded.
    pub fn should_discard_pcm(&mut self, now: u64) -> (discard: bool)
        requires
            old(self).wf(),
        ensures
            final(self).wf(),
            final(self)@ == old(self)@.supervised(now),
            discard == !(final(self)@.status is Ready),
    {
        self.maybe_declare_dead_output(now);
        !self.output_enabled
    }

    /// Count a packet that is not played.
    pub fn record_silent_packet(&mut self, sample_rate: i32, channels: i32)
        requires
            old(self).wf(),
        ensures
            final(self).wf(),
            final(self)@ == old(self)@.silent_packet(sample_rate, channels),
    {
        self.levels = AudioLevels {
            peak_l: 0,
            peak_r: 0,
            frames: self.levels.frames.saturating_add(1),
            sample_rate,
            channels,
        };
    }

    /// Decide whether a packet of `len` bytes may be played: the part of
    /// [`AudioOutput::push_planar_f32`] that needs the output.
    pub fn admit_packet(
        &mut self,
        now: u64,
        len: usize,
        channels: i32,
        samples: i32,
        sample_rate: i32,
        timestamp: i64,
    ) -> (admission: Admission)
        requires
            old(self).wf(),
        ensures
            final(self).wf(),
            match admission {
                Admission::Rejected => {
                    &&& !packet_complete(len as nat, channels, samples)
                    &&& final(self)@ == old(self)@
                },
                Admission::Discarded => {
                    &&& packet_complete(len as nat, channels, samples)
                    &&& !(old(self)@.supervised(now).status is Ready)
                    &&& final(self)@ == old(self)@.supervised(now).silent_packet(
                        sample_rate,
                        channels,
                    )
                },
                Admission::Admitted(header) => {
                    &&& packet_complete(len as nat, channels, samples)
                    &&& old(self)@.supervised(now).status is Ready
                    &&& final(self)@ == old(self)@.supervised(now)
                    &&& header == (PacketHeader {
                        channels,
                        samples,
                        sample_rate,
                        timestamp,
                        boost_db: old(self)@.boost_db,
                        volume_pct: old(self)@.volume_pct,
                    })
                },
            },
            admission == old(self)@.admission(
                now,
                len as nat,
                channels,
                samples,
                sample_rate,
                timestamp,
            ),
            final(self)@ == old(self)@.asked(now, len as nat, channels, samples, sample_rate),
    {
        if !packet_is_complete(len, channels, samples) {
            return Admission::Rejected;
        }
        if self.should_discard_pcm(now) {
            self.record_silent_packet(sample_rate, channels);
            return Admission::Discarded;
        }
        Admission::Admitted(
            PacketHeader {
                channels,
                samples,
                sample_rate,
                timestamp,
                boost_db: self.boost_db,
                volume_pct: self.volume_pct,
            },
        )
    }

    /// Push planar PCM (`ch0[samples]..chN[samples]` tightly packed as little-endian
    /// words).
    ///
    /// `timestamp` is the PTS (100 ns ticks) of the first sample in the packet. A
    /// packet that is accepted is then amplified by the caller and handed to
    /// [`AudioOutput::meter_packet`] and [`AudioOutput::enqueue`].
    pub fn push_planar_f32(
        &mut self,
        now: u64,
        data: &[u8],
        channels: i32,
        samples: i32,
        sample_rate: i32,
        timestamp: i64,
    ) -> (step: PushStep)
        requires
            old(self).wf(),
        ensures
            final(self).wf(),
            match step {
                PushStep::Rejected => {
                    &&& !packet_complete(data@.len(), channels, samples)
                    &&& final(self)@ == old(self)@
                },
                PushStep::Discarded => {
                    &&& packet_complete(data@.len(), channels, samples)
                    &&& !(old(self)@.supervised(now).status is Ready)
                    &&& final(self)@ == old(self)@.supervised(now).silent_packet(
                        sample_rate,
                        channels,
                    )
                },
                PushStep::Accepted(packet) => {
                    &&& packet_complete(data@.len(), channels, samples)
                    &&& old(self)@.supervised(now).status is Ready
                    &&& final(self)@ == old(self)@.supervised(now)
                    &&& packet.wf()
                    &&& planes_view(packet.planes@) == planes_of(
                        data@,
                        plane_count(channels),
                        frame_count(samples),
                    )
                    &&& packet.frames == frame_count(samples)
                    &&& packet.channels == channels
                    &&& packet.sample_rate == sample_rate
                    &&& packet.timestamp == timestamp
                    &&& packet.boost_db == old(self)@.boost_db
                    &&& packet.volume_pct == old(self)@.volume_pct
                },
            },
            match old(self)@.admission(
                now,
                data@.len(),
                channels,
                samples,
                sample_rate,
                timestamp,
            ) {
                Admission::Rejected => step is Rejected,
                Admission::Discarded => step is Discarded,
                Admission::Admitted(_) => step is Accepted,
            },
            final(self)@ == old(self)@.asked(now, data@.len(), channels, samples, sample_rate),
    {
        match self.admit_packet(now, data.len(), channels, samples, sample_rate, timestamp) {
            Admission::Rejected => PushStep::Rejected,
            Admission::Discarded => PushStep::Discarded,
            Admission::Admitted(header) => PushStep::Accepted(header.decode(data)),
        }
    }

    /// Meter an accepted packet and say what it needs to fit the open device.
    ///
    /// `boosted` holds the packet's planes after the playback boost; the listening
    /// volume is not in it.
    pub fn meter_packet(&mut self, packet: &PcmPacket, boosted: &Vec<Vec<u32>>) -> (plan:
        ResamplePlan)
        requires
            old(self).wf(),
            packet.wf(),
            boosted@.len() == packet.planes@.len(),
        ensures
            final(self).wf(),
            final(self)@ == old(self)@.metered(
                planes_view(boosted@),
                packet.sample_rate,
                packet.channels,
            ),
            plan.wf(),
            plan == old(self)@.plan_for(packet.frames, packet.sample_rate, packet.timestamp),
            plan.frames == packet.frames,
            plan.out_channels == old(self)@.geometry.frame_width(),
            plan.out_frames == device_frames(
                packet.frames as nat,
                packet.sample_rate,
                old(self)@.geometry.frame_rate(),
            ),
            plan.timestamp == packet.timestamp,
            plan.pts_duration == packet_ticks(packet.frames as nat, packet.sample_rate),
    {
        let peak_l: u32 = limit_sample(plane_peak(&boosted[0]));
        let peak_r: u32 = if boosted.len() == 1 {
            0
        } else {
            limit_sample(plane_peak(&boosted[1]))
        };
        proof {
            peak_is_a_number(boosted@[0]@);
            if boosted@.len() > 1 {
                peak_is_a_number(boosted@[1]@);
            }
        }
        self.levels = AudioLevels {
            peak_l,
            peak_r,
            frames: self.levels.frames.saturating_add(1),
            sample_rate: packet.sample_rate,
            channels: packet.channels,
        };
        let width: usize = if self.geometry.channels < 1 {
            1
        } else {
            self.geometry.channels
        };
        let rate: i64 = if packet.sample_rate < 1 {
            1
        } else {
            packet.sample_rate as i64
        };
        proof {
            device_frames_bound(
                packet.frames as nat,
                packet.sample_rate,
                self@.geometry.frame_rate(),
            );
        }
        ResamplePlan {
            frames: packet.frames,
            out_channels: width,
            out_frames: resampled_frames(
                packet.frames,
                packet.sample_rate,
                self.device_sample_rate(),
            ),
            timestamp: packet.timestamp,
            pts_duration: packet.frames as i64 * TICKS_PER_SECOND / rate,
        }
    }

    /// Queue the interleaved device samples of a packet.
    pub fn enqueue(&mut self, now: u64, plan: &ResamplePlan, samples: &Vec<u32>)
        requires
            old(self).wf(),
            plan.wf(),
        ensures
            final(self).wf(),
            final(self)@ == old(self)@.enqueued(now, *plan, samples@),
    {
        let held: Vec<u32> = limit_plane(samples);
        let dropped: u64 = push_samples(&mut self.ring, &held, plan.out_channels);
        let ghost runs: Seq<PtsRun> = self.pts_runs@;
        if plan.out_frames > 0 {
            let run: PtsRun = PtsRun {
                pts_start: plan.timestamp,
                pts_duration: if plan.pts_duration < 1 {
                    1
                } else {
                    plan.pts_duration
                },
                frames_total: plan.out_frames,
                frames_consumed: 0,
            };
            self.pts_runs.push_back(run);
            proof {
                timeline_of_push(runs, run);
                assert forall|i: int| 0 <= i < self.pts_runs@.len() implies (
                #[trigger] self.pts_runs@[i]).wf() && self.pts_runs@[i].left() > 0 by {
                    if i < runs.len() {
                        assert(self.pts_runs@[i] == runs[i]);
                    }
                }
            }
        }
        let ghost all: Seq<i64> = old(self)@.timeline + packet_marks(
            plan.timestamp,
            run_ticks(plan.pts_duration),
            plan.out_frames,
        );
        proof {
            if plan.out_frames == 0 {
                assert(all =~= old(self)@.timeline);
            }
            assert(timeline_of(self.pts_runs@) == all);
            consuming_leaves_no_spent_runs(self.pts_runs@, dropped as nat);
        }
        consume_pts_frames(&mut self.pts_runs, dropped, &mut self.playhead);
        if plan.out_frames > 0 {
            if self.playhead.is_none() {
                self.playhead = Some(plan.timestamp);
            }
            if !self.queued_since_open {
                self.queued_since_open = true;
                self.first_queued_at = Some(now);
            }
        }
        proof {
            limited_samples_are_within_scale(samples@);
            let joined = old(self)@.ring + held@;
            assert(within_scale(joined));
            newest_is_within_scale(joined, RING_CAP_SAMPLES as nat);
        }
        assert(self@ =~= old(self)@.enqueued(now, *plan, samples@));
    }

    /// Answer the device callback, which wants `len` samples of `channels`-channel
    /// frames.
    ///
    /// `ring_free` and `timeline_free` tell whether the callback, which must not wait,
    /// could get at the ring and at the timeline.
    pub fn render(
        &mut self,
        now: u64,
        len: usize,
        channels: usize,
        ring_free: bool,
        timeline_free: bool,
    ) -> (out: Vec<u32>)
        requires
            old(self).wf(),
        ensures
            final(self).wf(),
            final(self)@ == old(self)@.called(
                now,
                len as nat,
                channels,
                ring_free,
                timeline_free,
            ),
            out@ == if ring_free {
                rendered(old(self)@.ring, len as nat)
            } else {
                Seq::new(len as nat, |i: int| 0u32)
            },
            out@ == old(self)@.heard(len as nat, ring_free),
    {
        self.last_callback_at = Some(now);
        if !ring_free {
            let silence: Vec<u32> = vec![0u32; len];
            assert(silence@ =~= Seq::new(len as nat, |i: int| 0u32));
            return silence;
        }
        let width: usize = if channels < 1 {
            1
        } else {
            channels
        };
        let (out, got) = take_samples(&mut self.ring, len);
        let frames: usize = got / width;
        if frames > 0 {
            if timeline_free {
                proof {
                    consuming_leaves_no_spent_runs(self.pts_runs@, frames as nat);
                }
                consume_pts_frames(&mut self.pts_runs, frames as u64, &mut self.playhead);
            }
            self.last_playback_activity = Some(now);
        } else {
            assert(old(self)@.timeline.skip(0) =~= old(self)@.timeline);
        }
        proof {
            let rest = old(self)@.ring.skip(got as int);
            assert forall|i: int| 0 <= i < rest.len() implies is_nan(#[trigger] rest[i])
                || magnitude(rest[i]) <= FULL_SCALE_BITS by {
                assert(rest[i] == old(self)@.ring[got + i]);
            }
        }
        assert(self@ =~= old(self)@.called(now, len as nat, channels, ring_free, timeline_free));
        out
    }

    /// Forget what an earlier stream left behind; one of this shape is to be built.
    pub fn configure(&mut self, channels: u16, rate: u32)
        requires
            old(self).wf(),
        ensures
            final(self).wf(),
            final(self)@ == old(self)@.configured(channels, rate),
    {
        self.geometry = DeviceGeometry { channels: channels as usize, rate };
        self.ring.clear();
        self.pts_runs.clear();
        self.invalidate_playhead();
        self.last_callback_at = None;
        assert(self@ =~= old(self)@.configured(channels, rate));
    }

    /// The worker starts to open the selected device.
    pub fn begin_opening(&mut self)
        requires
            old(self).wf(),
        ensures
            final(self).wf(),
            final(self)@ == old(self)@.opening(),
    {
        self.apply_status(AudioOutputStatus::Opening);
        self.needs_reopen = false;
    }

    /// The running stream reported an error.
    pub fn stream_error(&mut self)
        requires
            old(self).wf(),
        ensures
            final(self).wf(),
            final(self)@ == old(self)@.stream_failed(),
    {
        self.needs_reopen = true;
        self.apply_status(AudioOutputStatus::Opening);
    }

    /// Take up a pending request to open the stream again, if there is one.
    pub fn take_reopen_request(&mut self) -> (requested: bool)
        requires
            old(self).wf(),
        ensures
            final(self).wf(),
            requested == old(self)@.needs_reopen,
            final(self)@ == (OutputState { needs_reopen: false, ..old(self)@ }),
    {
        let requested: bool = self.needs_reopen;
        self.needs_reopen = false;
        requested
    }

    /// Record which device the worker opens.
    pub fn note_device(&mut self, name: Option<String>)
        requires
            old(self).wf(),
        ensures
            final(self).wf(),
            final(self)@ == (OutputState { device: name_view(name), ..old(self)@ }),
    {
        self.device_name = name;
    }

    /// The output goes away: the worker, if there is one, is told once.
    pub fn shutdown(&mut self) -> (cmd: Option<AudioCmd>)
        requires
            old(self).wf(),
        ensures
            final(self).wf(),
            final(self)@ == (OutputState { attached: false, ..old(self)@ }),
            final(self)@ == old(self)@.detached(),
            cmd == if old(self)@.attached {
                Some(AudioCmd::Shutdown)
            } else {
                None
            },
    {
        if self.attached {
            self.attached = false;
            Some(AudioCmd::Shutdown)
        } else {
            None
        }
    }
}

} // verus!
