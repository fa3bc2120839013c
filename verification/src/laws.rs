//! What holds of an audio output across operations.

use crate::output::{
    counted, frames_played, happened_within, name_view, newest_is_within_scale, no_levels,
    packet_marks, percentage, run_ticks, Admission, AudioCmd, AudioOutputStatus, DeviceGeometry, OutputState,
    ResamplePlan, DEAD_OUTPUT_GRACE, STALL_REOPEN,
};
use crate::pcm::{
    limited, limited_plane, limited_planes, limited_samples_are_within_scale,
    packet_lasts_its_frames_at_its_rate,
    packet_ticks, packet_ticks_bound, packets_need_all_their_bytes, peak, peak_is_a_number,
    peak_is_the_largest_magnitude, within_scale,
};
use crate::resample::{
    device_frames, device_frames_bound, device_frames_keep_the_length_in_time,
    output_is_spread_evenly_over_every_channel, Blend,
};
use crate::ring::{
    dropped_frames, frame_starts, newest, rendered, room_for, taken, RING_CAP_SAMPLES,
};
use crate::timeline::{
    mark_is_within_run, marks_are_in_proportion, played_run_ends_on_time, PtsRun,
};
use crate::worker::{Phase, WaitEvent, WorkerEvent, WorkerState};
use vstd::arithmetic::div_mod::{
    lemma_div_is_ordered, lemma_fundamental_div_mod, lemma_fundamental_div_mod_converse,
};
use vstd::prelude::*;

verus! {

/// The ring holds exactly the frames that the timeline has marks for.
pub open spec fn in_step(state: OutputState, channels: int) -> bool {
    state.ring.len() == state.timeline.len() * channels
}

/// A whole number of frames starts as many frames.
proof fn whole_frames(frames: int, channels: int)
    requires
        0 <= frames,
        1 <= channels,
    ensures
        frame_starts(frames * channels, channels) == frames,
{
    lemma_fundamental_div_mod_converse(
        frames * channels + channels - 1,
        channels,
        frames,
        channels - 1,
    );
}

/// What a packet puts in the ring comes out of it after what was there before, sample
/// for sample; when not everything fits, the newest samples do. Nothing that is a number
/// comes out beyond full scale.
pub proof fn queued_samples_come_out_in_order(
    state: OutputState,
    now: u64,
    plan: ResamplePlan,
    samples: Seq<u32>,
)
    requires
        state.valid(),
    ensures
        ({
            let after = state.enqueued(now, plan, samples);
            let out = rendered(after.ring, after.ring.len());
            &&& out == newest(state.ring + limited_plane(samples), RING_CAP_SAMPLES as nat)
            &&& within_scale(out)
            &&& within_scale(samples) && state.ring.len() + samples.len() <= RING_CAP_SAMPLES
                ==> out == state.ring + samples
        }),
{
    let after = state.enqueued(now, plan, samples);
    assert(rendered(after.ring, after.ring.len()) =~= after.ring);
    limited_samples_are_within_scale(samples);
    let all = state.ring + limited_plane(samples);
    newest_is_within_scale(all, RING_CAP_SAMPLES as nat);
}

/// Two requests in a row get what one request for both gets.
pub proof fn requests_add_up(ring: Seq<u32>, first: nat, second: nat)
    ensures
        rendered(ring, first) + rendered(ring.skip(taken(ring, first) as int), second) == rendered(
            ring,
            first + second,
        ),
{
    assert(rendered(ring, first) + rendered(ring.skip(taken(ring, first) as int), second)
        =~= rendered(ring, first + second));
}

/// When a packet overflows the ring, the oldest samples go together with their marks,
/// those of the packet itself among them: ring and timeline lose the same frames, and
/// stay in step. Either everything fits, or the ring holds whole frames.
pub proof fn overflow_drops_samples_with_their_marks(
    state: OutputState,
    now: u64,
    plan: ResamplePlan,
    samples: Seq<u32>,
)
    requires
        state.valid(),
        plan.wf(),
        in_step(state, plan.out_channels as int),
        samples.len() == plan.out_frames * plan.out_channels,
        state.ring.len() + samples.len() <= RING_CAP_SAMPLES || RING_CAP_SAMPLES as int
            % plan.out_channels as int == 0,
    ensures
        ({
            let after = state.enqueued(now, plan, samples);
            let dropped = dropped_frames(
                state.ring.len(),
                samples.len(),
                plan.out_channels as int,
            );
            let marks = packet_marks(
                plan.timestamp,
                run_ticks(plan.pts_duration),
                plan.out_frames,
            );
            &&& 0 <= dropped <= state.timeline.len() + marks.len()
            &&& after.ring == (state.ring + limited_plane(samples)).skip(
                dropped * plan.out_channels,
            )
            &&& after.timeline == (state.timeline + marks).skip(dropped)
            &&& in_step(after, plan.out_channels as int)
        }),
{
    let w = plan.out_channels as int;
    let cap = RING_CAP_SAMPLES as int;
    let held = state.timeline.len() as int;
    let coming = plan.out_frames as int;
    let after = state.enqueued(now, plan, samples);
    let dropped = dropped_frames(state.ring.len(), samples.len(), w);
    let marks = packet_marks(plan.timestamp, run_ticks(plan.pts_duration), plan.out_frames);
    let joined = state.ring + limited_plane(samples);
    assert(marks.len() == coming);
    whole_frames(coming, w);
    assert(coming * w == samples.len());
    if state.ring.len() + samples.len() <= RING_CAP_SAMPLES {
        assert(dropped == 0);
        assert(0 * w == 0) by (nonlinear_arith);
        assert(joined.skip(0) =~= joined);
        assert((state.timeline + marks).skip(0) =~= state.timeline + marks);
        assert((held + coming) * w == held * w + coming * w) by (nonlinear_arith);
    } else {
        let room = cap / w;
        lemma_fundamental_div_mod(cap, w);
        assert(cap == room * w) by (nonlinear_arith)
            requires
                cap == w * room + cap % w,
                cap % w == 0,
        ;
        assert((room - held) * w == cap - held * w) by (nonlinear_arith)
            requires
                cap == room * w,
        ;
        assert(held <= room) by (nonlinear_arith)
            requires
                held * w <= cap,
                cap == room * w,
                1 <= w,
        ;
        assert(held + coming > room) by (nonlinear_arith)
            requires
                held * w + coming * w > cap,
                cap == room * w,
                1 <= w,
        ;
        assert(room >= 0) by (nonlinear_arith)
            requires
                held <= room,
                held >= 0,
        ;
        whole_frames(room - held, w);
        assert(room_for(state.ring.len(), samples.len()) == (room - held) * w);
        assert(dropped == coming - (room - held));
        assert(dropped * w == joined.len() - cap) by (nonlinear_arith)
            requires
                dropped == coming - (room - held),
                joined.len() == held * w + coming * w,
                cap == room * w,
        ;
        assert(after.timeline.len() == room);
        assert(after.ring.len() == cap);
    }
}

/// The device takes samples together with their marks, and ring and timeline stay in
/// step: whenever it asks for whole frames, or for all that is queued.
pub proof fn playing_takes_samples_with_their_marks(
    state: OutputState,
    now: u64,
    len: nat,
    channels: usize,
)
    requires
        1 <= channels,
        in_step(state, channels as int),
        len as int % channels as int == 0 || state.ring.len() <= len,
    ensures
        ({
            let after = state.called(now, len, channels, true, true);
            let frames = frames_played(state.ring, len, channels);
            &&& frames <= state.timeline.len()
            &&& after.ring == state.ring.skip(frames * channels)
            &&& after.timeline == state.timeline.skip(frames as int)
            &&& in_step(after, channels as int)
        }),
{
    let w = channels as int;
    let held = state.timeline.len() as int;
    let got = taken(state.ring, len) as int;
    let frames = frames_played(state.ring, len, channels) as int;
    lemma_fundamental_div_mod(got, w);
    if state.ring.len() <= len {
        lemma_fundamental_div_mod_converse(got, w, held, 0);
    }
    assert(got == frames * w) by (nonlinear_arith)
        requires
            got == w * frames + got % w,
            got % w == 0,
    ;
    assert(frames <= held) by (nonlinear_arith)
        requires
            frames * w <= held * w,
            1 <= w,
    ;
    assert((held - frames) * w == held * w - frames * w) by (nonlinear_arith);
}

/// Once everything that is queued has been played, the playhead stands at the newest
/// mark.
pub proof fn playing_everything_ends_at_the_newest_mark(
    state: OutputState,
    now: u64,
    len: nat,
    channels: usize,
)
    requires
        1 <= channels,
        in_step(state, channels as int),
        state.ring.len() <= len,
        state.timeline.len() > 0,
    ensures
        ({
            let after = state.called(now, len, channels, true, true);
            &&& after.ring.len() == 0
            &&& after.timeline.len() == 0
            &&& after.playhead == Some(state.timeline.last())
        }),
{
    lemma_fundamental_div_mod_converse(
        state.ring.len() as int,
        channels as int,
        state.timeline.len() as int,
        0,
    );
}

/// A packet covers its device frames with marks that run from its timestamp on; the last
/// one is the packet's end, as long as duration times frames is an `i64`.
pub proof fn packet_marks_end_at_the_packets_end(plan: ResamplePlan)
    requires
        plan.wf(),
        plan.pts_in_range(),
        plan.out_frames > 0,
        run_ticks(plan.pts_duration) * plan.out_frames <= i64::MAX,
    ensures
        ({
            let marks = packet_marks(
                plan.timestamp,
                run_ticks(plan.pts_duration),
                plan.out_frames,
            );
            &&& marks.len() == plan.out_frames
            &&& marks.last() == plan.timestamp + run_ticks(plan.pts_duration)
            &&& forall|i: int|
                0 <= i < marks.len() ==> plan.timestamp <= #[trigger] marks[i] <= plan.timestamp
                    + run_ticks(plan.pts_duration)
        }),
{
    let run = PtsRun {
        pts_start: plan.timestamp,
        pts_duration: run_ticks(plan.pts_duration) as i64,
        frames_total: plan.out_frames,
        frames_consumed: 0,
    };
    played_run_ends_on_time(run);
    let marks = run.marks();
    assert forall|i: int| 0 <= i < marks.len() implies plan.timestamp <= #[trigger] marks[i]
        <= plan.timestamp + run_ticks(plan.pts_duration) by {
        mark_is_within_run(run, i + 1);
    }
}

/// What a push does to the queues, whatever the timestamp: the ring holds the newest
/// samples of what was queued and what came, never more than its bound and none beyond
/// full scale; the packet's frames go on the timeline from its timestamp on, for its own
/// duration; and ring and timeline stay in step, unless an overflow meets a ring that
/// does not hold whole frames.
pub proof fn pushed_packet_is_queued_in_step(
    state: OutputState,
    now: u64,
    planes: Seq<Seq<u32>>,
    frames: u32,
    sample_rate: i32,
    channels: i32,
    timestamp: i64,
    samples: Seq<u32>,
)
    requires
        state.valid(),
        0 < frames <= i32::MAX,
        samples.len() == device_frames(
            frames as nat,
            sample_rate,
            state.geometry.frame_rate(),
        ) * state.geometry.frame_width(),
    ensures
        ({
            let width = state.geometry.frame_width() as int;
            let plan = state.plan_for(frames, sample_rate, timestamp);
            let after = state.metered(planes, sample_rate, channels).enqueued(now, plan, samples);
            let all = state.ring + limited_plane(samples);
            let ticks = packet_ticks(frames as nat, sample_rate);
            let marks = packet_marks(
                timestamp,
                if ticks < 1 {
                    1
                } else {
                    ticks
                },
                plan.out_frames,
            );
            &&& plan.wf()
            &&& after.ring == newest(all, RING_CAP_SAMPLES as nat)
            &&& after.ring.len() <= RING_CAP_SAMPLES
            &&& within_scale(after.ring)
            &&& marks.len() == device_frames(
                frames as nat,
                sample_rate,
                state.geometry.frame_rate(),
            )
            &&& in_step(state, width) && (all.len() <= RING_CAP_SAMPLES || RING_CAP_SAMPLES as int
                % width == 0) ==> {
                &&& in_step(after, width)
                &&& after.timeline == (state.timeline + marks).skip(
                    state.timeline.len() + marks.len() - after.timeline.len(),
                )
            }
        }),
{
    let width = state.geometry.frame_width() as int;
    let plan = state.plan_for(frames, sample_rate, timestamp);
    let met = state.metered(planes, sample_rate, channels);
    let all = state.ring + limited_plane(samples);
    device_frames_bound(frames as nat, sample_rate, state.geometry.frame_rate());
    packet_ticks_bound(frames as nat, sample_rate);
    limited_samples_are_within_scale(samples);
    newest_is_within_scale(all, RING_CAP_SAMPLES as nat);
    if in_step(state, width) && (all.len() <= RING_CAP_SAMPLES || RING_CAP_SAMPLES as int % width
        == 0) {
        overflow_drops_samples_with_their_marks(
            OutputState { levels: state.levels, ..met },
            now,
            plan,
            samples,
        );
    }
}

/// The listening volume does not reach the meters, and queueing does not touch them.
pub proof fn volume_does_not_change_levels(
    state: OutputState,
    volume_pct: i32,
    now: u64,
    planes: Seq<Seq<u32>>,
    sample_rate: i32,
    channels: i32,
    plan: ResamplePlan,
    samples: Seq<u32>,
)
    ensures
        (OutputState { volume_pct, ..state }).metered(planes, sample_rate, channels).levels
            == state.metered(planes, sample_rate, channels).levels,
        state.metered(planes, sample_rate, channels).enqueued(now, plan, samples).levels
            == state.metered(planes, sample_rate, channels).levels,
{
}

/// A device that is not `Ready` gets no PCM: a packet is counted, the meters show
/// silence, and nothing is queued or played.
pub proof fn closed_output_discards_pcm(
    state: OutputState,
    now: u64,
    sample_rate: i32,
    channels: i32,
)
    requires
        !(state.status is Ready),
    ensures
        ({
            let after = state.supervised(now).silent_packet(sample_rate, channels);
            &&& after == (OutputState { levels: after.levels, ..state })
            &&& after.levels.peak_l == 0
            &&& after.levels.peak_r == 0
            &&& state.levels.frames < u64::MAX ==> after.levels.frames == state.levels.frames + 1
        }),
{
}

/// A dead output is muted at once: nothing stays queued, the playhead and the peaks
/// are gone, and, unless a reopen is already under way, it is `Ready` no longer.
pub proof fn dead_output_is_muted(state: OutputState, now: u64)
    requires
        state.dead(now),
    ensures
        ({
            let after = state.supervised(now);
            &&& after.ring.len() == 0
            &&& after.timeline.len() == 0
            &&& after.playhead is None
            &&& after.levels.peak_l == 0
            &&& after.levels.peak_r == 0
            &&& after.levels.frames == state.levels.frames
            &&& !state.attached ==> after.status is Unavailable && after.needs_reopen
                == state.needs_reopen
            &&& state.attached ==> after.needs_reopen
            &&& state.attached && !state.needs_reopen ==> after.status is Opening
        }),
{
}

/// A stream that has not been given PCM is never dead, however long it has been open.
pub proof fn idle_stream_stays_open(state: OutputState, now: u64)
    requires
        state.queued_at is None,
    ensures
        state.supervised(now) == state,
{
}

/// The grace time runs from the first packet after the stream opened: a burst that
/// comes within it keeps the output as it is.
pub proof fn first_packet_starts_the_grace_time(
    state: OutputState,
    first: u64,
    plan: ResamplePlan,
    samples: Seq<u32>,
    now: u64,
)
    requires
        state.queued_at is None,
        state.called_at is None,
        plan.out_frames > 0,
        first <= now,
        now - first <= DEAD_OUTPUT_GRACE,
    ensures
        state.enqueued(first, plan, samples).queued_at == Some(first),
        state.enqueued(first, plan, samples).supervised(now) == state.enqueued(
            first,
            plan,
            samples,
        ),
{
}

/// A device that calls back is alive: for [`STALL_REOPEN`] after a callback, with or
/// without PCM, nothing is given up.
pub proof fn callbacks_keep_the_output_open(
    state: OutputState,
    at: u64,
    len: nat,
    channels: usize,
    ring_free: bool,
    timeline_free: bool,
    now: u64,
)
    requires
        at <= now,
        now - at <= STALL_REOPEN,
    ensures
        ({
            let after = state.called(at, len, channels, ring_free, timeline_free);
            after.supervised(now) == after
        }),
{
}

/// Asking to reopen again changes nothing.
pub proof fn reopen_requests_coalesce(state: OutputState)
    ensures
        state.reopen_requested().reopen_requested() == state.reopen_requested(),
{
}

/// Whatever the status becomes, the grace time starts anew.
pub proof fn status_change_restarts_the_grace_time(
    state: OutputState,
    status: AudioOutputStatus,
    now: u64,
)
    ensures
        state.with_status(status).supervised(now) == state.with_status(status),
{
}

/// Selecting a device selects it, and mutes the output; reopening selects the same one.
pub proof fn selection_sticks(state: OutputState, name: Option<Seq<char>>)
    ensures
        state.device_set(name).device == name,
        state.device_set(state.device).device == state.device,
        state.device_set(name).ring.len() == 0,
        state.device_set(name).playhead is None,
        state.device_set(name).levels == no_levels(),
        !(state.device_set(name).status is Ready),
{
}

/// Clearing empties the queues and the meters but keeps the settings and the stream.
pub proof fn clearing_keeps_the_settings(state: OutputState)
    ensures
        state.cleared().ring.len() == 0,
        state.cleared().timeline.len() == 0,
        state.cleared().playhead is None,
        state.cleared().levels == no_levels(),
        state.cleared().boost_db == state.boost_db,
        state.cleared().volume_pct == state.volume_pct,
        state.cleared().device == state.device,
        state.cleared().status == state.status,
        state.cleared().geometry == state.geometry,
        state.without_playhead().ring == state.ring,
        state.without_playhead().timeline == state.timeline,
{
}

/// A packet that enters an output without a playhead sets it to its own timestamp, and
/// one that joins others leaves it alone, unless frames are dropped.
pub proof fn first_packet_sets_the_playhead(
    state: OutputState,
    now: u64,
    plan: ResamplePlan,
    samples: Seq<u32>,
)
    requires
        dropped_frames(state.ring.len(), samples.len(), plan.out_channels as int) == 0,
        plan.out_frames > 0,
    ensures
        state.enqueued(now, plan, samples).playhead == if state.playhead is None {
            Some(plan.timestamp)
        } else {
            state.playhead
        },
{
}

/// The worker makes an output `Ready` only by starting a stream.
pub proof fn only_a_started_stream_is_ready(
    worker: WorkerState,
    event: WorkerEvent,
    output: OutputState,
)
    requires
        worker.phase.accepts(event),
        !(output.status is Ready),
        worker.effect(event, output).status is Ready,
    ensures
        event is StreamStarted,
        worker.next(event, output).phase is Running,
{
}

/// The worker always has something to do and can always take up the outcome, until it
/// has ended.
pub proof fn worker_is_never_stuck(phase: Phase)
    ensures
        !(phase is Stopped) ==> exists|event: WorkerEvent| phase.accepts(event),
        phase is Stopped <==> phase.action() is Finish,
{
    assert(Phase::Resolving.accepts(WorkerEvent::DeviceFound));
    assert(Phase::Configuring.accepts(WorkerEvent::Failed));
    assert(Phase::Building.accepts(WorkerEvent::Failed));
    assert(Phase::Starting.accepts(WorkerEvent::Failed));
    assert(Phase::Running.accepts(WorkerEvent::Waited(WaitEvent::TimedOut)));
    assert(Phase::Retrying.accepts(WorkerEvent::Waited(WaitEvent::TimedOut)));
    assert(Phase::ClosingFailed.accepts(WorkerEvent::StreamClosed));
    assert(Phase::ClosingToReopen.accepts(WorkerEvent::StreamClosed));
    assert(Phase::ClosingToStop.accepts(WorkerEvent::StreamClosed));
}

/// A step of opening that fails makes the output unusable, and the same device is tried
/// again when no command comes in time.
pub proof fn failed_open_is_retried(worker: WorkerState, output: OutputState)
    requires
        worker.phase is Resolving || worker.phase is Configuring || worker.phase is Building,
    ensures
        ({
            let failed = worker.effect(WorkerEvent::Failed, output);
            let retrying = worker.next(WorkerEvent::Failed, output);
            let again = WorkerEvent::Waited(WaitEvent::TimedOut);
            &&& failed.status is Unavailable
            &&& retrying.phase is Retrying
            &&& retrying.next(again, failed) == (WorkerState { phase: Phase::Resolving, ..worker })
            &&& retrying.effect(again, failed).status is Opening
            &&& retrying.effect(again, failed).device == name_view(worker.selected)
        }),
{
}

/// A stream that does not start is closed before the output is given up and tried again.
pub proof fn stream_that_does_not_start_is_closed(worker: WorkerState, output: OutputState)
    requires
        worker.phase is Starting,
    ensures
        ({
            let closing = worker.next(WorkerEvent::Failed, output);
            &&& closing.phase.action() is CloseStream
            &&& worker.effect(WorkerEvent::Failed, output) == output
            &&& closing.next(WorkerEvent::StreamClosed, output).phase is Retrying
            &&& closing.effect(WorkerEvent::StreamClosed, output).status is Unavailable
        }),
{
}

/// A running worker that is asked for a new stream closes the one it has and opens the
/// selected device; the request is taken up once.
pub proof fn reopen_request_leads_to_a_new_stream(worker: WorkerState, output: OutputState)
    requires
        worker.phase is Running,
        output.needs_reopen,
    ensures
        ({
            let timeout = WorkerEvent::Waited(WaitEvent::TimedOut);
            let closing = worker.next(timeout, output);
            let taken_up = worker.effect(timeout, output);
            let opening = closing.effect(WorkerEvent::StreamClosed, taken_up);
            &&& closing.phase.action() is CloseStream
            &&& !taken_up.needs_reopen
            &&& closing.next(WorkerEvent::StreamClosed, taken_up) == (WorkerState {
                phase: Phase::Resolving,
                ..worker
            })
            &&& opening.status is Opening
            &&& !opening.needs_reopen
            &&& opening.device == name_view(worker.selected)
        }),
{
}

/// Told to shut down, or left alone, a waiting worker closes its stream and ends.
pub proof fn shutdown_ends_the_worker(worker: WorkerState, output: OutputState, end: WaitEvent)
    requires
        worker.phase is Running || worker.phase is Retrying,
        end == WaitEvent::Command(AudioCmd::Shutdown) || end == WaitEvent::Disconnected,
    ensures
        ({
            let told = worker.next(WorkerEvent::Waited(end), output);
            let left = worker.effect(WorkerEvent::Waited(end), output);
            &&& left == output
            &&& worker.phase is Retrying ==> told.phase is Stopped
            &&& worker.phase is Running ==> {
                &&& told.phase.action() is CloseStream
                &&& told.next(WorkerEvent::StreamClosed, left).phase is Stopped
                &&& told.effect(WorkerEvent::StreamClosed, left).status is Unavailable
            }
        }),
{
}

/// A packet that fits is metered once and queued whole: its samples follow what was in
/// the ring, its frames follow what was on the timeline, and no setting changes.
pub proof fn packet_is_metered_and_queued(
    state: OutputState,
    now: u64,
    planes: Seq<Seq<u32>>,
    sample_rate: i32,
    channels: i32,
    plan: ResamplePlan,
    samples: Seq<u32>,
)
    requires
        state.ring.len() + samples.len() <= RING_CAP_SAMPLES,
        plan.out_frames > 0,
    ensures
        ({
            let after = state.metered(planes, sample_rate, channels).enqueued(now, plan, samples);
            let marks = packet_marks(
                plan.timestamp,
                run_ticks(plan.pts_duration),
                plan.out_frames,
            );
            &&& after.ring == state.ring + limited_plane(samples)
            &&& after.timeline == state.timeline + marks
            &&& marks.len() == plan.out_frames
            &&& after.levels.peak_l == limited(peak(planes[0]))
            &&& after.levels.frames == counted(state.levels.frames)
            &&& after == (OutputState {
                ring: after.ring,
                timeline: after.timeline,
                levels: after.levels,
                playhead: after.playhead,
                queued_at: after.queued_at,
                ..state
            })
        }),
{
    let marks = packet_marks(plan.timestamp, run_ticks(plan.pts_duration), plan.out_frames);
    assert((state.timeline + marks).skip(0) =~= state.timeline + marks);
}

/// What a meter shows for a packet is the largest magnitude in the meter's own channel,
/// held at full scale: plane 0 on the left and plane 1 on the right, whatever the other
/// planes hold. Samples that are not numbers do not count, and a mono packet leaves the
/// right meter at silence. The packet is counted, and nothing but the levels changes.
pub proof fn meters_show_the_peak_of_their_own_channel(
    state: OutputState,
    planes: Seq<Seq<u32>>,
    sample_rate: i32,
    channels: i32,
    c: int,
)
    requires
        0 <= c < planes.len(),
        c < 2,
    ensures
        ({
            let after = state.metered(planes, sample_rate, channels);
            let shown = if c == 0 {
                after.levels.peak_l
            } else {
                after.levels.peak_r
            };
            &&& shown <= 0x3f80_0000
            &&& forall|i: int|
                0 <= i < planes[c].len() && (#[trigger] planes[c][i]) % 0x8000_0000 <= 0x7f80_0000
                    ==> planes[c][i] % 0x8000_0000 <= shown || shown == 0x3f80_0000
            &&& shown == 0 || exists|i: int|
                0 <= i < planes[c].len() && (#[trigger] planes[c][i]) % 0x8000_0000 <= 0x7f80_0000
                    && (planes[c][i] % 0x8000_0000 == shown || shown == 0x3f80_0000
                    && planes[c][i] % 0x8000_0000 >= 0x3f80_0000)
            &&& planes.len() == 1 ==> after.levels.peak_r == 0
            &&& state.levels.frames < u64::MAX ==> after.levels.frames == state.levels.frames + 1
            &&& state.levels.frames == u64::MAX ==> after.levels.frames == u64::MAX
            &&& after.levels.sample_rate == sample_rate
            &&& after.levels.channels == channels
            &&& after == (OutputState { levels: after.levels, ..state })
        }),
{
    peak_is_the_largest_magnitude(planes[c]);
    peak_is_a_number(planes[c]);
}

/// A discarded packet counts like any other, and the meters show silence.
pub proof fn discarded_packets_are_counted(state: OutputState, sample_rate: i32, channels: i32)
    ensures
        ({
            let after = state.silent_packet(sample_rate, channels);
            &&& after.levels.peak_l == 0
            &&& after.levels.peak_r == 0
            &&& state.levels.frames < u64::MAX ==> after.levels.frames == state.levels.frames + 1
            &&& state.levels.frames == u64::MAX ==> after.levels.frames == u64::MAX
            &&& after.levels.sample_rate == sample_rate
            &&& after.levels.channels == channels
            &&& after == (OutputState { levels: after.levels, ..state })
        }),
{
}

/// Something happened recently when no more than the given time has passed since; what
/// never happened did not happen recently.
pub proof fn recent_is_within_the_given_time(at: u64, now: u64, within: u64)
    ensures
        happened_within(Some(at), now, within) <==> now <= at + within,
        !happened_within(None, now, within),
{
}

/// Giving a stream up: nothing stays queued, the meters fall to silence, and all else but
/// the status and the request stays. With a worker the output waits to be opened again
/// and asks for it, unless it has already asked; without one it is unusable.
pub proof fn given_up_stream_is_muted_and_asked_for_again(state: OutputState)
    ensures
        ({
            let after = state.reopen_requested();
            &&& after.ring.len() == 0
            &&& after.timeline.len() == 0
            &&& after.playhead is None
            &&& after.played_at is None
            &&& after.levels.peak_l == 0
            &&& after.levels.peak_r == 0
            &&& after.levels.frames == state.levels.frames
            &&& after.levels.sample_rate == state.levels.sample_rate
            &&& after.levels.channels == state.levels.channels
            &&& !state.attached ==> after.status is Unavailable && after.queued_at is None
                && after.needs_reopen == state.needs_reopen
            &&& state.attached ==> after.needs_reopen
            &&& state.attached && !state.needs_reopen ==> after.status is Opening
                && after.queued_at is None
            &&& state.attached && state.needs_reopen ==> after.status == state.status
                && after.queued_at == state.queued_at
            &&& after == (OutputState {
                ring: after.ring,
                timeline: after.timeline,
                playhead: after.playhead,
                played_at: after.played_at,
                levels: after.levels,
                status: after.status,
                queued_at: after.queued_at,
                needs_reopen: after.needs_reopen,
                ..state
            })
        }),
{
}

/// An open stream that was given PCM is given up once its last callback is more than a
/// second and a half ago, or, if there never was one, once its first packet is more than
/// half a second ago; provided that it did not play within the last quarter of a second.
pub proof fn unpulled_stream_is_given_up(state: OutputState, now: u64)
    requires
        state.status is Ready,
        state.queued_at is Some,
        state.played_at matches Some(played) ==> played + 250_000_000 < now,
        state.called_at matches Some(called) ==> called + 1_500_000_000 < now,
        state.called_at is None ==> state.queued_at->0 + 500_000_000 < now,
    ensures
        state.supervised(now) == state.reopen_requested(),
        ({
            let after = state.supervised(now);
            &&& after.ring.len() == 0
            &&& after.timeline.len() == 0
            &&& after.playhead is None
            &&& state.attached ==> after.needs_reopen
            &&& !(state.attached && state.needs_reopen) ==> !(after.status is Ready)
        }),
{
}

/// In every other case a stream is left as it is: not open, never given PCM, played
/// lately, called back lately, or, before its first callback, given PCM lately.
pub proof fn pulled_stream_is_left_alone(state: OutputState, now: u64)
    requires
        ({
            ||| !(state.status is Ready)
            ||| state.queued_at is None
            ||| state.played_at matches Some(played) && now <= played + 250_000_000
            ||| state.called_at matches Some(called) && now <= called + 1_500_000_000
            ||| state.called_at is None && now <= state.queued_at->0 + 500_000_000
        }),
    ensures
        state.supervised(now) == state,
{
}

/// A stream that has been pulled, and perhaps played, and is then pulled no more is given
/// up a second and a half after the last callback, and opened again where there is a
/// worker.
pub proof fn stream_that_stops_pulling_is_reopened(
    state: OutputState,
    at: u64,
    len: nat,
    channels: usize,
    ring_free: bool,
    timeline_free: bool,
    now: u64,
)
    requires
        state.status is Ready,
        state.queued_at is Some,
        !state.needs_reopen,
        state.played_at matches Some(played) ==> played <= at,
        at + 1_500_000_000 < now,
    ensures
        ({
            let after = state.called(at, len, channels, ring_free, timeline_free).supervised(now);
            &&& after.ring.len() == 0
            &&& after.timeline.len() == 0
            &&& after.playhead is None
            &&& state.attached ==> after.status is Opening && after.needs_reopen
            &&& !state.attached ==> after.status is Unavailable
        }),
{
}

/// A stream that is never pulled is given up half a second after its first packet, and
/// later packets do not put that off.
pub proof fn stream_that_never_pulls_is_reopened(
    state: OutputState,
    first: u64,
    plan: ResamplePlan,
    samples: Seq<u32>,
    second: u64,
    next_plan: ResamplePlan,
    next_samples: Seq<u32>,
    now: u64,
)
    requires
        state.status is Ready,
        state.queued_at is None,
        state.called_at is None,
        state.played_at is None,
        !state.needs_reopen,
        plan.out_frames > 0,
        first + 500_000_000 < now,
    ensures
        ({
            let queued = state.enqueued(first, plan, samples).enqueued(
                second,
                next_plan,
                next_samples,
            );
            let after = queued.supervised(now);
            &&& queued.queued_at == Some(first)
            &&& after.ring.len() == 0
            &&& state.attached ==> after.status is Opening && after.needs_reopen
            &&& !state.attached ==> after.status is Unavailable
        }),
{
}

/// A device shape without channels, or without a rate, is worked with as one channel, or
/// as one frame per second; any other as it is.
pub proof fn device_shape_is_taken_as_it_is(geometry: DeviceGeometry)
    ensures
        geometry.channels >= 1 ==> geometry.frame_width() == geometry.channels,
        geometry.channels == 0 ==> geometry.frame_width() == 1,
        geometry.rate >= 1 ==> geometry.frame_rate() == geometry.rate,
        geometry.rate == 0 ==> geometry.frame_rate() == 1,
{
}

/// A packet is planned for the open device: it keeps its frames and its timestamp, comes
/// out on the device's channels, and keeps its length in time both in device frames and in
/// ticks, each to the whole one below (but for the one device frame that is left of a
/// packet shorter than that). Channels and rates below 1 count as 1.
pub proof fn plan_keeps_the_packets_length_in_time(
    state: OutputState,
    frames: u32,
    sample_rate: i32,
    timestamp: i64,
)
    requires
        frames <= i32::MAX,
    ensures
        ({
            let plan = state.plan_for(frames, sample_rate, timestamp);
            let from = if sample_rate < 1 {
                1
            } else {
                sample_rate as int
            };
            let to = if state.geometry.rate < 1 {
                1
            } else {
                state.geometry.rate as int
            };
            &&& plan.frames == frames
            &&& plan.timestamp == timestamp
            &&& state.geometry.channels >= 1 ==> plan.out_channels == state.geometry.channels
            &&& state.geometry.channels == 0 ==> plan.out_channels == 1
            &&& plan.pts_duration >= 0
            &&& plan.pts_duration * from <= frames * 10_000_000 < (plan.pts_duration + 1) * from
            &&& frames * to < (plan.out_frames + 1) * from
            &&& plan.out_frames * from <= frames * to || plan.out_frames == 1
            &&& from == to ==> plan.out_frames == frames
            &&& from != to ==> plan.out_frames >= 1
        }),
{
    device_frames_bound(frames as nat, sample_rate, state.geometry.frame_rate());
    packet_ticks_bound(frames as nat, sample_rate);
    packet_lasts_its_frames_at_its_rate(frames as nat, sample_rate);
    device_frames_keep_the_length_in_time(
        frames as nat,
        sample_rate,
        state.geometry.frame_rate(),
    );
}

/// A packet of the shortest duration counts as one tick, any other as long as it is.
pub proof fn packets_last_at_least_a_tick(pts_duration: i64)
    ensures
        pts_duration >= 1 ==> run_ticks(pts_duration) == pts_duration,
        pts_duration < 1 ==> run_ticks(pts_duration) == 1,
{
}

/// A packet's marks, one per device frame, rise from its timestamp in proportion to the
/// frames played: mark `j`, past the timestamp, is the most that fits in the duration
/// times `j + 1`, over all frames. (Where that product is too large for an `i64`, the
/// largest one stands in for it; past the largest timestamp marks wrap around.)
pub proof fn packet_marks_are_in_proportion(timestamp: i64, duration: i64, frames: u64, j: int)
    requires
        0 <= duration,
        frames <= i64::MAX,
        0 <= j < frames,
    ensures
        ({
            let marks = packet_marks(timestamp, duration as int, frames);
            let held = if duration * (j + 1) > 0x7fff_ffff_ffff_ffff {
                0x7fff_ffff_ffff_ffff
            } else {
                duration * (j + 1)
            };
            let past = if marks[j] < timestamp {
                marks[j] - timestamp + 0x1_0000_0000_0000_0000
            } else {
                marks[j] - timestamp
            };
            &&& marks.len() == frames
            &&& past * frames <= held < (past + 1) * frames
            &&& timestamp + duration <= i64::MAX ==> timestamp <= marks[j] <= timestamp + duration
        }),
{
    let run = PtsRun {
        pts_start: timestamp,
        pts_duration: duration,
        frames_total: frames,
        frames_consumed: 0,
    };
    marks_are_in_proportion(run, j);
    mark_is_within_run(run, j + 1);
}

/// A packet's samples, held at full scale, go to the end of the ring, and what does not
/// fit in 192000 samples goes at its front: counted from the end, sample `back` is the
/// packet's or, before it, that of the ring.
pub proof fn packets_are_queued_at_the_end(
    state: OutputState,
    now: u64,
    plan: ResamplePlan,
    samples: Seq<u32>,
    back: int,
)
    requires
        1 <= back <= state.enqueued(now, plan, samples).ring.len(),
    ensures
        ({
            let ring = state.enqueued(now, plan, samples).ring;
            let all = state.ring.len() + samples.len();
            &&& all <= 192_000 ==> ring.len() == all
            &&& all > 192_000 ==> ring.len() == 192_000
            &&& back <= samples.len() ==> ring[ring.len() - back] == limited(
                samples[samples.len() - back],
            )
            &&& back > samples.len() ==> ring[ring.len() - back] == state.ring[all - back]
        }),
{
}

/// A packet's marks go to the end of the timeline, and a mark goes at its front for every
/// frame that the ring dropped: counted from the end, mark `back` is the packet's or,
/// before it, that of the timeline.
pub proof fn marks_are_queued_at_the_end(
    state: OutputState,
    now: u64,
    plan: ResamplePlan,
    samples: Seq<u32>,
    back: int,
)
    requires
        state.ring.len() <= 192_000,
        plan.wf(),
    ensures
        ({
            let after = state.enqueued(now, plan, samples).timeline;
            let marks = packet_marks(
                plan.timestamp,
                run_ticks(plan.pts_duration),
                plan.out_frames,
            );
            let all = state.timeline.len() + marks.len();
            let dropped = dropped_frames(
                state.ring.len(),
                samples.len(),
                plan.out_channels as int,
            );
            &&& marks.len() == plan.out_frames
            &&& 0 <= dropped
            &&& dropped <= all ==> after.len() == all - dropped
            &&& dropped > all ==> after.len() == 0
            &&& 1 <= back <= after.len() && back <= marks.len() ==> after[after.len() - back]
                == marks[marks.len() - back]
            &&& marks.len() < back <= after.len() ==> after[after.len() - back]
                == state.timeline[all - back]
        }),
{
    let w = plan.out_channels as int;
    let count = samples.len();
    lemma_div_is_ordered(room_for(state.ring.len(), count) + w - 1, count + w - 1, w);
}

/// While everything fits, a packet leaves the playhead alone, unless there is none: then
/// it starts at the packet's timestamp. The first packet with frames after the stream
/// opened sets the time from which the grace time runs; no setting changes.
pub proof fn fitting_packet_starts_the_clocks(
    state: OutputState,
    now: u64,
    plan: ResamplePlan,
    samples: Seq<u32>,
)
    requires
        state.ring.len() + samples.len() <= 192_000,
    ensures
        ({
            let after = state.enqueued(now, plan, samples);
            &&& state.playhead is Some ==> after.playhead == state.playhead
            &&& state.playhead is None && plan.out_frames > 0 ==> after.playhead == Some(
                plan.timestamp,
            )
            &&& state.playhead is None && plan.out_frames == 0 ==> after.playhead is None
            &&& state.queued_at is Some ==> after.queued_at == state.queued_at
            &&& state.queued_at is None && plan.out_frames > 0 ==> after.queued_at == Some(now)
            &&& state.queued_at is None && plan.out_frames == 0 ==> after.queued_at is None
        }),
{
}

/// When frames are dropped, the playhead stands at the last mark that went, be it of an
/// earlier packet or of the new one; otherwise it starts at the packet's timestamp, unless
/// there is one. And whatever happens, a packet changes only the two
/// queues, the playhead and the time of the first packet.
pub proof fn dropped_frames_move_the_playhead(
    state: OutputState,
    now: u64,
    plan: ResamplePlan,
    samples: Seq<u32>,
)
    requires
        plan.wf(),
    ensures
        ({
            let after = state.enqueued(now, plan, samples);
            let dropped = dropped_frames(
                state.ring.len(),
                samples.len(),
                plan.out_channels as int,
            );
            let marks = packet_marks(
                plan.timestamp,
                run_ticks(plan.pts_duration),
                plan.out_frames,
            );
            let held = state.timeline.len();
            &&& 0 < dropped <= held ==> after.playhead == Some(state.timeline[dropped - 1])
            &&& held < dropped <= held + marks.len() ==> after.playhead == Some(
                marks[dropped - held - 1],
            )
            &&& 0 < held + marks.len() < dropped && marks.len() > 0 ==> after.playhead == Some(
                marks[marks.len() - 1],
            )
            &&& 0 < held < dropped && marks.len() == 0 ==> after.playhead == Some(
                state.timeline[held - 1],
            )
            &&& dropped == 0 && (state.playhead is Some || plan.out_frames == 0) ==> after.playhead
                == state.playhead
            &&& dropped == 0 && state.playhead is None && plan.out_frames > 0 ==> after.playhead
                == Some(plan.timestamp)
            &&& held + marks.len() == 0 ==> after.playhead == state.playhead
            &&& state.queued_at is None && plan.out_frames > 0 ==> after.queued_at == Some(now)
            &&& state.queued_at is Some || plan.out_frames == 0 ==> after.queued_at
                == state.queued_at
            &&& after == (OutputState {
                ring: after.ring,
                timeline: after.timeline,
                playhead: after.playhead,
                queued_at: after.queued_at,
                ..state
            })
        }),
{
}

/// A callback takes the oldest samples, as many as it asks for and there are, and with
/// them a mark for each of the `frames` whole frames they make; the playhead then stands at
/// the last of these marks. It has played when it took a whole frame. While the timeline
/// is in use elsewhere, marks and playhead stay; while the ring is, everything stays. That
/// it came is noted in any case.
pub proof fn callback_takes_the_oldest_frames(
    state: OutputState,
    now: u64,
    len: nat,
    channels: usize,
    timeline_free: bool,
    got: nat,
    frames: nat,
)
    requires
        got == len && len <= state.ring.len() || got == state.ring.len() && state.ring.len() <= len,
        channels >= 1 ==> frames * channels <= got < (frames + 1) * channels,
        channels == 0 ==> frames == got,
    ensures
        ({
            let after = state.called(now, len, channels, true, timeline_free);
            let queued = state.timeline.len();
            &&& after.ring == state.ring.subrange(got as int, state.ring.len() as int)
            &&& after.called_at == Some(now)
            &&& frames > 0 ==> after.played_at == Some(now)
            &&& frames == 0 ==> after.played_at == state.played_at
            &&& timeline_free && frames <= queued ==> after.timeline == state.timeline.subrange(
                frames as int,
                queued as int,
            )
            &&& timeline_free && frames > queued ==> after.timeline.len() == 0
            &&& timeline_free && 0 < frames <= queued ==> after.playhead == Some(
                state.timeline[frames - 1],
            )
            &&& timeline_free && 0 < queued < frames ==> after.playhead == Some(
                state.timeline[queued - 1],
            )
            &&& !timeline_free || frames == 0 || queued == 0 ==> after.playhead == state.playhead
            &&& !timeline_free ==> after.timeline == state.timeline
            &&& after == (OutputState {
                ring: after.ring,
                timeline: after.timeline,
                playhead: after.playhead,
                called_at: after.called_at,
                played_at: after.played_at,
                ..state
            })
            &&& state.called(now, len, channels, false, timeline_free) == (OutputState {
                called_at: Some(now),
                ..state
            })
        }),
{
    let after = state.called(now, len, channels, true, timeline_free);
    assert(taken(state.ring, len) == got);
    if channels >= 1 {
        let w = channels as int;
        assert((frames + 1) * w == frames * w + w) by (nonlinear_arith);
        lemma_fundamental_div_mod_converse(got as int, w, frames as int, got - frames * w);
    }
    assert(frames_played(state.ring, len, channels) == frames);
    assert(after.ring =~= state.ring.subrange(got as int, state.ring.len() as int));
    if timeline_free && frames <= state.timeline.len() {
        assert(after.timeline =~= state.timeline.subrange(
            frames as int,
            state.timeline.len() as int,
        ));
    }
}

/// A packet that is pushed into an empty output and played out moves the playhead on from
/// its timestamp by its own duration: its frames at its own rate, in whole ticks, whatever
/// the rate of the device.
pub proof fn played_packet_moves_the_playhead_by_its_duration(
    state: OutputState,
    now: u64,
    planes: Seq<Seq<u32>>,
    frames: u32,
    sample_rate: i32,
    channels: i32,
    timestamp: i64,
    samples: Seq<u32>,
    at: u64,
    len: nat,
)
    requires
        state.ring.len() == 0,
        state.timeline.len() == 0,
        0 < frames <= i32::MAX,
        1 <= sample_rate <= frames * 10_000_000,
        ({
            let plan = state.plan_for(frames, sample_rate, timestamp);
            &&& samples.len() == plan.out_frames * plan.out_channels
            &&& plan.pts_duration * plan.out_frames <= i64::MAX
            &&& timestamp + plan.pts_duration <= i64::MAX
        }),
        samples.len() <= len,
        samples.len() <= 192_000,
    ensures
        ({
            let plan = state.plan_for(frames, sample_rate, timestamp);
            let after = state.metered(planes, sample_rate, channels).enqueued(
                now,
                plan,
                samples,
            ).called(at, len, plan.out_channels, true, true);
            &&& after.ring.len() == 0
            &&& after.timeline.len() == 0
            &&& after.playhead matches Some(pts) && (pts - timestamp) * sample_rate <= frames
                * 10_000_000 < (pts - timestamp + 1) * sample_rate
        }),
{
    let plan = state.plan_for(frames, sample_rate, timestamp);
    let queued = state.metered(planes, sample_rate, channels).enqueued(now, plan, samples);
    let width = plan.out_channels as int;
    device_frames_bound(frames as nat, sample_rate, state.geometry.frame_rate());
    device_frames_keep_the_length_in_time(
        frames as nat,
        sample_rate,
        state.geometry.frame_rate(),
    );
    packet_ticks_bound(frames as nat, sample_rate);
    packet_lasts_its_frames_at_its_rate(frames as nat, sample_rate);
    let ticks = plan.pts_duration as int;
    assert(ticks >= 1) by (nonlinear_arith)
        requires
            1 <= sample_rate,
            sample_rate <= frames * 10_000_000 < (ticks + 1) * sample_rate,
    ;
    packet_marks_end_at_the_packets_end(plan);
    let marks = packet_marks(timestamp, run_ticks(plan.pts_duration), plan.out_frames);
    assert(queued.timeline =~= marks);
    assert(queued.ring.len() == samples.len());
    playing_everything_ends_at_the_newest_mark(queued, at, len, plan.out_channels);
}

/// A new output has nothing queued, nothing metered and nothing selected, plays at full
/// volume without boost, takes the device for 48 kHz stereo, and is being opened, or
/// unusable where nobody can open it.
pub proof fn new_output_is_idle(attached: bool)
    ensures
        ({
            let state = OutputState::initial(attached);
            &&& state.ring.len() == 0
            &&& state.timeline.len() == 0
            &&& state.levels.peak_l == 0
            &&& state.levels.peak_r == 0
            &&& state.levels.frames == 0
            &&& state.levels.sample_rate == 0
            &&& state.levels.channels == 0
            &&& state.boost_db == 0
            &&& state.volume_pct == 100
            &&& state.geometry.channels == 2
            &&& state.geometry.rate == 48_000
            &&& state.device is None
            &&& state.playhead is None
            &&& state.played_at is None
            &&& state.called_at is None
            &&& state.queued_at is None
            &&& !state.needs_reopen
            &&& state.attached == attached
            &&& attached ==> state.status is Opening
            &&& !attached ==> state.status is Unavailable
        }),
{
}

/// A volume between 0 and 100 is taken as it is; beyond, the nearest of them is.
pub proof fn volume_is_held_to_a_percentage(pct: i32)
    ensures
        0 <= pct <= 100 ==> percentage(pct) == pct,
        pct < 0 ==> percentage(pct) == 0,
        pct > 100 ==> percentage(pct) == 100,
{
}

/// A device name stands for its characters, and no name for the system default.
pub proof fn device_names_are_their_characters(name: String)
    ensures
        name_view(Some(name)) == Some(name@),
        name_view(None) is None,
{
}

/// A status is taken as it is and ends the memory of the first packet; all else stays.
pub proof fn status_change_keeps_all_else(state: OutputState, status: AudioOutputStatus)
    ensures
        state.with_status(status).status == status,
        state.with_status(status).queued_at is None,
        state.with_status(status) == (OutputState {
            status: state.with_status(status).status,
            queued_at: state.with_status(status).queued_at,
            ..state
        }),
{
}

/// Without its playhead an output has no media clock and no memory of playing; all else
/// stays, what is queued included.
pub proof fn dropping_the_playhead_keeps_all_else(state: OutputState)
    ensures
        ({
            let after = state.without_playhead();
            &&& after.playhead is None
            &&& after.played_at is None
            &&& after == (OutputState { playhead: None, played_at: None, ..state })
        }),
{
}

/// Clearing forgets what is queued, metered and playing, and nothing else.
pub proof fn clearing_keeps_all_else(state: OutputState)
    ensures
        ({
            let after = state.cleared();
            &&& after.ring.len() == 0
            &&& after.timeline.len() == 0
            &&& after.playhead is None
            &&& after.played_at is None
            &&& after.levels.peak_l == 0
            &&& after.levels.peak_r == 0
            &&& after.levels.frames == 0
            &&& after.levels.sample_rate == 0
            &&& after.levels.channels == 0
            &&& after == (OutputState {
                ring: after.ring,
                timeline: after.timeline,
                levels: after.levels,
                playhead: after.playhead,
                played_at: after.played_at,
                ..state
            })
        }),
{
}

/// Selecting a device, the same one or another, clears the output. With a worker it is
/// being opened, by the command and not by an earlier request; without one it is unusable.
/// Settings stay.
pub proof fn selecting_a_device_starts_over(state: OutputState, name: Option<Seq<char>>)
    ensures
        ({
            let after = state.device_set(name);
            &&& after.device == name
            &&& after.ring.len() == 0
            &&& after.timeline.len() == 0
            &&& after.playhead is None
            &&& after.played_at is None
            &&& after.queued_at is None
            &&& after.levels.peak_l == 0
            &&& after.levels.peak_r == 0
            &&& after.levels.frames == 0
            &&& after.levels.sample_rate == 0
            &&& after.levels.channels == 0
            &&& state.attached ==> after.status is Opening && !after.needs_reopen
            &&& !state.attached ==> after.status is Unavailable && after.needs_reopen
                == state.needs_reopen
            &&& after == (OutputState {
                ring: after.ring,
                timeline: after.timeline,
                levels: after.levels,
                device: after.device,
                playhead: after.playhead,
                played_at: after.played_at,
                status: after.status,
                queued_at: after.queued_at,
                needs_reopen: after.needs_reopen,
                ..state
            })
        }),
{
}

/// A stream that is about to be built starts with empty queues, no playhead and no
/// callback, on a device of the shape that was read; levels, settings and status stay.
pub proof fn new_stream_starts_empty(state: OutputState, channels: u16, rate: u32)
    ensures
        ({
            let after = state.configured(channels, rate);
            &&& after.geometry.channels == channels
            &&& after.geometry.rate == rate
            &&& after.ring.len() == 0
            &&& after.timeline.len() == 0
            &&& after.playhead is None
            &&& after.played_at is None
            &&& after.called_at is None
            &&& after == (OutputState {
                ring: after.ring,
                timeline: after.timeline,
                geometry: after.geometry,
                playhead: after.playhead,
                played_at: after.played_at,
                called_at: after.called_at,
                ..state
            })
        }),
{
}

/// Opening answers a request to reopen, and a stream that fails makes one; both leave the
/// output being opened, with a new grace time, and all else as it is.
pub proof fn opening_answers_what_a_failed_stream_asks(state: OutputState)
    ensures
        ({
            let opening = state.opening();
            let failed = state.stream_failed();
            &&& opening.status is Opening
            &&& opening.queued_at is None
            &&& !opening.needs_reopen
            &&& failed.status is Opening
            &&& failed.queued_at is None
            &&& failed.needs_reopen
            &&& opening == (OutputState {
                status: opening.status,
                queued_at: None,
                needs_reopen: false,
                ..state
            })
            &&& failed == (OutputState {
                status: failed.status,
                queued_at: None,
                needs_reopen: true,
                ..state
            })
        }),
{
}

/// A packet that lacks frames or bytes is ignored. Any other is played while the stream is
/// open and pulled, with the settings of that moment; otherwise it is discarded and counted.
pub proof fn packets_are_played_while_the_stream_is_pulled(
    state: OutputState,
    now: u64,
    len: nat,
    channels: i32,
    samples: i32,
    sample_rate: i32,
    timestamp: i64,
)
    ensures
        ({
            let admission = state.admission(
                now,
                len,
                channels,
                samples,
                sample_rate,
                timestamp,
            );
            let after = state.asked(now, len, channels, samples, sample_rate);
            let complete = samples >= 1 && if channels >= 1 {
                4 * (channels * samples) <= len
            } else {
                4 * samples <= len
            };
            let pulled = {
                ||| state.queued_at is None
                ||| state.played_at matches Some(played) && now <= played + 250_000_000
                ||| state.called_at matches Some(called) && now <= called + 1_500_000_000
                ||| state.called_at is None && now <= state.queued_at->0 + 500_000_000
            };
            &&& !complete <==> admission is Rejected
            &&& !complete ==> after == state
            &&& complete && !(state.status is Ready) ==> {
                &&& admission is Discarded
                &&& after == (OutputState { levels: after.levels, ..state })
                &&& after.levels.peak_l == 0
                &&& after.levels.peak_r == 0
                &&& state.levels.frames < u64::MAX ==> after.levels.frames == state.levels.frames
                    + 1
                &&& after.levels.sample_rate == sample_rate
                &&& after.levels.channels == channels
            }
            &&& complete && state.status is Ready && pulled ==> {
                &&& admission matches Admission::Admitted(header) && {
                    &&& header.channels == channels
                    &&& header.samples == samples
                    &&& header.sample_rate == sample_rate
                    &&& header.timestamp == timestamp
                    &&& header.boost_db == state.boost_db
                    &&& header.volume_pct == state.volume_pct
                }
                &&& after == state
            }
            &&& complete && state.status is Ready && !pulled && !(state.attached
                && state.needs_reopen) ==> {
                &&& admission is Discarded
                &&& after.ring.len() == 0
                &&& after.timeline.len() == 0
                &&& after.playhead is None
                &&& after.levels.peak_l == 0
                &&& after.levels.peak_r == 0
                &&& state.levels.frames < u64::MAX ==> after.levels.frames == state.levels.frames
                    + 1
                &&& after.needs_reopen == (state.attached || state.needs_reopen)
                &&& !(after.status is Ready)
            }
        }),
{
    packets_need_all_their_bytes(len, channels, samples);
}

/// A boost or a volume is set for the packets to come: what is queued, metered and playing
/// stays as it is.
pub proof fn settings_change_nothing_that_is_queued(state: OutputState, db: i32, pct: i32)
    ensures
        state.boost_set(db).boost_db == db,
        state.boost_set(db) == (OutputState { boost_db: state.boost_set(db).boost_db, ..state }),
        0 <= pct <= 100 ==> state.volume_set(pct).volume_pct == pct,
        pct < 0 ==> state.volume_set(pct).volume_pct == 0,
        pct > 100 ==> state.volume_set(pct).volume_pct == 100,
        state.volume_set(pct) == (OutputState {
            volume_pct: state.volume_set(pct).volume_pct,
            ..state
        }),
{
}

/// A device hears what is queued, the oldest sample first, and then silence; while the ring
/// is in use elsewhere it hears nothing but silence.
pub proof fn device_hears_the_queue_then_silence(
    state: OutputState,
    len: nat,
    ring_free: bool,
    i: int,
)
    requires
        0 <= i < len,
    ensures
        state.heard(len, ring_free).len() == len,
        ring_free && i < state.ring.len() ==> state.heard(len, ring_free)[i] == state.ring[i],
        !ring_free || state.ring.len() <= i ==> state.heard(len, ring_free)[i] == 0,
{
}

/// An output that goes away has no worker any more; nothing else about it changes.
pub proof fn going_away_only_lets_the_worker_go(state: OutputState)
    ensures
        !state.detached().attached,
        state.detached() == (OutputState { attached: state.detached().attached, ..state }),
{
}

/// What is buffered is the whole frames in the ring, a thousand for each, which over the
/// device's rate gives milliseconds.
pub proof fn buffered_time_counts_whole_frames(state: OutputState, frames: int)
    requires
        state.geometry.channels >= 1 ==> frames * state.geometry.channels <= state.ring.len() < (
        frames + 1) * state.geometry.channels,
        state.geometry.channels == 0 ==> frames == state.ring.len(),
    ensures
        state.buffered_numer() == frames * 1000,
{
    let held = state.ring.len() as int;
    if state.geometry.channels >= 1 {
        let width = state.geometry.channels as int;
        assert((frames + 1) * width == frames * width + width) by (nonlinear_arith);
        lemma_fundamental_div_mod_converse(held, width, frames, held - frames * width);
    } else {
        lemma_fundamental_div_mod_converse(held, 1, frames, 0);
    }
}

/// A packet's device samples are mixed from its amplified samples, held at full scale: each
/// from its own channel, or from the only one, between source frame `k`, the last that does
/// not lie after it, and the next.
pub proof fn packet_is_mixed_from_samples_at_full_scale(
    plan: ResamplePlan,
    planes: Seq<Seq<u32>>,
    i: int,
    c: int,
    k: int,
)
    requires
        0 < planes.len(),
        0 < plan.frames,
        forall|p: int| 0 <= p < planes.len() ==> (#[trigger] planes[p]).len() >= plan.frames,
        0 <= i < plan.out_frames <= usize::MAX,
        0 <= c < plan.out_channels,
        c < planes.len() || planes.len() == 1,
        k * plan.out_frames <= i * plan.frames < (k + 1) * plan.out_frames,
    ensures
        ({
            let source = if planes.len() == 1 {
                planes[0]
            } else {
                planes[c]
            };
            0 <= k < plan.frames && plan.laid_out(planes)[i * plan.out_channels + c]
                == (Blend::Mix {
                from: limited(source[k]),
                to: if k + 1 < plan.frames {
                    limited(source[k + 1])
                } else {
                    limited(source[k])
                },
                offset: (i * plan.frames - k * plan.out_frames) as usize,
            })
        }),
{
    output_is_spread_evenly_over_every_channel(
        limited_planes(planes),
        plan.frames as nat,
        plan.out_channels as nat,
        plan.out_frames as nat,
        i,
        c,
        k,
    );
}

} // verus!
