//! The presentation timeline that runs alongside the sample ring.
//!
//! Every device frame waiting in the ring has a *mark*: the presentation
//! timestamp (PTS, in 100 ns ticks) that the playhead shows once that frame has
//! been played. The timeline is the sequence of those marks, oldest first. It is
//! stored compactly, one [`PtsRun`] per packet.

use crate::pcm::quotient_is_the_most_that_fits;
use std::collections::VecDeque;
use vstd::prelude::*;

verus! {

/// One queued packet on the stream timeline, counted in device frames.
#[derive(Clone, Copy, Debug, PartialEq, Eq)]
pub struct PtsRun {
    /// PTS of the first device frame in this run.
    pub pts_start: i64,
    /// Stream duration of this run in 100 ns ticks.
    pub pts_duration: i64,
    /// Device frames in this run.
    pub frames_total: u64,
    /// Device frames already consumed from this run.
    pub frames_consumed: u64,
}

/// `x * y` held at `i64::MAX`, for factors that are not negative.
pub open spec fn saturating_product(x: int, y: int) -> int {
    if x * y <= i64::MAX {
        x * y
    } else {
        i64::MAX as int
    }
}

/// A timestamp as an `i64`; past the largest one it wraps around.
pub open spec fn wrapped(pts: int) -> i64 {
    if pts <= i64::MAX {
        pts as i64
    } else {
        (pts - 0x1_0000_0000_0000_0000) as i64
    }
}

impl PtsRun {
    /// The run does not go back in time, and its frames can be counted.
    pub open spec fn wf(self) -> bool {
        &&& 0 <= self.pts_duration
        &&& self.frames_total <= i64::MAX
    }

    /// Every timestamp of the run is an `i64`.
    pub open spec fn in_range(self) -> bool {
        self.pts_start + self.pts_duration <= i64::MAX
    }

    /// Frames of the run that are still queued.
    pub open spec fn left(self) -> nat {
        if self.frames_consumed < self.frames_total {
            (self.frames_total - self.frames_consumed) as nat
        } else {
            0
        }
    }

    /// The playhead once `played` frames of the run have been played.
    pub open spec fn mark(self, played: int) -> int {
        self.pts_start + saturating_product(self.pts_duration as int, played)
            / self.frames_total as int
    }

    /// The marks of the frames that are still queued.
    pub open spec fn marks(self) -> Seq<i64> {
        Seq::new(self.left(), |j: int| wrapped(self.mark(self.frames_consumed + j + 1)))
    }
}

/// Every run of a queue is well-formed.
pub open spec fn runs_wf(runs: Seq<PtsRun>) -> bool {
    forall|i: int| 0 <= i < runs.len() ==> (#[trigger] runs[i]).wf()
}

/// The timeline that a queue of runs stands for.
pub open spec fn timeline_of(runs: Seq<PtsRun>) -> Seq<i64>
    decreases runs.len(),
{
    if runs.len() == 0 {
        Seq::empty()
    } else {
        runs.first().marks() + timeline_of(runs.drop_first())
    }
}

/// The queue after `frames` frames have been played (or dropped): runs leave at the
/// front as they are used up, the first one left is part consumed, and the runs behind
/// it stay as they are.
pub open spec fn runs_after(runs: Seq<PtsRun>, frames: nat) -> Seq<PtsRun>
    decreases runs.len(),
{
    if frames == 0 || runs.len() == 0 {
        runs
    } else if runs[0].left() <= frames {
        runs_after(runs.drop_first(), (frames - runs[0].left()) as nat)
    } else {
        runs.update(
            0,
            PtsRun { frames_consumed: (runs[0].frames_consumed + frames) as u64, ..runs[0] },
        )
    }
}

/// Every run has frames left.
pub open spec fn runs_unspent(runs: Seq<PtsRun>) -> bool {
    forall|i: int| 0 <= i < runs.len() ==> (#[trigger] runs[i]).left() > 0
}

/// How many of `frames` frames a timeline can give.
pub open spec fn playable(timeline: Seq<i64>, frames: nat) -> nat {
    if frames <= timeline.len() {
        frames
    } else {
        timeline.len()
    }
}

/// The timeline after `frames` frames have been played (or dropped).
pub open spec fn timeline_after(timeline: Seq<i64>, frames: nat) -> Seq<i64> {
    timeline.skip(playable(timeline, frames) as int)
}

/// The playhead after `frames` frames have been played (or dropped): the mark of
/// the last of them, or what it was when there were none.
pub open spec fn playhead_after(
    timeline: Seq<i64>,
    frames: nat,
    playhead: Option<i64>,
) -> Option<i64> {
    let played = playable(timeline, frames);
    if played == 0 {
        playhead
    } else {
        Some(timeline[played - 1])
    }
}

/// A run's playhead stays between its first timestamp and its end.
pub proof fn mark_is_within_run(run: PtsRun, played: int)
    requires
        run.wf(),
        0 <= played <= run.frames_total,
        0 < run.frames_total,
    ensures
        run.pts_start <= run.mark(played) <= run.pts_start + run.pts_duration,
{
    let d = run.pts_duration as int;
    let t = run.frames_total as int;
    let p = saturating_product(d, played);
    assert(0 <= d * played <= d * t) by (nonlinear_arith)
        requires
            0 <= d,
            0 <= played <= t,
    ;
    assert(0 <= p / t <= d) by (nonlinear_arith)
        requires
            0 <= p <= d * t,
            0 < t,
    ;
}

/// Playing `a` frames and then `b` more leaves the same runs as playing `a + b` frames.
pub proof fn consuming_adds_up(runs: Seq<PtsRun>, a: nat, b: nat)
    ensures
        runs_after(runs_after(runs, a), b) == runs_after(runs, a + b),
    decreases runs.len(),
{
    if a == 0 || runs.len() == 0 {
    } else if runs[0].left() <= a {
        consuming_adds_up(runs.drop_first(), (a - runs[0].left()) as nat, b);
    } else if b > 0 {
        let part = runs_after(runs, a);
        assert(part.drop_first() =~= runs.drop_first());
        assert(part[0].left() == runs[0].left() - a);
        if runs[0].left() > a + b {
            assert(runs_after(part, b) =~= runs_after(runs, a + b));
        }
    }
}

/// Consuming keeps runs without frames out of the queue.
pub proof fn consuming_leaves_no_spent_runs(runs: Seq<PtsRun>, frames: nat)
    requires
        runs_unspent(runs),
    ensures
        runs_unspent(runs_after(runs, frames)),
    decreases runs.len(),
{
    if frames == 0 || runs.len() == 0 {
    } else if runs[0].left() <= frames {
        let rest = runs.drop_first();
        assert forall|i: int| 0 <= i < rest.len() implies (#[trigger] rest[i]).left() > 0 by {
            assert(rest[i] == runs[i + 1]);
        }
        consuming_leaves_no_spent_runs(rest, (frames - runs[0].left()) as nat);
    } else {
        let after = runs_after(runs, frames);
        assert forall|i: int| 0 <= i < after.len() implies (#[trigger] after[i]).left() > 0 by {
            if i > 0 {
                assert(after[i] == runs[i]);
            }
        }
    }
}

/// A queue without spent runs is no longer than the timeline it stands for.
pub proof fn runs_are_bounded_by_their_frames(runs: Seq<PtsRun>)
    requires
        runs_unspent(runs),
    ensures
        runs.len() <= timeline_of(runs).len(),
    decreases runs.len(),
{
    if runs.len() > 0 {
        let rest = runs.drop_first();
        assert forall|i: int| 0 <= i < rest.len() implies (#[trigger] rest[i]).left() > 0 by {
            assert(rest[i] == runs[i + 1]);
        }
        runs_are_bounded_by_their_frames(rest);
        assert(runs[0].left() > 0);
    }
}

/// Playing `a` frames and then `b` more is playing `a + b` frames.
pub proof fn playing_adds_up(timeline: Seq<i64>, a: nat, b: nat, playhead: Option<i64>)
    ensures
        timeline_after(timeline_after(timeline, a), b) == timeline_after(timeline, a + b),
        playhead_after(
            timeline_after(timeline, a),
            b,
            playhead_after(timeline, a, playhead),
        ) == playhead_after(timeline, a + b, playhead),
{
    assert(timeline_after(timeline_after(timeline, a), b) =~= timeline_after(timeline, a + b));
}

/// The playhead does not move back within a run.
pub proof fn playhead_advances_within_run(run: PtsRun, earlier: int, later: int)
    requires
        run.wf(),
        0 <= earlier <= later <= run.frames_total,
        0 < run.frames_total,
    ensures
        run.mark(earlier) <= run.mark(later),
{
    let d = run.pts_duration as int;
    let t = run.frames_total as int;
    let p = saturating_product(d, earlier);
    let q = saturating_product(d, later);
    assert(0 <= d * earlier <= d * later) by (nonlinear_arith)
        requires
            0 <= d,
            0 <= earlier <= later,
    ;
    assert(p / t <= q / t) by (nonlinear_arith)
        requires
            0 <= p <= q,
            0 < t,
    ;
}

/// A run that has been played out leaves the playhead exactly at its end, as long as
/// duration times frames is an `i64`.
pub proof fn played_run_ends_on_time(run: PtsRun)
    requires
        run.wf(),
        0 < run.frames_total,
        run.pts_duration * run.frames_total <= i64::MAX,
    ensures
        run.mark(run.frames_total as int) == run.pts_start + run.pts_duration,
{
    let d = run.pts_duration as int;
    let t = run.frames_total as int;
    assert((d * t) / t == d) by (nonlinear_arith)
        requires
            0 < t,
    ;
}

/// A run that has not been played out leaves the playhead before its end.
pub proof fn unfinished_run_is_before_its_end(run: PtsRun, played: int)
    requires
        run.wf(),
        0 < run.pts_duration,
        0 <= played < run.frames_total,
    ensures
        run.mark(played) < run.pts_start + run.pts_duration,
{
    let d = run.pts_duration as int;
    let t = run.frames_total as int;
    let p = saturating_product(d, played);
    assert(0 <= d * played < d * t) by (nonlinear_arith)
        requires
            0 < d,
            0 <= played < t,
    ;
    assert(p / t < d) by (nonlinear_arith)
        requires
            0 <= p < d * t,
            0 < t,
    ;
}

/// Playing within the front run puts the playhead in proportion between the run's start
/// and its end; the run leaves the queue exactly when it is used up.
pub proof fn playing_within_the_front_run(
    runs: Seq<PtsRun>,
    frames: nat,
    playhead: Option<i64>,
)
    requires
        runs.len() > 0,
        runs[0].wf(),
        0 < frames <= runs[0].left(),
    ensures
        ({
            let pts = runs[0].mark(runs[0].frames_consumed + frames);
            &&& playhead_after(timeline_of(runs), frames, playhead) == Some(wrapped(pts))
            &&& runs[0].pts_start <= pts <= runs[0].pts_start + runs[0].pts_duration
            &&& runs[0].in_range() ==> wrapped(pts) == pts
            &&& frames == runs[0].left() ==> runs_after(runs, frames) == runs.drop_first()
            &&& frames < runs[0].left() ==> runs_after(runs, frames) == runs.update(
                0,
                PtsRun { frames_consumed: (runs[0].frames_consumed + frames) as u64, ..runs[0] },
            )
        }),
{
    reveal_with_fuel(runs_after, 2);
    mark_is_within_run(runs[0], runs[0].frames_consumed + frames);
    let timeline = timeline_of(runs);
    assert(timeline == runs[0].marks() + timeline_of(runs.drop_first()));
    assert(timeline[frames - 1] == runs[0].marks()[frames - 1]);
}

/// Appending a run appends its marks.
pub proof fn timeline_of_push(runs: Seq<PtsRun>, run: PtsRun)
    ensures
        timeline_of(runs.push(run)) == timeline_of(runs) + run.marks(),
    decreases runs.len(),
{
    reveal_with_fuel(timeline_of, 2);
    if runs.len() == 0 {
        assert(runs.push(run).drop_first() =~= Seq::<PtsRun>::empty());
        assert(timeline_of(runs.push(run)) =~= timeline_of(runs) + run.marks());
    } else {
        assert(runs.push(run).drop_first() =~= runs.drop_first().push(run));
        timeline_of_push(runs.drop_first(), run);
        assert(timeline_of(runs.push(run)) =~= timeline_of(runs) + run.marks());
    }
}

/// Advance the timeline by `frames` played frames and move the playhead with it.
///
/// When fewer frames are queued, all of them are consumed.
pub fn consume_pts_frames(
    runs: &mut VecDeque<PtsRun>,
    frames: u64,
    playhead: &mut Option<i64>,
)
    requires
        runs_wf(old(runs)@),
    ensures
        runs_wf(final(runs)@),
        final(runs)@ == runs_after(old(runs)@, frames as nat),
        timeline_of(final(runs)@) == timeline_after(timeline_of(old(runs)@), frames as nat),
        *final(playhead) == playhead_after(
            timeline_of(old(runs)@),
            frames as nat,
            *old(playhead),
        ),
{
    let ghost all: Seq<PtsRun> = runs@;
    let ghost timeline: Seq<i64> = timeline_of(runs@);
    let ghost head: Option<i64> = *playhead;
    let mut remaining: u64 = frames;
    assert(timeline.skip(0) =~= timeline);
    while remaining > 0
        invariant_except_break
            remaining <= frames,
            frames - remaining <= timeline.len(),
            timeline_of(runs@) == timeline.skip(frames - remaining),
        invariant
            runs_wf(runs@),
            runs_after(runs@, remaining as nat) == runs_after(all, frames as nat),
            *playhead == playhead_after(timeline, (frames - remaining) as nat, head),
        ensures
            runs@ == runs_after(all, frames as nat),
            timeline_of(runs@) == timeline_after(timeline, frames as nat),
            *playhead == playhead_after(timeline, frames as nat, head),
        decreases remaining, runs@.len(),
    {
        let ghost before: Seq<PtsRun> = runs@;
        match runs.pop_front() {
            None => {
                assert(timeline.skip(frames - remaining).len() == 0);
                break;
            },
            Some(front) => {
                let mut run: PtsRun = front;
                assert(before[0].wf());
                assert(runs@ =~= before.drop_first());
                assert forall|i: int| 0 <= i < runs@.len() implies (
                #[trigger] runs@[i]).wf() by {
                    assert(runs@[i] == before[i + 1]);
                }
                if run.frames_consumed >= run.frames_total {
                    assert(run.marks() =~= Seq::<i64>::empty());
                    assert(timeline_of(before) =~= timeline_of(runs@));
                    continue;
                }
                let left: u64 = run.frames_total - run.frames_consumed;
                let take: u64 = if remaining < left {
                    remaining
                } else {
                    left
                };
                run.frames_consumed = run.frames_consumed + take;
                let played: i64 = run.frames_consumed as i64;
                let total: i64 = run.frames_total as i64;
                proof {
                    assert(run.pts_duration * played >= 0) by (nonlinear_arith)
                        requires
                            run.pts_duration >= 0,
                            played >= 0,
                    ;
                    mark_is_within_run(run, played as int);
                }
                let scaled: i64 = match run.pts_duration.checked_mul(played) {
                    Some(product) => product,
                    None => i64::MAX,
                };
                let pts: i64 = run.pts_start.wrapping_add(scaled / total);
                *playhead = Some(pts);
                proof {
                    let done: int = frames - remaining;
                    assert(timeline_of(before) == front.marks() + timeline_of(runs@));
                    assert(front.marks().len() == left);
                    assert(front.marks()[take - 1] == pts);
                    assert(timeline.skip(done)[take - 1] == pts);
                    assert(timeline.skip(done).len() >= take);
                    assert(timeline[done + take - 1] == pts);
                    assert(timeline.skip(done + take) =~= timeline.skip(done).skip(take as int));
                    assert(run.marks() =~= front.marks().skip(take as int));
                    assert(timeline.skip(done + take) =~= run.marks() + timeline_of(runs@));
                }
                if run.frames_consumed < run.frames_total {
                    let ghost rest: Seq<PtsRun> = runs@;
                    runs.push_front(run);
                    proof {
                        assert(runs@.drop_first() =~= rest);
                        assert(runs@[0] == run);
                        assert(runs@ =~= runs_after(before, remaining as nat));
                        assert forall|i: int| 0 <= i < runs@.len() implies (
                        #[trigger] runs@[i]).wf() by {
                            if i > 0 {
                                assert(runs@[i] == rest[i - 1]);
                            }
                        }
                    }
                } else {
                    assert(run.marks() =~= Seq::<i64>::empty());
                    assert(run.marks() + timeline_of(runs@) =~= timeline_of(runs@));
                }
                remaining = remaining - take;
            },
        }
    }
}

/// The marks of a run are in proportion: mark `j` of what is left, past the start, is the
/// most that fits in the duration times the frames played by then, over all frames. There
/// is one for each frame left. (Where the product is too large for an `i64`, the largest
/// one stands in for it; past the largest timestamp marks wrap around.)
pub proof fn marks_are_in_proportion(run: PtsRun, j: int)
    requires
        run.wf(),
        0 <= j < run.frames_total - run.frames_consumed,
    ensures
        run.marks().len() == run.frames_total - run.frames_consumed,
        ({
            let product = run.pts_duration * (run.frames_consumed + j + 1);
            let held = if product > 0x7fff_ffff_ffff_ffff {
                0x7fff_ffff_ffff_ffff
            } else {
                product
            };
            let mark = run.marks()[j] as int;
            let past = if mark < run.pts_start {
                mark - run.pts_start + 0x1_0000_0000_0000_0000
            } else {
                mark - run.pts_start
            };
            &&& past * run.frames_total <= held < (past + 1) * run.frames_total
            &&& 0 <= past <= run.pts_duration
        }),
{
    let played = run.frames_consumed + j + 1;
    mark_is_within_run(run, played);
    assert(run.pts_duration * played >= 0) by (nonlinear_arith)
        requires
            run.pts_duration >= 0,
            played >= 0,
    ;
    quotient_is_the_most_that_fits(
        saturating_product(run.pts_duration as int, played),
        run.frames_total as int,
    );
}

/// A run without frames left has no marks, and a queue without runs no timeline.
pub proof fn spent_runs_have_no_marks(run: PtsRun)
    requires
        run.frames_total <= run.frames_consumed,
    ensures
        run.marks().len() == 0,
        run.left() == 0,
        timeline_of(Seq::<PtsRun>::empty()).len() == 0,
{
}

/// Played frames leave the timeline from the front, one mark each, and the playhead
/// stands at the last mark that left. Playing more than there is plays all there is, and
/// playing nothing moves nothing.
pub proof fn playing_takes_marks_from_the_front(
    timeline: Seq<i64>,
    frames: nat,
    playhead: Option<i64>,
)
    ensures
        frames <= timeline.len() ==> timeline_after(timeline, frames) == timeline.subrange(
            frames as int,
            timeline.len() as int,
        ),
        timeline.len() <= frames ==> timeline_after(timeline, frames).len() == 0,
        frames == 0 || timeline.len() == 0 ==> playhead_after(timeline, frames, playhead)
            == playhead,
        0 < frames <= timeline.len() ==> playhead_after(timeline, frames, playhead) == Some(
            timeline[frames - 1],
        ),
        0 < timeline.len() <= frames ==> playhead_after(timeline, frames, playhead) == Some(
            timeline[timeline.len() - 1],
        ),
{
    if frames <= timeline.len() {
        assert(timeline_after(timeline, frames) =~= timeline.subrange(
            frames as int,
            timeline.len() as int,
        ));
    }
}

} // verus!
