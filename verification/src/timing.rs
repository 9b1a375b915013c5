use vstd::prelude::*;
use std::collections::VecDeque;

verus! {

/// Number of completed frames kept for statistics (two seconds at 60 Hz).
pub const FRAME_HISTORY_SIZE: usize = 120;

/// Statistics are refreshed at most once per this many nanoseconds.
pub const STATS_INTERVAL_NANOS: u64 = 1_000_000_000;

/// Timing of one frame. `predicted_display_time` is the runtime's predicted
/// display time in nanoseconds; render start and end are nanoseconds on the
/// application's monotonic clock.
#[derive(Debug, Clone, Copy)]
pub struct FrameTiming {
    pub predicted_display_time: i64,
    pub actual_render_start: u64,
    pub actual_render_end: Option<u64>,
    pub frame_index: u64,
}

/// Integer statistics over the frames in the history, in nanoseconds.
#[derive(Debug)]
pub struct FrameTimeStats {
    /// Render time of each completed frame in the history, oldest first.
    pub frame_times: Vec<u64>,
    pub total_frame_time: u128,
    /// `total_frame_time` divided by the number of frames, rounded down.
    pub average_frame_time: u128,
    pub max_frame_time: u64,
    pub min_frame_time: u64,
    /// Frames whose render time exceeded the target frame time.
    pub dropped_frames: u32,
}

/// The mathematical content of `FrameTimeStats`.
pub struct StatsView {
    pub frame_times: Seq<u64>,
    pub total: u128,
    pub average: u128,
    pub max: u64,
    pub min: u64,
    pub dropped: u32,
}

impl View for FrameTimeStats {
    type V = StatsView;

    open spec fn view(&self) -> StatsView {
        StatsView {
            frame_times: self.frame_times@,
            total: self.total_frame_time,
            average: self.average_frame_time,
            max: self.max_frame_time,
            min: self.min_frame_time,
            dropped: self.dropped_frames,
        }
    }
}

/// Render time of a frame: end minus start, saturating at zero, once it ended.
pub open spec fn frame_time(f: FrameTiming) -> Option<u64> {
    match f.actual_render_end {
        Some(end) => Some(
            if end >= f.actual_render_start {
                (end - f.actual_render_start) as u64
            } else {
                0u64
            },
        ),
        None => None,
    }
}

/// Render times of the completed frames of `history`, in order.
pub open spec fn frame_times(history: Seq<FrameTiming>) -> Seq<u64>
    decreases history.len(),
{
    if history.len() == 0 {
        Seq::empty()
    } else {
        let earlier = frame_times(history.drop_last());
        match frame_time(history.last()) {
            Some(t) => earlier.push(t),
            None => earlier,
        }
    }
}

pub open spec fn sum_of(ts: Seq<u64>) -> int
    decreases ts.len(),
{
    if ts.len() == 0 {
        0
    } else {
        sum_of(ts.drop_last()) + ts.last()
    }
}

/// Largest value of `ts`, zero for none.
pub open spec fn max_of(ts: Seq<u64>) -> u64
    decreases ts.len(),
{
    if ts.len() == 0 {
        0
    } else if ts.last() > max_of(ts.drop_last()) {
        ts.last()
    } else {
        max_of(ts.drop_last())
    }
}

/// Smallest value of `ts`, `u64::MAX` for none.
pub open spec fn min_of(ts: Seq<u64>) -> u64
    decreases ts.len(),
{
    if ts.len() == 0 {
        u64::MAX
    } else if ts.last() < min_of(ts.drop_last()) {
        ts.last()
    } else {
        min_of(ts.drop_last())
    }
}

/// Number of values of `ts` above `target`.
pub open spec fn count_above(ts: Seq<u64>, target: u64) -> nat
    decreases ts.len(),
{
    if ts.len() == 0 {
        0
    } else {
        count_above(ts.drop_last(), target) + if ts.last() > target {
            1nat
        } else {
            0nat
        }
    }
}

/// Statistics of a history, or `None` when no frame of it has completed.
pub open spec fn stats_of(history: Seq<FrameTiming>, target: u64) -> Option<StatsView> {
    let ts = frame_times(history);
    if ts.len() == 0 {
        None
    } else {
        Some(
            StatsView {
                frame_times: ts,
                total: sum_of(ts) as u128,
                average: (sum_of(ts) / (ts.len() as int)) as u128,
                max: max_of(ts),
                min: min_of(ts),
                dropped: count_above(ts, target) as u32,
            },
        )
    }
}

/// The state of a `FrameTimingManager`.
pub struct TimingView {
    pub history: Seq<FrameTiming>,
    pub current: Option<FrameTiming>,
    pub frame_counter: u64,
    pub last_stats_update: u64,
    pub last_stats: Option<StatsView>,
    pub target_frame_time: u64,
}

/// Tracks the timing of VR frames: the frame being rendered, the most recent
/// completed frames, and statistics refreshed at most once per second.
pub struct FrameTimingManager {
    frame_history: VecDeque<FrameTiming>,
    current_frame: Option<FrameTiming>,
    frame_counter: u64,
    last_stats_update: u64,
    last_stats: Option<FrameTimeStats>,
    target_frame_time: u64,
}

impl View for FrameTimingManager {
    type V = TimingView;

    closed spec fn view(&self) -> TimingView {
        TimingView {
            history: self.frame_history@,
            current: self.current_frame,
            frame_counter: self.frame_counter,
            last_stats_update: self.last_stats_update,
            last_stats: match self.last_stats {
                Some(s) => Some(s@),
                None => None,
            },
            target_frame_time: self.target_frame_time,
        }
    }
}

/// The invariant of a timing state: a bounded history of completed frames
/// whose indices run up to the frame counter, and a current frame, if any,
/// that carries the next index and has not ended.
pub open spec fn timing_state_wf(v: TimingView) -> bool {
    &&& v.history.len() <= FRAME_HISTORY_SIZE
    &&& v.history.len() <= v.frame_counter
    &&& forall|i: int|
        0 <= i < v.history.len() ==> (#[trigger] v.history[i]).actual_render_end is Some
            && v.history[i].frame_index == v.frame_counter - v.history.len() + i
    &&& v.current matches Some(f) ==> f.frame_index == v.frame_counter
        && f.actual_render_end is None
    &&& v.target_frame_time <= i64::MAX
    &&& v.last_stats matches Some(s) ==> s.frame_times.len() <= FRAME_HISTORY_SIZE
}

/// The time from which the next frame is predicted: the current frame's
/// predicted display time, else that of the last completed frame.
pub open spec fn prediction_base(v: TimingView) -> Option<i64> {
    match v.current {
        Some(f) => Some(f.predicted_display_time),
        None => if v.history.len() > 0 {
            Some(v.history.last().predicted_display_time)
        } else {
            None
        },
    }
}

/// History after a frame completes: the oldest frame leaves once the history is full.
pub open spec fn push_bounded(history: Seq<FrameTiming>, f: FrameTiming) -> Seq<FrameTiming> {
    if history.len() >= FRAME_HISTORY_SIZE {
        history.subrange(1, history.len() as int).push(f)
    } else {
        history.push(f)
    }
}

proof fn lemma_frame_times_len(h: Seq<FrameTiming>)
    ensures
        frame_times(h).len() <= h.len(),
    decreases h.len(),
{
    if h.len() > 0 {
        lemma_frame_times_len(h.drop_last());
    }
}

proof fn lemma_sum_bounds(ts: Seq<u64>)
    ensures
        ts.len() * min_of(ts) <= sum_of(ts) || ts.len() == 0,
        sum_of(ts) <= ts.len() * max_of(ts),
        forall|i: int| 0 <= i < ts.len() ==> min_of(ts) <= #[trigger] ts[i] <= max_of(ts),
    decreases ts.len(),
{
    if ts.len() > 0 {
        let p = ts.drop_last();
        lemma_sum_bounds(p);
        let n = p.len() as int;
        let mt = min_of(ts) as int;
        let xt = max_of(ts) as int;
        if n > 0 {
            assert(n * mt <= n * min_of(p)) by (nonlinear_arith)
                requires mt <= min_of(p), n >= 0;
        } else {
            assert(n * mt == 0) by (nonlinear_arith) requires n == 0;
        }
        assert(n * max_of(p) <= n * xt) by (nonlinear_arith)
            requires max_of(p) <= xt, n >= 0;
        assert((n + 1) * mt == n * mt + mt) by (nonlinear_arith);
        assert((n + 1) * xt == n * xt + xt) by (nonlinear_arith);
        assert forall|i: int| 0 <= i < ts.len() implies min_of(ts) <= #[trigger] ts[i] <= max_of(ts) by {
            if i < n {
                assert(ts[i] == p[i]);
            }
        }
    }
}

proof fn lemma_count_above_len(ts: Seq<u64>, target: u64)
    ensures
        count_above(ts, target) <= ts.len(),
    decreases ts.len(),
{
    if ts.len() > 0 {
        lemma_count_above_len(ts.drop_last(), target);
    }
}

/// The statistics of a history bracket every frame time between the minimum
/// and the maximum, the average lies between them too, and no more frames
/// are counted as dropped than there are frames.
pub proof fn frame_stats_bounds(history: Seq<FrameTiming>, target: u64)
    requires
        history.len() <= FRAME_HISTORY_SIZE,
        stats_of(history, target) is Some,
    ensures
        ({
            let s = stats_of(history, target)->0;
            &&& s.min <= s.average <= s.max
            &&& s.dropped <= s.frame_times.len()
            &&& forall|i: int| 0 <= i < s.frame_times.len() ==> s.min <= #[trigger] s.frame_times[i] <= s.max
        }),
{
    let ts = frame_times(history);
    lemma_frame_times_len(history);
    lemma_sum_bounds(ts);
    lemma_count_above_len(ts, target);
    let n = ts.len() as int;
    let total = sum_of(ts);
    assert(min_of(ts) <= total / n <= max_of(ts)) by (nonlinear_arith)
        requires
            n > 0,
            n * min_of(ts) <= total,
            total <= n * max_of(ts),
    {
        vstd::arithmetic::div_mod::lemma_div_is_ordered(n * min_of(ts), total, n);
        vstd::arithmetic::div_mod::lemma_div_is_ordered(total, n * max_of(ts), n);
        vstd::arithmetic::div_mod::lemma_div_multiples_vanish(min_of(ts) as int, n);
        vstd::arithmetic::div_mod::lemma_div_multiples_vanish(max_of(ts) as int, n);
    }
}

proof fn lemma_count_above_filter(ts: Seq<u64>, target: u64)
    ensures
        count_above(ts, target) == ts.filter(|t: u64| t > target).len(),
    decreases ts.len(),
{
    if ts.len() > 0 {
        let p = ts.drop_last();
        lemma_count_above_filter(p, target);
        assert(ts =~= p.push(ts.last()));
        p.lemma_filter_len_push(|t: u64| t > target, ts.last());
    }
}

/// A frame is counted as dropped exactly when its render time is over the
/// target frame time: the dropped count of the statistics is the number of
/// frame times above the target, one for each such frame.
pub proof fn dropped_frames_are_over_budget(history: Seq<FrameTiming>, target: u64)
    requires
        history.len() <= FRAME_HISTORY_SIZE,
        stats_of(history, target) is Some,
    ensures
        ({
            let s = stats_of(history, target)->0;
            s.dropped == s.frame_times.filter(|t: u64| t > target).len()
        }),
{
    let ts = frame_times(history);
    lemma_frame_times_len(history);
    lemma_count_above_len(ts, target);
    lemma_count_above_filter(ts, target);
}

impl FrameTimingManager {
    pub closed spec fn wf(&self) -> bool {
        &&& timing_state_wf(self@)
        &&& self.last_stats matches Some(s) ==> s.frame_times@.len() <= FRAME_HISTORY_SIZE
    }

    /// A manager with an empty history. `target_frame_time` is the frame
    /// budget in nanoseconds; `now` is the current time on the application clock.
    pub fn new(target_frame_time: u64, now: u64) -> (m: Self)
        requires
            target_frame_time <= i64::MAX,
        ensures
            m.wf(),
            m@.history == Seq::<FrameTiming>::empty(),
            m@.current is None,
            m@.frame_counter == 0,
            m@.last_stats_update == now,
            m@.last_stats is None,
            m@.target_frame_time == target_frame_time,
    {
        FrameTimingManager {
            frame_history: VecDeque::with_capacity(FRAME_HISTORY_SIZE),
            current_frame: None,
            frame_counter: 0,
            last_stats_update: now,
            last_stats: None,
            target_frame_time,
        }
    }

    /// Starts timing a frame whose display the runtime predicts at
    /// `predicted_display_time`; rendering starts at `now`. A frame begun
    /// earlier and not ended is forgotten.
    pub fn begin_frame(&mut self, predicted_display_time: i64, now: u64)
        requires
            old(self).wf(),
        ensures
            final(self).wf(),
            final(self)@ == (TimingView {
                current: Some(
                    FrameTiming {
                        predicted_display_time,
                        actual_render_start: now,
                        actual_render_end: None,
                        frame_index: old(self)@.frame_counter,
                    },
                ),
                ..old(self)@
            }),
    {
        let frame = FrameTiming {
            predicted_display_time,
            actual_render_start: now,
            actual_render_end: None,
            frame_index: self.frame_counter,
        };
        self.current_frame = Some(frame);
    }

    /// Ends the current frame at `now`: it joins the history (the oldest
    /// frame leaves once the history is full), the frame counter advances,
    /// and the statistics are refreshed when a second has passed since the
    /// last refresh. Without a current frame nothing changes.
    pub fn end_frame(&mut self, now: u64)
        requires
            old(self).wf(),
            old(self)@.current is Some ==> old(self)@.frame_counter < u64::MAX,
        ensures
            final(self).wf(),
            old(self)@.current is None ==> final(self)@ == old(self)@,
            old(self)@.current matches Some(f) ==> {
                let ended = FrameTiming { actual_render_end: Some(now), ..f };
                let history = push_bounded(old(self)@.history, ended);
                let due = (if now >= old(self)@.last_stats_update {
                    now - old(self)@.last_stats_update
                } else {
                    0
                }) >= STATS_INTERVAL_NANOS;
                &&& final(self)@.history == history
                &&& final(self)@.current is None
                &&& final(self)@.frame_counter == old(self)@.frame_counter + 1
                &&& final(self)@.target_frame_time == old(self)@.target_frame_time
                &&& due ==> final(self)@.last_stats_update == now
                    && final(self)@.last_stats == (match stats_of(
                    history,
                    old(self)@.target_frame_time,
                ) {
                    Some(s) => Some(s),
                    None => old(self)@.last_stats,
                })
                &&& !due ==> final(self)@.last_stats_update == old(self)@.last_stats_update
                    && final(self)@.last_stats == old(self)@.last_stats
            },
    {
        let taken = self.current_frame.take();
        if let Some(frame) = taken {
            let ended = FrameTiming { actual_render_end: Some(now), ..frame };
            let ghost old_history = self.frame_history@;
            if self.frame_history.len() >= FRAME_HISTORY_SIZE {
                self.frame_history.pop_front();
            }
            self.frame_history.push_back(ended);
            self.frame_counter = self.frame_counter + 1;
            proof {
                let h = self.frame_history@;
                assert(h == push_bounded(old_history, ended));
                assert forall|i: int| 0 <= i < h.len() implies (#[trigger] h[i]).actual_render_end is Some
                    && h[i].frame_index == self.frame_counter - h.len() + i by {
                    if i < h.len() - 1 {
                        if old_history.len() >= FRAME_HISTORY_SIZE {
                            assert(h[i] == old_history[i + 1]);
                        } else {
                            assert(h[i] == old_history[i]);
                        }
                    }
                }
            }
            if now.saturating_sub(self.last_stats_update) >= STATS_INTERVAL_NANOS {
                self.update_stats(now);
            }
        }
    }

    /// The latest statistics; `None` until a refresh found a completed frame.
    pub fn get_stats(&self) -> (stats: Option<&FrameTimeStats>)
        ensures
            match stats {
                Some(s) => self@.last_stats == Some(s@),
                None => self@.last_stats is None,
            },
    {
        self.last_stats.as_ref()
    }

    /// Refreshes the statistics now, whether or not a second has passed.
    pub fn force_stats_update(&mut self, now: u64)
        requires
            old(self).wf(),
        ensures
            final(self).wf(),
            final(self)@ == (TimingView {
                last_stats_update: now,
                last_stats: match stats_of(old(self)@.history, old(self)@.target_frame_time) {
                    Some(s) => Some(s),
                    None => old(self)@.last_stats,
                },
                ..old(self)@
            }),
    {
        self.update_stats(now);
    }

    fn update_stats(&mut self, now: u64)
        requires
            old(self).wf(),
        ensures
            final(self).wf(),
            final(self)@ == (TimingView {
                last_stats_update: now,
                last_stats: match stats_of(old(self)@.history, old(self)@.target_frame_time) {
                    Some(s) => Some(s),
                    None => old(self)@.last_stats,
                },
                ..old(self)@
            }),
    {
        let ghost history = self.frame_history@;
        let target = self.target_frame_time;
        let mut total_frame_time: u128 = 0;
        let mut max_frame_time: u64 = 0;
        let mut min_frame_time: u64 = u64::MAX;
        let mut times: Vec<u64> = Vec::new();
        let mut dropped: u32 = 0;
        let len = self.frame_history.len();
        let mut i: usize = 0;
        while i < len
            invariant
                len == history.len(),
                history == self.frame_history@,
                len <= FRAME_HISTORY_SIZE,
                i <= len,
                times@ == frame_times(history.take(i as int)),
                total_frame_time == sum_of(times@),
                max_frame_time == max_of(times@),
                min_frame_time == min_of(times@),
                dropped == count_above(times@, target),
                times@.len() <= i,
                dropped <= times@.len(),
                total_frame_time <= times@.len() * 0xFFFF_FFFF_FFFF_FFFFu64,
            decreases len - i,
        {
            let frame = self.frame_history[i];
            proof {
                assert(history.take(i + 1).drop_last() =~= history.take(i as int));
                assert(history.take(i + 1).last() == frame);
            }
            if let Some(end_time) = frame.actual_render_end {
                let frame_time: u64 = end_time.saturating_sub(frame.actual_render_start);
                proof {
                    let n = times@.len();
                    assert(total_frame_time + frame_time <= (n + 1) * 0xFFFF_FFFF_FFFF_FFFFu64)
                        by (nonlinear_arith)
                        requires
                            total_frame_time <= n * 0xFFFF_FFFF_FFFF_FFFFu64,
                            frame_time <= 0xFFFF_FFFF_FFFF_FFFFu64,
                    ;
                    assert((n + 1) * 0xFFFF_FFFF_FFFF_FFFFu64 <= 121 * 0xFFFF_FFFF_FFFF_FFFFu64)
                        by (nonlinear_arith)
                        requires n + 1 <= 121;
                }
                total_frame_time = total_frame_time + frame_time as u128;
                if frame_time > max_frame_time {
                    max_frame_time = frame_time;
                }
                if frame_time < min_frame_time {
                    min_frame_time = frame_time;
                }
                let ghost before = times@;
                times.push(frame_time);
                proof {
                    assert(times@.drop_last() =~= before);
                }
                if frame_time > target {
                    dropped = dropped + 1;
                }
            }
            i = i + 1;
        }
        proof {
            assert(history.take(len as int) =~= history);
        }
        let frame_count = times.len();
        if frame_count > 0 {
            let average_frame_time: u128 = total_frame_time / (frame_count as u128);
            self.last_stats = Some(
                FrameTimeStats {
                    frame_times: times,
                    total_frame_time,
                    average_frame_time,
                    max_frame_time,
                    min_frame_time,
                    dropped_frames: dropped,
                },
            );
        }
        self.last_stats_update = now;
    }

    /// The next frame's display time: one target frame time after the
    /// current frame's predicted display time, or after the last completed
    /// frame's when no frame is current; `None` before the first frame.
    pub fn predict_next_frame_time(&self) -> (t: Option<i64>)
        requires
            self.wf(),
            prediction_base(self@) matches Some(b) ==> b + self@.target_frame_time <= i64::MAX,
        ensures
            t == (match prediction_base(self@) {
                Some(b) => Some((b + self@.target_frame_time) as i64),
                None => None,
            }),
    {
        if let Some(current) = &self.current_frame {
            return Some(current.predicted_display_time + self.target_frame_time as i64);
        }
        let len = self.frame_history.len();
        if len > 0 {
            let last = self.frame_history[len - 1];
            Some(last.predicted_display_time + self.target_frame_time as i64)
        } else {
            None
        }
    }

    /// Whether `predict_next_frame_time` stays within `i64`; past it the
    /// addition overflows.
    pub fn prediction_in_range(&self) -> (ok: bool)
        requires
            self.wf(),
        ensures
            ok == (prediction_base(self@) matches Some(b) ==> b + self@.target_frame_time <= i64::MAX),
    {
        let base: Option<i64> = match &self.current_frame {
            Some(current) => Some(current.predicted_display_time),
            None => {
                let len = self.frame_history.len();
                if len > 0 {
                    Some(self.frame_history[len - 1].predicted_display_time)
                } else {
                    None
                }
            },
        };
        match base {
            Some(b) => b as i128 + self.target_frame_time as i128 <= i64::MAX as i128,
            None => true,
        }
    }

    /// Latency from frame start to photons of the last completed frame, in
    /// nanoseconds: its predicted display time, read as an unsigned count of
    /// nanoseconds, plus its render time.
    pub fn get_frame_to_photon_latency(&self) -> (latency: Option<u128>)
        requires
            self.wf(),
        ensures
            latency == (if self@.history.len() > 0 {
                let f = self@.history.last();
                match frame_time(f) {
                    Some(t) => Some(((f.predicted_display_time as u64) + t) as u128),
                    None => None,
                }
            } else {
                None
            }),
    {
        let len = self.frame_history.len();
        if len == 0 {
            return None;
        }
        let frame = self.frame_history[len - 1];
        match frame.actual_render_end {
            Some(end) => {
                let display_time: u64 = frame.predicted_display_time as u64;
                Some(display_time as u128 + end.saturating_sub(frame.actual_render_start) as u128)
            },
            None => None,
        }
    }

    /// Number of frames completed so far.
    pub fn frame_counter(&self) -> (n: u64)
        ensures
            n == self@.frame_counter,
    {
        self.frame_counter
    }
}

} // verus!
