//! The RTT history window: a time-bounded run of RTT samples with its base
//! (minimum) RTT, a smoothed RTT, and the probe records from which a competing
//! loss-based sender is detected.

use std::collections::VecDeque;
use vstd::prelude::*;

verus! {

/// Longest history kept, in microseconds.
pub const MAX_HISTORY_US: u64 = 10_000_000;

/// History kept, in smoothed RTTs.
pub const HISTORY_SRTTS: u64 = 30;

/// Most probe records kept.
pub const MAX_PROBES: usize = 40;

/// Length of the detection horizon, in smoothed RTTs.
pub const DETECT_SRTTS: u64 = 10;

/// Slack added to the detection threshold, in microseconds.
pub const DETECT_SLACK_US: u64 = 100;

/// The smallest RTT among `samples`; `u32::MAX` stands for "none yet".
pub open spec fn min_rtt(samples: Seq<(u32, u64)>) -> u32
    decreases samples.len(),
{
    if samples.len() == 0 {
        u32::MAX
    } else {
        let rest = min_rtt(samples.drop_last());
        if samples.last().0 < rest {
            samples.last().0
        } else {
            rest
        }
    }
}

/// How many samples at the head of `samples` are older than `cutoff`, the
/// last sample never counted.
pub open spec fn stale_prefix_len(samples: Seq<(u32, u64)>, cutoff: u64) -> nat
    decreases samples.len(),
{
    if samples.len() > 1 && samples[0].1 < cutoff {
        1 + stale_prefix_len(samples.skip(1), cutoff)
    } else {
        0
    }
}

/// How many of `probes` saw the minimum RTT rise.
pub open spec fn count_increased(probes: Seq<(u64, bool)>) -> nat
    decreases probes.len(),
{
    if probes.len() == 0 {
        0
    } else {
        count_increased(probes.drop_last()) + if probes.last().1 {
            1nat
        } else {
            0nat
        }
    }
}

/// The most recent `MAX_PROBES` of `probes`.
pub open spec fn newest_probes(probes: Seq<(u64, bool)>) -> Seq<(u64, bool)> {
    if probes.len() > MAX_PROBES {
        probes.skip(probes.len() - MAX_PROBES)
    } else {
        probes
    }
}

/// The smallest RTT among the samples taken in `[lo, hi]`; `u32::MAX` if
/// there is none.
pub open spec fn span_min(samples: Seq<(u32, u64)>, lo: u64, hi: u64) -> u32
    decreases samples.len(),
{
    if samples.len() == 0 {
        u32::MAX
    } else {
        let rest = span_min(samples.drop_last(), lo, hi);
        let s = samples.last();
        if lo <= s.1 <= hi && s.0 < rest {
            s.0
        } else {
            rest
        }
    }
}

/// The largest RTT among the samples taken in `[lo, hi]`; 0 if there is none.
pub open spec fn span_max(samples: Seq<(u32, u64)>, lo: u64, hi: u64) -> u32
    decreases samples.len(),
{
    if samples.len() == 0 {
        0
    } else {
        let rest = span_max(samples.drop_last(), lo, hi);
        let s = samples.last();
        if lo <= s.1 <= hi && s.0 > rest {
            s.0
        } else {
            rest
        }
    }
}

/// The smoothed RTT after one more sample: the sample itself at first, then
/// an exponentially weighted average with weight 1/16 on the sample.
pub open spec fn smoothed(srtt: u32, rtt: u32) -> u32 {
    if srtt == 0 {
        rtt
    } else {
        ((15 * srtt + rtt) / 16) as u32
    }
}

/// How far back history is kept: `HISTORY_SRTTS` smoothed RTTs, at most
/// `MAX_HISTORY_US`.
pub open spec fn history_span(srtt: u32) -> u64 {
    if HISTORY_SRTTS * srtt < MAX_HISTORY_US {
        (HISTORY_SRTTS * srtt) as u64
    } else {
        MAX_HISTORY_US
    }
}

/// The time `span` before `now`, or 0 where the clock has not run that long.
pub open spec fn time_before(now: u64, span: int) -> u64 {
    if now >= span {
        (now - span) as u64
    } else {
        0
    }
}

/// Whether a probe is to be closed at `now`: none was closed yet, or the last
/// one ended more than two base RTTs ago.
pub open spec fn probe_due(probes: Seq<(u64, bool)>, base_rtt: u32, now: u64) -> bool {
    probes.len() == 0 || probes.last().0 + 2 * base_rtt < now
}

/// What an `RTTWindow` holds.
pub struct RttWindowView {
    /// The retained samples, oldest first: RTT and time taken, in microseconds.
    pub samples: Seq<(u32, u64)>,
    /// The smallest retained RTT.
    pub base_rtt: u32,
    /// Whether the base RTT was set anew since the flag was last read.
    pub base_rtt_changed: bool,
    /// The smoothed RTT.
    pub srtt: u32,
    /// How far back the last sample kept history.
    pub max_time: u64,
    /// The retained probes, oldest first: end time, and whether the minimum
    /// RTT rose against the probe before.
    pub probes: Seq<(u64, bool)>,
    /// Retained probes in which the minimum RTT rose.
    pub num_increase: u32,
    /// Retained probes in which it did not.
    pub num_decrease: u32,
    /// The smallest RTT since the last probe closed.
    pub cur_min_rtt: u32,
    /// The smallest RTT within the last closed probe.
    pub prev_min_rtt: u32,
}

impl RttWindowView {
    /// The window before any sample.
    pub open spec fn empty() -> RttWindowView {
        RttWindowView {
            samples: Seq::empty(),
            base_rtt: u32::MAX,
            base_rtt_changed: false,
            srtt: 0,
            max_time: MAX_HISTORY_US,
            probes: Seq::empty(),
            num_increase: 0,
            num_decrease: 0,
            cur_min_rtt: u32::MAX,
            prev_min_rtt: 0,
        }
    }

    /// What holds of a window whatever was fed to it, but for the bound on
    /// the number of probes.
    pub open spec fn consistent(self) -> bool {
        &&& self.base_rtt == min_rtt(self.samples)
        &&& self.max_time <= MAX_HISTORY_US
        &&& self.num_increase == count_increased(self.probes)
        &&& self.num_increase + self.num_decrease == self.probes.len()
        &&& (self.probes.len() > 0 <==> self.samples.len() > 0)
    }

    /// What holds of a window between two calls.
    pub open spec fn wf(self) -> bool {
        &&& self.consistent()
        &&& self.probes.len() <= MAX_PROBES
    }

    /// The window once the sample is appended and the base RTT, the smoothed
    /// RTT and the probes are brought up to date, before anything is evicted.
    pub open spec fn with_sample(self, rtt: u32, now: u64) -> RttWindowView {
        let base_rtt = if rtt < self.base_rtt {
            rtt
        } else {
            self.base_rtt
        };
        let due = probe_due(self.probes, base_rtt, now);
        let increased = self.cur_min_rtt > self.prev_min_rtt;
        let probes = if due {
            self.probes.push((now, increased))
        } else {
            self.probes
        };
        let cur_min_rtt = if due {
            u32::MAX
        } else {
            self.cur_min_rtt
        };
        RttWindowView {
            samples: self.samples.push((rtt, now)),
            base_rtt,
            base_rtt_changed: self.base_rtt_changed || rtt < self.base_rtt,
            srtt: smoothed(self.srtt, rtt),
            max_time: history_span(self.srtt),
            probes,
            num_increase: if due && increased {
                (self.num_increase + 1) as u32
            } else {
                self.num_increase
            },
            num_decrease: if due && !increased {
                (self.num_decrease + 1) as u32
            } else {
                self.num_decrease
            },
            cur_min_rtt: if rtt < cur_min_rtt {
                rtt
            } else {
                cur_min_rtt
            },
            prev_min_rtt: if due {
                self.cur_min_rtt
            } else {
                self.prev_min_rtt
            },
        }
    }

    /// The window once the samples older than `max_time` before `now` have
    /// left its head, and the probes beyond the newest `MAX_PROBES`. Where a
    /// sample equal to the base RTT has left, the base RTT is the smallest
    /// RTT that is left, and the flag is set whether or not that is another
    /// value.
    pub open spec fn without_old_history(self, now: u64) -> RttWindowView {
        let cutoff = time_before(now, self.max_time as int);
        let evicted = stale_prefix_len(self.samples, cutoff);
        let samples = self.samples.skip(evicted as int);
        let lost_base = exists|i: int|
            0 <= i < evicted && (#[trigger] self.samples[i]).0 == self.base_rtt;
        let probes = newest_probes(self.probes);
        let lost_probes = self.probes.len() > MAX_PROBES;
        RttWindowView {
            samples,
            base_rtt: if lost_base {
                min_rtt(samples)
            } else {
                self.base_rtt
            },
            base_rtt_changed: self.base_rtt_changed || lost_base,
            probes,
            num_increase: if lost_probes {
                count_increased(probes) as u32
            } else {
                self.num_increase
            },
            num_decrease: if lost_probes {
                (probes.len() - count_increased(probes)) as u32
            } else {
                self.num_decrease
            },
            ..self
        }
    }

    /// The window after one more sample.
    pub open spec fn after_sample(self, rtt: u32, now: u64) -> RttWindowView {
        self.with_sample(rtt, now).without_old_history(now)
    }

    /// The window once the change flag was read.
    pub open spec fn after_flag_read(self) -> RttWindowView {
        RttWindowView { base_rtt_changed: false, ..self }
    }

    /// Where the detection horizon starts: `DETECT_SRTTS` smoothed RTTs
    /// before the newest sample.
    pub open spec fn horizon_start(self) -> u64
        recommends
            self.samples.len() > 0,
    {
        time_before(self.samples.last().1, DETECT_SRTTS * self.srtt)
    }

    /// The threshold above which the recent minimum RTT shows a standing
    /// queue: the base RTT, a tenth of the recent spread above it, and the
    /// slack.
    pub open spec fn detect_threshold(self) -> int
        recommends
            self.samples.len() > 0,
    {
        let hi = self.samples.last().1;
        let max = span_max(self.samples, self.horizon_start(), hi);
        self.base_rtt + (max - self.base_rtt) / 10 + DETECT_SLACK_US
    }

    /// Whether a loss-based sender seems to share the bottleneck: even the
    /// smallest RTT within the horizon lies above the threshold.
    pub open spec fn tcp_detected(self) -> bool {
        self.samples.len() > 0 && span_min(
            self.samples,
            self.horizon_start(),
            self.samples.last().1,
        ) > self.detect_threshold()
    }
}

/// `min_rtt` is at most every RTT in `samples`, and is one of them.
pub proof fn lemma_min_rtt_is_min(samples: Seq<(u32, u64)>)
    ensures
        forall|i: int| 0 <= i < samples.len() ==> min_rtt(samples) <= (#[trigger] samples[i]).0,
        samples.len() > 0 ==> exists|i: int|
            0 <= i < samples.len() && (#[trigger] samples[i]).0 == min_rtt(samples),
    decreases samples.len(),
{
    if samples.len() > 0 {
        let init = samples.drop_last();
        lemma_min_rtt_is_min(init);
        assert forall|i: int| 0 <= i < samples.len() implies min_rtt(samples) <= (
        #[trigger] samples[i]).0 by {
            if i < init.len() {
                assert(init[i] == samples[i]);
            }
        }
        if samples.last().0 < min_rtt(init) {
            assert(samples[samples.len() - 1].0 == min_rtt(samples));
        } else if init.len() > 0 {
            let j = choose|j: int| 0 <= j < init.len() && (#[trigger] init[j]).0 == min_rtt(init);
            assert(samples[j] == init[j]);
        } else {
            assert(samples[0].0 == min_rtt(samples));
        }
    }
}

/// A value that is at most every RTT in `samples` and is one of them is
/// `min_rtt(samples)`.
pub proof fn lemma_min_rtt_unique(samples: Seq<(u32, u64)>, m: u32)
    requires
        forall|i: int| 0 <= i < samples.len() ==> m <= (#[trigger] samples[i]).0,
        exists|i: int| 0 <= i < samples.len() && (#[trigger] samples[i]).0 == m,
    ensures
        min_rtt(samples) == m,
{
    lemma_min_rtt_is_min(samples);
}

/// Where no sample equal to the smallest RTT is among the first `k`, the
/// smallest RTT of the rest is the same.
pub proof fn lemma_min_rtt_skip(samples: Seq<(u32, u64)>, k: int)
    requires
        0 <= k < samples.len(),
        forall|i: int| 0 <= i < k ==> (#[trigger] samples[i]).0 != min_rtt(samples),
    ensures
        min_rtt(samples.skip(k)) == min_rtt(samples),
{
    lemma_min_rtt_is_min(samples);
    let rest = samples.skip(k);
    let m = min_rtt(samples);
    let j = choose|j: int| 0 <= j < samples.len() && (#[trigger] samples[j]).0 == m;
    assert(rest[j - k] == samples[j]);
    assert forall|i: int| 0 <= i < rest.len() implies m <= (#[trigger] rest[i]).0 by {
        assert(rest[i] == samples[i + k]);
    }
    lemma_min_rtt_unique(rest, min_rtt(samples));
}

/// The samples that `stale_prefix_len` counts are all older than `cutoff`;
/// at least one sample is left; and the first one left is the only one or is
/// not older than `cutoff`.
pub proof fn lemma_stale_prefix(samples: Seq<(u32, u64)>, cutoff: u64)
    ensures
        samples.len() > 0 ==> stale_prefix_len(samples, cutoff) < samples.len(),
        samples.len() == 0 ==> stale_prefix_len(samples, cutoff) == 0,
        forall|i: int|
            0 <= i < stale_prefix_len(samples, cutoff) ==> (#[trigger] samples[i]).1 < cutoff,
        samples.len() > 0 ==> {
            let k = stale_prefix_len(samples, cutoff) as int;
            k == samples.len() - 1 || samples[k].1 >= cutoff
        },
    decreases samples.len(),
{
    if samples.len() > 1 && samples[0].1 < cutoff {
        let rest = samples.skip(1);
        lemma_stale_prefix(rest, cutoff);
        let k = stale_prefix_len(samples, cutoff) as int;
        assert forall|i: int| 0 <= i < k implies (#[trigger] samples[i]).1 < cutoff by {
            if i > 0 {
                assert(rest[i - 1] == samples[i]);
            }
        }
        assert(rest[k - 1] == samples[k]);
    }
}

/// Counting from the head: the first probe, then the rest.
pub proof fn lemma_count_increased_head(probes: Seq<(u64, bool)>)
    requires
        probes.len() > 0,
    ensures
        count_increased(probes) == count_increased(probes.skip(1)) + if probes[0].1 {
            1nat
        } else {
            0nat
        },
    decreases probes.len(),
{
    if probes.len() == 1 {
        assert(probes.drop_last() =~= Seq::empty());
        assert(probes.skip(1) =~= Seq::empty());
        assert(count_increased(probes.drop_last()) == 0);
    } else {
        let init = probes.drop_last();
        lemma_count_increased_head(init);
        assert(init.skip(1) =~= probes.skip(1).drop_last());
        assert(probes.skip(1).last() == probes.last());
        assert(init[0] == probes[0]);
    }
}

/// No more probes are counted than there are.
pub proof fn lemma_count_increased_bound(probes: Seq<(u64, bool)>)
    ensures
        count_increased(probes) <= probes.len(),
    decreases probes.len(),
{
    if probes.len() > 0 {
        lemma_count_increased_bound(probes.drop_last());
    }
}

/// Every sample taken in `[lo, hi]` lies between `span_min` and `span_max`.
pub proof fn lemma_span_bounds(samples: Seq<(u32, u64)>, lo: u64, hi: u64)
    ensures
        forall|i: int|
            0 <= i < samples.len() && lo <= (#[trigger] samples[i]).1 <= hi ==> span_min(
                samples,
                lo,
                hi,
            ) <= samples[i].0 <= span_max(samples, lo, hi),
    decreases samples.len(),
{
    if samples.len() > 0 {
        let init = samples.drop_last();
        lemma_span_bounds(init, lo, hi);
        assert forall|i: int|
            0 <= i < samples.len() && lo <= (#[trigger] samples[i]).1 <= hi implies span_min(
            samples,
            lo,
            hi,
        ) <= samples[i].0 <= span_max(samples, lo, hi) by {
            if i < init.len() {
                assert(init[i] == samples[i]);
            }
        }
    }
}

/// Whether the samples stand in the order of their times.
pub open spec fn times_sorted(samples: Seq<(u32, u64)>) -> bool {
    forall|i: int, j: int|
        0 <= i <= j < samples.len() ==> (#[trigger] samples[i]).1 <= (#[trigger] samples[j]).1
}

/// A well-formed window is well formed after one more sample.
pub proof fn lemma_after_sample_wf(v: RttWindowView, rtt: u32, now: u64)
    requires
        v.wf(),
    ensures
        v.with_sample(rtt, now).consistent(),
        v.with_sample(rtt, now).probes.len() <= MAX_PROBES + 1,
        v.after_sample(rtt, now).wf(),
{
    let pushed = v.with_sample(rtt, now);
    assert(pushed.samples.drop_last() =~= v.samples);
    lemma_count_increased_bound(v.probes);
    if probe_due(v.probes, pushed.base_rtt, now) {
        assert(pushed.probes.drop_last() =~= v.probes);
    }
    let after = pushed.without_old_history(now);
    let cutoff = time_before(now, pushed.max_time as int);
    lemma_stale_prefix(pushed.samples, cutoff);
    lemma_count_increased_bound(after.probes);
    lemma_count_increased_bound(pushed.probes);
    let evicted = stale_prefix_len(pushed.samples, cutoff) as int;
    if !(exists|i: int| 0 <= i < evicted && (#[trigger] pushed.samples[i]).0 == pushed.base_rtt) {
        lemma_min_rtt_skip(pushed.samples, evicted);
    }
}

/// What one more sample does to the samples of a well-formed window. The
/// new sample is appended, then `stale_prefix_len` samples leave the head, so
/// the length is the old one plus one less those. Each sample that leaves is
/// older than `max_time` before `now`; the first one left is not, or is the
/// only one. The base RTT is the smallest RTT left, so at most the new one.
pub proof fn lemma_after_sample_retains(v: RttWindowView, rtt: u32, now: u64)
    requires
        v.wf(),
    ensures
        ({
            let pushed = v.samples.push((rtt, now));
            let cutoff = time_before(now, history_span(v.srtt) as int);
            let evicted = stale_prefix_len(pushed, cutoff);
            let after = v.after_sample(rtt, now);
            &&& evicted <= v.samples.len()
            &&& after.samples == pushed.skip(evicted as int)
            &&& after.samples.len() == v.samples.len() + 1 - evicted
            &&& after.samples.last() == (rtt, now)
            &&& forall|i: int| 0 <= i < evicted ==> (#[trigger] pushed[i]).1 < cutoff
            &&& (after.samples.len() == 1 || after.samples[0].1 >= cutoff)
            &&& after.base_rtt == min_rtt(after.samples)
            &&& after.base_rtt <= rtt
        }),
{
    let pushed = v.samples.push((rtt, now));
    let cutoff = time_before(now, history_span(v.srtt) as int);
    lemma_stale_prefix(pushed, cutoff);
    lemma_after_sample_wf(v, rtt, now);
    let after = v.after_sample(rtt, now);
    lemma_min_rtt_is_min(after.samples);
}

/// Where the samples come in the order of their times, every sample that a
/// well-formed window retains was taken within `max_time` before the newest.
pub proof fn lemma_sorted_history_is_fresh(v: RttWindowView, rtt: u32, now: u64)
    requires
        v.wf(),
        times_sorted(v.samples.push((rtt, now))),
    ensures
        ({
            let after = v.after_sample(rtt, now);
            &&& times_sorted(after.samples)
            &&& forall|i: int|
                0 <= i < after.samples.len() ==> (#[trigger] after.samples[i]).1 >= time_before(
                    now,
                    after.max_time as int,
                )
        }),
{
    let pushed = v.samples.push((rtt, now));
    let after = v.after_sample(rtt, now);
    let cutoff = time_before(now, after.max_time as int);
    lemma_after_sample_retains(v, rtt, now);
    let evicted = stale_prefix_len(pushed, cutoff) as int;
    assert forall|i: int, j: int| 0 <= i <= j < after.samples.len() implies (
    #[trigger] after.samples[i]).1 <= (#[trigger] after.samples[j]).1 by {
        assert(after.samples[i] == pushed[i + evicted]);
        assert(after.samples[j] == pushed[j + evicted]);
    }
    assert forall|i: int| 0 <= i < after.samples.len() implies (#[trigger] after.samples[i]).1
        >= cutoff by {
        if after.samples.len() > 1 {
            assert(after.samples[0].1 <= after.samples[i].1);
        }
    }
}

/// A window holds a probe exactly when it holds a sample: whoever finds
/// probes to judge by also finds samples to judge.
pub proof fn lemma_probes_mean_samples(v: RttWindowView)
    requires
        v.wf(),
        v.num_increase + v.num_decrease > 0,
    ensures
        v.samples.len() > 0,
{
}

/// A sliding window of RTT samples.
pub struct RTTWindow {
    // How far back the last sample kept history: the smaller of
    // `MAX_HISTORY_US` and `HISTORY_SRTTS` smoothed RTTs.
    max_time: u64,
    // Smallest retained RTT.
    base_rtt: u32,
    // Was the base RTT set anew since the flag was last read?
    base_rtt_changed: bool,
    srtt: u32,
    // RTT measurements.
    rtts: VecDeque<u32>,
    // Times at which the measurements were taken.
    times: VecDeque<u64>,
    // For each probe, its end time and whether the minimum RTT rose in it.
    increase: VecDeque<(u64, bool)>,
    // Minimum RTT since the last probe closed.
    cur_min_rtt: u32,
    // Minimum RTT within the last closed probe.
    prev_min_rtt: u32,
    // Number of rises and of others among the retained probes.
    num_increase: u32,
    num_decrease: u32,
}

impl View for RTTWindow {
    type V = RttWindowView;

    closed spec fn view(&self) -> RttWindowView {
        RttWindowView {
            samples: Seq::new(self.rtts@.len(), |i: int| (self.rtts@[i], self.times@[i])),
            base_rtt: self.base_rtt,
            base_rtt_changed: self.base_rtt_changed,
            srtt: self.srtt,
            max_time: self.max_time,
            probes: self.increase@,
            num_increase: self.num_increase,
            num_decrease: self.num_decrease,
            cur_min_rtt: self.cur_min_rtt,
            prev_min_rtt: self.prev_min_rtt,
        }
    }
}

impl RTTWindow {
    /// The RTTs and the times are two sequences of one length.
    pub closed spec fn paired(&self) -> bool {
        self.rtts@.len() == self.times@.len()
    }

    /// What holds of a window between two calls.
    pub open spec fn wf(&self) -> bool {
        self.paired() && self@.wf()
    }

    /// An empty window.
    pub fn new() -> (w: RTTWindow)
        ensures
            w.wf(),
            w@ == RttWindowView::empty(),
    {
        let w = RTTWindow {
            max_time: MAX_HISTORY_US,
            base_rtt: u32::MAX,
            base_rtt_changed: false,
            srtt: 0,
            rtts: VecDeque::new(),
            times: VecDeque::new(),
            increase: VecDeque::new(),
            cur_min_rtt: u32::MAX,
            prev_min_rtt: 0,
            num_increase: 0,
            num_decrease: 0,
        };
        assert(w@.samples =~= Seq::empty());
        w
    }

    /// Drops the samples older than `max_time` before `now` from the head,
    /// always leaving one, finds the base RTT anew where a sample equal to it
    /// left, and drops the probes beyond the newest `MAX_PROBES`.
    fn clear_old_hist(&mut self, now: u64)
        requires
            old(self).paired(),
            old(self)@.consistent(),
        ensures
            final(self).wf(),
            final(self)@ == old(self)@.without_old_history(now),
    {
        let ghost before = self@;
        let cutoff: u64 = now.saturating_sub(self.max_time);
        // Whether the base RTT has to be found anew.
        let mut recompute_base_rtt = false;
        let ghost mut gone: int = 0;

        assert(self@.samples.skip(0) =~= self@.samples);
        while self.times.len() > 1 && self.times[0] < cutoff
            invariant
                self.paired(),
                0 <= gone <= before.samples.len(),
                self@ == (RttWindowView { samples: before.samples.skip(gone), ..before }),
                stale_prefix_len(before.samples, cutoff) == gone + stale_prefix_len(
                    self@.samples,
                    cutoff,
                ),
                recompute_base_rtt <==> exists|i: int|
                    0 <= i < gone && (#[trigger] before.samples[i]).0 == before.base_rtt,
                before.base_rtt == min_rtt(before.samples),
                !recompute_base_rtt ==> before.base_rtt == min_rtt(self@.samples),
            decreases self.times@.len(),
        {
            let ghost cur = self@.samples;
            proof {
                lemma_min_rtt_is_min(cur);
                assert(cur[0] == before.samples[gone]);
                assert(cur[0] == (self.rtts@[0], self.times@[0]));
            }
            if self.rtts[0] <= self.base_rtt {
                recompute_base_rtt = true;
            }
            self.times.pop_front();
            self.rtts.pop_front();
            proof {
                assert(self@.samples =~= cur.skip(1));
                assert(cur.skip(1) =~= before.samples.skip(gone + 1));
                if !recompute_base_rtt {
                    lemma_min_rtt_skip(cur, 1);
                }
                gone = gone + 1;
            }
        }

        if recompute_base_rtt {
            self.base_rtt = u32::MAX;
            self.base_rtt_changed = true;
            let mut i: usize = 0;
            let ghost kept = self@.samples;
            assert(kept.take(0) =~= Seq::empty());
            while i < self.rtts.len()
                invariant
                    self.paired(),
                    i <= self.rtts@.len(),
                    self@ == (RttWindowView {
                        samples: before.samples.skip(gone),
                        base_rtt: self@.base_rtt,
                        base_rtt_changed: true,
                        ..before
                    }),
                    kept == self@.samples,
                    self@.base_rtt == min_rtt(kept.take(i as int)),
                decreases self.rtts@.len() - i,
            {
                proof {
                    let next = kept.take(i + 1);
                    assert(next.drop_last() =~= kept.take(i as int));
                    assert(next.last() == (self.rtts@[i as int], self.times@[i as int]));
                }
                if self.rtts[i] < self.base_rtt {
                    self.base_rtt = self.rtts[i];
                }
                i += 1;
            }
            assert(kept.take(i as int) =~= kept);
        }
        // Drop the old probes.

        let ghost mid = self@;
        let ghost mut dropped: int = 0;
        assert(mid.probes.skip(0) =~= mid.probes);
        proof {
            lemma_count_increased_bound(mid.probes);
        }
        while self.increase.len() > MAX_PROBES
            invariant
                self.paired(),
                0 <= dropped <= mid.probes.len(),
                self@ == (RttWindowView {
                    probes: mid.probes.skip(dropped),
                    num_increase: self@.num_increase,
                    num_decrease: self@.num_decrease,
                    ..mid
                }),
                self@.num_increase == count_increased(self@.probes),
                self@.num_increase + self@.num_decrease == self@.probes.len(),
                mid.probes.len() > MAX_PROBES ==> dropped <= mid.probes.len() - MAX_PROBES,
                mid.probes.len() <= MAX_PROBES ==> dropped == 0,
            decreases self.increase@.len(),
        {
            let ghost cur = self@.probes;
            proof {
                lemma_count_increased_head(cur);
                lemma_count_increased_bound(cur.skip(1));
            }
            let increase: bool = self.increase[0].1;
            if increase {
                self.num_increase -= 1;
            } else {
                self.num_decrease -= 1;
            }
            self.increase.pop_front();
            proof {
                assert(self@.probes =~= cur.skip(1));
                assert(cur.skip(1) =~= mid.probes.skip(dropped + 1));
                dropped = dropped + 1;
            }
        }
        proof {
            lemma_stale_prefix(before.samples, cutoff);
            lemma_stale_prefix(self@.samples, cutoff);
            lemma_count_increased_bound(self@.probes);
        }
    }

    /// The number of retained samples.
    pub fn len(&self) -> (r: usize)
        ensures
            r == self@.samples.len(),
    {
        self.rtts.len()
    }

    /// The smoothed RTT in microseconds; 0 before the first sample.
    pub fn get_srtt(&self) -> (r: u32)
        ensures
            r == self@.srtt,
    {
        self.srtt
    }

    /// The smallest retained RTT; `u32::MAX` before the first sample.
    pub fn get_base_rtt(&self) -> (r: u32)
        ensures
            r == self@.base_rtt,
    {
        self.base_rtt
    }

    /// Whether the base RTT was set anew since this was last asked. Asking
    /// clears the flag.
    pub fn did_base_rtt_change(&mut self) -> (r: bool)
        ensures
            r == old(self)@.base_rtt_changed,
            final(self)@ == old(self)@.after_flag_read(),
            old(self).wf() ==> final(self).wf(),
    {
        let r = self.base_rtt_changed;
        self.base_rtt_changed = false;
        r
    }

    /// Takes in one RTT sample, `rtt` microseconds measured at time `now`.
    pub fn new_rtt_sample(&mut self, rtt: u32, now: u64)
        requires
            old(self).wf(),
        ensures
            final(self).wf(),
            final(self)@ == old(self)@.after_sample(rtt, now),
            final(self)@.samples.len() == old(self)@.samples.len() + 1 - stale_prefix_len(
                old(self)@.samples.push((rtt, now)),
                time_before(now, history_span(old(self)@.srtt) as int),
            ),
            final(self)@.samples.last() == (rtt, now),
            final(self)@.base_rtt == min_rtt(final(self)@.samples),
            final(self)@.base_rtt <= rtt,
    {
        let ghost before = self@;
        proof {
            lemma_after_sample_retains(before, rtt, now);
        }
        let srtts: u64 = HISTORY_SRTTS;
        assert(srtts == 30);
        let span: u64 = srtts * (self.srtt as u64);
        self.max_time = if span < MAX_HISTORY_US {
            span
        } else {
            MAX_HISTORY_US
        };

        // Push back data
        self.rtts.push_back(rtt);
        self.times.push_back(now);
        assert(self@.samples =~= before.samples.push((rtt, now)));
        assert(self@.samples.drop_last() =~= before.samples);

        // Update the base RTT
        if rtt < self.base_rtt {
            self.base_rtt = rtt;
            self.base_rtt_changed = true;
        }
        // Update srtt

        if self.srtt == 0 {
            self.srtt = rtt;
        } else {
            self.srtt = ((15 * (self.srtt as u64) + rtt as u64) / 16) as u32;
        }

        // Close a probe where one is due
        let due: bool = self.increase.len() == 0 || {
            let last_end: u64 = self.increase[self.increase.len() - 1].0;
            last_end as u128 + 2 * (self.base_rtt as u128) < now as u128
        };
        if due {
            let increase: bool = self.cur_min_rtt > self.prev_min_rtt;
            proof {
                lemma_count_increased_bound(self.increase@);
            }
            self.increase.push_back((now, increase));
            assert(self.increase@.drop_last() =~= before.probes);
            self.prev_min_rtt = self.cur_min_rtt;
            self.cur_min_rtt = u32::MAX;
            if increase {
                self.num_increase += 1;
            } else {
                self.num_decrease += 1;
            }
        }
        if rtt < self.cur_min_rtt {
            self.cur_min_rtt = rtt;
        }
        assert(self@ == before.with_sample(rtt, now));

        // Delete old data
        self.clear_old_hist(now);
    }

    /// Whether a loss-based sender seems to share the bottleneck. An empty
    /// window detects none.
    pub fn tcp_detected(&self) -> (r: bool)
        requires
            self.wf(),
        ensures
            r == self@.tcp_detected(),
    {
        if self.rtts.len() == 0 {
            return false;
        }
        let hi: u64 = self.times[self.times.len() - 1];
        let srtts: u64 = DETECT_SRTTS;
        assert(srtts == 10);
        let lo: u64 = hi.saturating_sub(srtts * (self.srtt as u64));
        let mut min1: u32 = u32::MAX;
        let mut max: u32 = 0;
        let ghost samples = self@.samples;

        let mut i: usize = 0;
        assert(samples.take(0) =~= Seq::empty());
        while i < self.rtts.len()
            invariant
                self.paired(),
                samples == self@.samples,
                i <= self.rtts@.len(),
                min1 == span_min(samples.take(i as int), lo, hi),
                max == span_max(samples.take(i as int), lo, hi),
            decreases self.rtts@.len() - i,
        {
            proof {
                assert(samples.take(i + 1).drop_last() =~= samples.take(i as int));
                assert(samples.take(i + 1).last() == (self.rtts@[i as int], self.times@[i as int]));
            }
            if lo <= self.times[i] && self.times[i] <= hi {
                if self.rtts[i] < min1 {
                    min1 = self.rtts[i];
                }
                if self.rtts[i] > max {
                    max = self.rtts[i];
                }
            }
            i += 1;
        }
        proof {
            assert(samples.take(i as int) =~= samples);
            lemma_span_bounds(samples, lo, hi);
            lemma_min_rtt_is_min(samples);
            assert(samples[samples.len() - 1].1 == hi);
        }
        let thresh: u64 = self.base_rtt as u64 + (max as u64 - self.base_rtt as u64) / 10
            + DETECT_SLACK_US;
        min1 as u64 > thresh
    }

    /// The number of retained probes in which the minimum RTT rose.
    pub fn get_num_increase(&self) -> (r: u32)
        ensures
            r == self@.num_increase,
            self.wf() ==> r == count_increased(self@.probes),
    {
        self.num_increase
    }

    /// The number of retained probes in which the minimum RTT did not rise.
    pub fn get_num_decrease(&self) -> (r: u32)
        ensures
            r == self@.num_decrease,
            self.wf() ==> r == self@.probes.len() - count_increased(self@.probes),
    {
        self.num_decrease
    }

    /// The number of retained probes.
    pub fn num_tcp_detect_samples(&self) -> (r: u32)
        requires
            self.wf(),
        ensures
            r == self@.probes.len(),
            r == self@.num_increase + self@.num_decrease,
    {
        self.num_increase + self.num_decrease
    }
}

} // verus!
