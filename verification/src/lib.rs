//! Copa, a delay-based congestion controller, as the per-flow logic of a
//! congestion-control plane.
//!
//! For each report of the datapath the controller decides a congestion
//! window and a pacing rate. It holds an RTT history window, a manager for
//! its parameter δ, and a collector that paces the reports it acts on.
//! Every quantity is an integer: fractions are held in fixed point.

use vstd::prelude::*;

pub mod agg_measurement;
pub mod delta_manager;
pub mod fixed;
pub mod rtt_window;

use agg_measurement::{AggMeasurement, AggMeasurementView, ReportFields, ReportStatus};
use delta_manager::{
    lemma_delta_stays_in_range, DeltaManager, DeltaManagerView, DeltaMode, DeltaModeConf,
};
use fixed::{inv_incremented, Delta, FIXED_ONE};
use rtt_window::{lemma_after_sample_wf, RTTWindow, RttWindowView};

verus! {

/// The largest velocity.
pub const MAX_VELOCITY: u32 = 0xffff;

/// Segment size, in bytes, by which a delay is held against the window.
pub const RATE_MSS: u64 = 1460;

/// Segment size, in bytes, by which the window moves.
pub const WINDOW_MSS: u64 = 1448;

/// Microseconds in a second.
pub const MICROS_PER_SEC: u64 = 1_000_000;

/// The collector hands reports on every half smoothed RTT.
pub const REPORTING_INTERVAL: u32 = 32768;

/// The name of the algorithm, and of its datapath program.
pub const COPA_NAME: &'static str = "copa";

/// The datapath field that takes the congestion window.
pub const CWND_FIELD: &'static str = "Cwnd";

/// The datapath field that takes the pacing rate.
pub const RATE_FIELD: &'static str = "Rate";

/// The datapath field that takes the base RTT.
pub const BASE_RTT_FIELD: &'static str = "base_rtt";

/// The program the datapath runs on every acknowledgement. It adds up the
/// bytes acknowledged, keeps the latest RTT and the smallest, and reports at
/// once on a timeout or a loss, and else every half base RTT.
pub const DATAPATH_PROGRAM: &'static str = "(def
                (Report
                    (volatile acked 0)
                    (volatile sacked 0)
                    (volatile loss 0)
                    (volatile inflight 0)
                    (volatile timeout 0)
                    (volatile rtt 0)
                    (volatile now 0)
                    (volatile minrtt +infinity)
               )
                (basertt +infinity)
            )
            (when true
                (:= Report.acked (+ Report.acked Ack.bytes_acked))
                (:= Report.inflight Flow.packets_in_flight)
                (:= Report.rtt Flow.rtt_sample_us)
                (:= Report.minrtt (min Report.minrtt Flow.rtt_sample_us))
                (:= basertt (min basertt Flow.rtt_sample_us))
                (:= Report.sacked (+ Report.sacked Ack.packets_misordered))
                (:= Report.loss Ack.lost_pkts_sample)
                (:= Report.timeout Flow.was_timeout)
                (:= Report.now Ack.now)
                (fallthrough)
            )
            (when (|| Flow.was_timeout (> Report.loss 0))
                (:= Micros 0)
                (report)
            )
            (when (> Micros (/ basertt 2))
                (:= Micros 0)
                (report)
            )";

/// How long the RTT `rtt` has queued above the base RTT.
pub open spec fn queuing_delay(rtt: u32, base_rtt: u32) -> int {
    if rtt > base_rtt {
        rtt - base_rtt
    } else {
        0
    }
}

/// Whether the window is to grow: `rtt · RATE_MSS > (rtt − base_rtt) · δ ·
/// cwnd`, with both sides multiplied by `1/δ`, which `inv` holds in units of
/// `1/FIXED_ONE`.
pub open spec fn should_increase(rtt: u32, base_rtt: u32, inv: u64, cwnd: u32) -> bool {
    rtt * RATE_MSS * inv > queuing_delay(rtt, base_rtt) * cwnd * FIXED_ONE
}

/// A direction count moved one step up for an increase, one step down
/// otherwise, held within `i64`.
pub open spec fn stepped(direction: i64, increase: bool) -> i64 {
    if increase {
        if direction < i64::MAX {
            (direction + 1) as i64
        } else {
            direction
        }
    } else {
        if direction > i64::MIN {
            (direction - 1) as i64
        } else {
            direction
        }
    }
}

/// Whether a move goes against the direction counted: up against a negative
/// count, down against a positive one.
pub open spec fn goes_against(increase: bool, direction: i64) -> bool {
    (increase && direction < 0) || (!increase && direction > 0)
}

/// Whether a move goes along the direction counted.
pub open spec fn goes_along(increase: bool, direction: i64) -> bool {
    (increase && direction > 0) || (!increase && direction < 0)
}

/// Whether two direction counts have the same sign, neither being zero.
pub open spec fn same_sign(a: i64, b: i64) -> bool {
    (a > 0 && b > 0) || (a < 0 && b < 0)
}

/// Twice the velocity, held at `MAX_VELOCITY`.
pub open spec fn doubled_velocity(velocity: u32) -> u32 {
    if 2 * velocity > MAX_VELOCITY {
        MAX_VELOCITY
    } else {
        (2 * velocity) as u32
    }
}

/// The integer `x` held within `u32`.
pub open spec fn clamped(x: int) -> u32 {
    if x > u32::MAX {
        u32::MAX
    } else if x < 0 {
        0
    } else {
        x as u32
    }
}

/// By how many bytes the window moves: `velocity · WINDOW_MSS · acked /
/// (cwnd · δ)` rounded down, with `1/δ` given by `inv` in units of
/// `1/FIXED_ONE`, held at `u32::MAX`. A window of no bytes does not move.
pub open spec fn window_change(velocity: u32, acked: u32, cwnd: u32, inv: u64) -> u32 {
    if cwnd == 0 {
        0
    } else {
        clamped(velocity * WINDOW_MSS * acked * inv / (cwnd * FIXED_ONE))
    }
}

/// The pacing rate in bytes per second: two windows per base RTT, held at
/// `u32::MAX`, which is also the rate for a base RTT of zero.
pub open spec fn pacing_rate(cwnd: u32, base_rtt: u32) -> u32 {
    if base_rtt == 0 {
        u32::MAX
    } else {
        clamped(2 * cwnd * MICROS_PER_SEC / (base_rtt as int))
    }
}

/// How a flow is to be set up.
#[derive(Clone, Copy, Debug)]
pub struct CopaConfig {
    /// The initial congestion window in bytes; 0 takes the datapath's.
    pub init_cwnd: u32,
    /// The δ used where no competitor is in sight, at most one.
    pub default_delta: Delta,
    /// How δ is to be chosen.
    pub delta_mode: DeltaModeConf,
}

/// What the datapath is to be told after a report.
#[derive(Clone, Copy, PartialEq, Eq, Structural, Debug)]
pub struct FlowUpdate {
    /// The new base RTT in microseconds, where it was set anew.
    pub base_rtt: Option<u32>,
    /// The congestion window in bytes.
    pub cwnd: u32,
    /// The pacing rate in bytes per second.
    pub rate: u32,
}

/// What a `Copa` holds.
pub struct CopaView {
    /// The congestion window in bytes.
    pub cwnd: u32,
    /// The window a flow starts from and never falls below.
    pub init_cwnd: u32,
    /// Whether the flow is in slow start.
    pub slow_start: bool,
    /// The factor by which a move along the standing direction is scaled.
    pub velocity: u32,
    /// Increases less decreases since the velocity was last brought up to date.
    pub cur_direction: i64,
    /// That count as it stood when the velocity was last brought up to date.
    pub prev_direction: i64,
    /// Since when the direction has stood.
    pub time_since_direction: u64,
    /// When the velocity was last brought up to date.
    pub prev_update_rtt: u64,
    /// The RTT window.
    pub rtt_win: RttWindowView,
    /// The delta manager.
    pub delta_manager: DeltaManagerView,
    /// The collector.
    pub agg_measurement: AggMeasurementView,
}

impl CopaView {
    /// A flow as it starts: in slow start from the configured window, or
    /// from the datapath's where none is configured.
    pub open spec fn initial(config: CopaConfig, datapath_init_cwnd: u32) -> CopaView {
        let init_cwnd = if config.init_cwnd != 0 {
            config.init_cwnd
        } else {
            datapath_init_cwnd
        };
        CopaView {
            cwnd: init_cwnd,
            init_cwnd,
            slow_start: true,
            velocity: 1,
            cur_direction: 0,
            prev_direction: 0,
            time_since_direction: 0,
            prev_update_rtt: 0,
            rtt_win: RttWindowView::empty(),
            delta_manager: DeltaManagerView::initial(
                config.default_delta.inverse(),
                config.delta_mode,
            ),
            agg_measurement: AggMeasurementView::initial(REPORTING_INTERVAL),
        }
    }

    /// What holds of a flow between two calls: the window is at least the
    /// initial one, the velocity lies in `1..=MAX_VELOCITY`, and the parts are
    /// well formed, so that 0 < δ ≤ default δ.
    pub open spec fn wf(self) -> bool {
        &&& self.cwnd >= self.init_cwnd
        &&& 1 <= self.velocity <= MAX_VELOCITY
        &&& self.rtt_win.wf()
        &&& self.delta_manager.wf()
        &&& self.agg_measurement.wf()
    }

    /// Whether the window is to grow for the RTT `rtt`.
    pub open spec fn increase(self, rtt: u32) -> bool {
        should_increase(rtt, self.rtt_win.base_rtt, self.delta_manager.inv, self.cwnd)
    }

    /// The flow after a timeout: back in slow start from the initial window.
    pub open spec fn timed_out(self) -> CopaView {
        CopaView { cwnd: self.init_cwnd, slow_start: true, ..self }
    }

    /// The flow once this call's move is counted: the direction count takes
    /// one step, and a move against the standing direction brings a velocity
    /// above one back to one.
    pub open spec fn with_move(self, increase: bool, now: u64) -> CopaView {
        let reversed = self.velocity > 1 && goes_against(increase, self.prev_direction);
        CopaView {
            cur_direction: stepped(self.cur_direction, increase),
            velocity: if reversed {
                1
            } else {
                self.velocity
            },
            time_since_direction: if reversed {
                now
            } else {
                self.time_since_direction
            },
            ..self
        }
    }

    /// Whether the velocity is brought up to date at `now`: not in slow
    /// start, and at least two RTTs after it last was.
    pub open spec fn velocity_due(self, rtt: u32, now: u64) -> bool {
        !self.slow_start && now - self.prev_update_rtt >= 2 * rtt
    }

    /// The flow once the velocity is brought up to date: doubled where the
    /// direction has stood for more than three RTTs, else back to one with
    /// the direction standing from `now`; the direction count starts anew.
    pub open spec fn with_velocity(self, rtt: u32, now: u64) -> CopaView {
        if same_sign(self.prev_direction, self.cur_direction) && now - self.time_since_direction
            > 3 * rtt {
            CopaView {
                velocity: doubled_velocity(self.velocity),
                prev_direction: self.cur_direction,
                cur_direction: 0,
                prev_update_rtt: now,
                ..self
            }
        } else {
            CopaView {
                velocity: 1,
                time_since_direction: now,
                prev_direction: self.cur_direction,
                cur_direction: 0,
                prev_update_rtt: now,
                ..self
            }
        }
    }

    /// The velocity applied to this call's move: the flow's where the move
    /// goes along the standing direction, else one.
    pub open spec fn effective_velocity(self, increase: bool) -> u32 {
        if goes_along(increase, self.prev_direction) {
            self.velocity
        } else {
            1
        }
    }

    /// The `1/δ` applied to this call's move: the manager's, and one more on
    /// a decrease while competing as TCP does.
    pub open spec fn effective_inv(self, increase: bool) -> u64 {
        if !increase && self.delta_manager.cur_mode == DeltaMode::TCPCoop {
            inv_incremented(self.delta_manager.inv)
        } else {
            self.delta_manager.inv
        }
    }

    /// The flow once the window has moved. In slow start an increase adds
    /// the bytes acknowledged and anything else ends slow start. After slow
    /// start the window moves by `window_change`; a decrease that would take
    /// it below the initial window sets it there, with the velocity back to
    /// one.
    pub open spec fn with_window(self, increase: bool, acked: u32, now: u64) -> CopaView {
        if self.slow_start {
            if increase {
                CopaView { cwnd: clamped(self.cwnd + acked), ..self }
            } else {
                CopaView { slow_start: false, ..self }
            }
        } else {
            let change = window_change(
                self.effective_velocity(increase),
                acked,
                self.cwnd,
                self.effective_inv(increase),
            );
            if increase {
                CopaView { cwnd: clamped(self.cwnd + change), ..self }
            } else if change + self.init_cwnd > self.cwnd {
                CopaView {
                    cwnd: self.init_cwnd,
                    velocity: 1,
                    time_since_direction: now,
                    ..self
                }
            } else {
                CopaView { cwnd: (self.cwnd - change) as u32, ..self }
            }
        }
    }

    /// The flow after the delay-control rule is run for the RTT `rtt`, with
    /// `actual_acked` bytes acknowledged, at `now`.
    pub open spec fn after_delay_control(self, rtt: u32, actual_acked: u32, now: u64) -> CopaView {
        let increase = self.increase(rtt);
        let acked = if actual_acked > self.cwnd {
            self.cwnd
        } else {
            actual_acked
        };
        let moved = self.with_move(increase, now);
        let paced = if moved.velocity_due(rtt, now) {
            moved.with_velocity(rtt, now)
        } else {
            moved
        };
        paced.with_window(increase, acked, now)
    }

    /// The flow with the sample in its RTT window, the change flag read, and
    /// the manager told of the measurement.
    pub open spec fn with_measurement(
        self,
        acked: u32,
        loss: u32,
        min_rtt: u32,
        now: u64,
    ) -> CopaView {
        let rtt_win = self.rtt_win.after_sample(min_rtt, now).after_flag_read();
        CopaView {
            rtt_win,
            delta_manager: self.delta_manager.after_measurement(
                rtt_win.base_rtt,
                rtt_win.probes.len() as int,
                rtt_win.tcp_detected(),
                acked,
                loss,
                now,
            ),
            ..self
        }
    }

    /// The flow with the manager told of a loss or a timeout.
    pub open spec fn with_urgent(self, was_timeout: bool, loss: u32, now: u64) -> CopaView {
        let s = if was_timeout {
            self.timed_out()
        } else {
            self
        };
        CopaView {
            delta_manager: s.delta_manager.after_measurement(
                s.rtt_win.base_rtt,
                s.rtt_win.probes.len() as int,
                s.rtt_win.tcp_detected(),
                0,
                loss,
                now,
            ),
            ..s
        }
    }

    /// Whether the report `m` brings a sample to act on: the collector hands
    /// an aggregate on, and it is not empty.
    pub open spec fn acts_on(self, m: ReportFields) -> bool {
        let (status, _was_timeout, acked, sacked, loss, _inflight, _rtt, _min_rtt, _now) =
            self.agg_measurement.outcome(m);
        status == ReportStatus::Report && acked + loss + sacked != 0
    }

    /// The flow after the report `m`.
    pub open spec fn after_report(self, m: ReportFields) -> CopaView {
        let (status, was_timeout, acked, _sacked, loss, _inflight, _rtt, min_rtt, now) =
            self.agg_measurement.outcome(m);
        let s = CopaView { agg_measurement: self.agg_measurement.after_report(m), ..self };
        if status == ReportStatus::UrgentReport {
            s.with_urgent(was_timeout, loss, now)
        } else if self.acts_on(m) {
            s.with_measurement(acked, loss, min_rtt, now).after_delay_control(min_rtt, acked, now)
        } else {
            s
        }
    }

    /// The flow after the reports `reports`, taken in order.
    pub open spec fn after_reports(self, reports: Seq<ReportFields>) -> CopaView
        decreases reports.len(),
    {
        if reports.len() == 0 {
            self
        } else {
            self.after_reports(reports.drop_last()).after_report(reports.last())
        }
    }

    /// What the datapath is to be told now.
    pub open spec fn update(self) -> FlowUpdate {
        FlowUpdate {
            base_rtt: None,
            cwnd: self.cwnd,
            rate: pacing_rate(self.cwnd, self.rtt_win.base_rtt),
        }
    }

    /// What the datapath is to be told after the report `m`: the window and
    /// the rate, and the base RTT where the sample set it anew.
    pub open spec fn update_after(self, m: ReportFields) -> FlowUpdate {
        let (_status, _was_timeout, _acked, _sacked, _loss, _inflight, _rtt, min_rtt, now) =
            self.agg_measurement.outcome(m);
        let after = self.after_report(m);
        FlowUpdate {
            base_rtt: if self.acts_on(m) && self.rtt_win.after_sample(
                min_rtt,
                now,
            ).base_rtt_changed {
                Some(after.rtt_win.base_rtt)
            } else {
                None
            },
            ..after.update()
        }
    }
}

/// At the base RTT nothing queues, so an RTT above zero calls for an
/// increase, whatever δ and the window.
pub proof fn lemma_increase_at_base_rtt(rtt: u32, inv: u64, cwnd: u32)
    requires
        rtt > 0,
        inv > 0,
    ensures
        should_increase(rtt, rtt, inv, cwnd),
{
    assert(rtt * RATE_MSS * inv > 0) by (nonlinear_arith)
        requires
            rtt > 0,
            inv > 0,
            RATE_MSS == 1460,
    ;
    assert(queuing_delay(rtt, rtt) * cwnd * FIXED_ONE == 0) by (nonlinear_arith)
        requires
            queuing_delay(rtt, rtt) == 0,
    ;
}

/// A velocity in range stays in range when doubled, and the largest one is
/// left as it is.
pub proof fn lemma_doubled_velocity_in_range(velocity: u32)
    requires
        1 <= velocity <= MAX_VELOCITY,
    ensures
        1 <= doubled_velocity(velocity) <= MAX_VELOCITY,
        velocity <= doubled_velocity(velocity),
        doubled_velocity(MAX_VELOCITY) == MAX_VELOCITY,
{
}

/// The delay-control rule keeps the window at or above the initial one and
/// the velocity in range, and leaves the initial window, the RTT window, the
/// manager and the collector alone.
pub proof fn lemma_delay_control_keeps_wf(v: CopaView, rtt: u32, actual_acked: u32, now: u64)
    requires
        v.wf(),
    ensures
        ({
            let after = v.after_delay_control(rtt, actual_acked, now);
            &&& after.wf()
            &&& after.init_cwnd == v.init_cwnd
            &&& after.rtt_win == v.rtt_win
            &&& after.delta_manager == v.delta_manager
            &&& after.agg_measurement == v.agg_measurement
        }),
{
}

/// With the RTT at the base RTT, and above zero, the rule grows the window:
/// in slow start by the bytes acknowledged, as far as the window itself;
/// after slow start by `window_change` at the velocity then in force.
pub proof fn lemma_window_grows_at_base_rtt(v: CopaView, rtt: u32, actual_acked: u32, now: u64)
    requires
        v.wf(),
        rtt == v.rtt_win.base_rtt,
        rtt > 0,
    ensures
        ({
            let after = v.after_delay_control(rtt, actual_acked, now);
            let acked = if actual_acked > v.cwnd {
                v.cwnd
            } else {
                actual_acked
            };
            &&& v.increase(rtt)
            &&& after.cwnd >= v.cwnd
            &&& after.slow_start == v.slow_start
            &&& v.slow_start ==> after.cwnd == clamped(v.cwnd + acked)
            &&& !v.slow_start ==> after.cwnd == clamped(
                v.cwnd + window_change(
                    after.effective_velocity(true),
                    acked,
                    v.cwnd,
                    v.delta_manager.inv,
                ),
            )
        }),
{
    lemma_increase_at_base_rtt(rtt, v.delta_manager.inv, v.cwnd);
}

/// A flow at the largest velocity whose direction has stood for more than
/// three RTTs keeps that velocity when it is brought up to date.
pub proof fn lemma_velocity_holds_at_max(v: CopaView, rtt: u32, now: u64)
    requires
        v.velocity == MAX_VELOCITY,
        same_sign(v.prev_direction, v.cur_direction),
        now - v.time_since_direction > 3 * rtt,
    ensures
        v.with_velocity(rtt, now).velocity == MAX_VELOCITY,
{
}

/// A report that the collector holds back leaves the window, the velocity
/// and δ as they were; so does all else but the collector.
pub proof fn lemma_no_report_changes_nothing(v: CopaView, m: ReportFields)
    requires
        v.agg_measurement.status(m) == ReportStatus::NoReport,
    ensures
        v.after_report(m) == (CopaView {
            agg_measurement: v.agg_measurement.after_report(m),
            ..v
        }),
        v.after_report(m).cwnd == v.cwnd,
        v.after_report(m).velocity == v.velocity,
        v.after_report(m).delta_manager.inv == v.delta_manager.inv,
{
}

/// A report of a timeout takes the flow back to its initial window and into
/// slow start, whatever came before.
pub proof fn lemma_timeout_resets(v: CopaView, m: ReportFields)
    requires
        m.timeout,
    ensures
        v.agg_measurement.status(m) == ReportStatus::UrgentReport,
        v.after_report(m).cwnd == v.init_cwnd,
        v.after_report(m).slow_start,
        v.after_report(m).init_cwnd == v.init_cwnd,
{
}

/// A well-formed flow is well formed after a report: the window is at
/// least the initial one, the velocity lies in `1..=MAX_VELOCITY`, δ is
/// positive and at most the default, the base RTT is the smallest RTT
/// retained, and the probe counts are those of the retained probes. The
/// initial window and the default δ stay as they are.
pub proof fn lemma_after_report_wf(v: CopaView, m: ReportFields)
    requires
        v.wf(),
    ensures
        v.after_report(m).wf(),
        v.after_report(m).init_cwnd == v.init_cwnd,
        v.after_report(m).delta_manager.default_inv == v.delta_manager.default_inv,
{
    let (status, was_timeout, acked, _sacked, loss, _inflight, _rtt, min_rtt, now) =
        v.agg_measurement.outcome(m);
    agg_measurement::lemma_after_report_wf(v.agg_measurement, m);
    let s = CopaView { agg_measurement: v.agg_measurement.after_report(m), ..v };
    if status == ReportStatus::UrgentReport {
        let t = if was_timeout {
            s.timed_out()
        } else {
            s
        };
        lemma_delta_stays_in_range(
            t.delta_manager,
            t.rtt_win.base_rtt,
            t.rtt_win.probes.len() as int,
            t.rtt_win.tcp_detected(),
            0,
            loss,
            now,
        );
    } else if v.acts_on(m) {
        lemma_after_sample_wf(s.rtt_win, min_rtt, now);
        let rtt_win = s.rtt_win.after_sample(min_rtt, now).after_flag_read();
        lemma_delta_stays_in_range(
            s.delta_manager,
            rtt_win.base_rtt,
            rtt_win.probes.len() as int,
            rtt_win.tcp_detected(),
            acked,
            loss,
            now,
        );
        let measured = s.with_measurement(acked, loss, min_rtt, now);
        assert(measured.wf());
        lemma_delay_control_keeps_wf(measured, min_rtt, acked, now);
    }
}

/// A flow set up with a default δ of at most one is well formed.
pub proof fn lemma_initial_wf(config: CopaConfig, datapath_init_cwnd: u32)
    requires
        config.default_delta.at_most_one(),
    ensures
        CopaView::initial(config, datapath_init_cwnd).wf(),
{
}

/// Whatever the reports, a flow that was well formed stays so: after every
/// report the window is at least the initial one, the velocity lies in
/// `1..=MAX_VELOCITY`, and δ is positive and at most the default.
pub proof fn lemma_wf_on_every_trace(v: CopaView, reports: Seq<ReportFields>)
    requires
        v.wf(),
    ensures
        v.after_reports(reports).wf(),
        v.after_reports(reports).init_cwnd == v.init_cwnd,
        v.after_reports(reports).cwnd >= v.init_cwnd,
        1 <= v.after_reports(reports).velocity <= MAX_VELOCITY,
        v.after_reports(reports).delta_manager.default_inv == v.delta_manager.default_inv,
        FIXED_ONE <= v.delta_manager.default_inv <= v.after_reports(reports).delta_manager.inv,
    decreases reports.len(),
{
    if reports.len() > 0 {
        lemma_wf_on_every_trace(v, reports.drop_last());
        lemma_after_report_wf(v.after_reports(reports.drop_last()), reports.last());
    }
}

/// A flow that has left slow start stays out of it for as long as no report
/// tells of a timeout.
pub proof fn lemma_slow_start_stays_off(v: CopaView, reports: Seq<ReportFields>)
    requires
        v.wf(),
        !v.slow_start,
        forall|i: int| 0 <= i < reports.len() ==> !(#[trigger] reports[i]).timeout,
    ensures
        !v.after_reports(reports).slow_start,
    decreases reports.len(),
{
    if reports.len() > 0 {
        let init = reports.drop_last();
        assert forall|i: int| 0 <= i < init.len() implies !(#[trigger] init[i]).timeout by {
            assert(init[i] == reports[i]);
        }
        lemma_slow_start_stays_off(v, init);
        lemma_wf_on_every_trace(v, init);
        lemma_slow_start_only_by_timeout(v.after_reports(init), reports.last());
    }
}

/// A flow that has left slow start is taken back into it by a timeout only.
pub proof fn lemma_slow_start_only_by_timeout(v: CopaView, m: ReportFields)
    requires
        v.wf(),
        !v.slow_start,
        !m.timeout,
    ensures
        !v.after_report(m).slow_start,
{
    let (_status, _was_timeout, acked, _sacked, loss, _inflight, _rtt, min_rtt, now) =
        v.agg_measurement.outcome(m);
    let s = CopaView { agg_measurement: v.agg_measurement.after_report(m), ..v };
    if v.acts_on(m) {
        lemma_delay_control_keeps_slow_start(
            s.with_measurement(acked, loss, min_rtt, now),
            min_rtt,
            acked,
            now,
        );
    }
}

/// The delay-control rule never takes a flow back into slow start.
pub proof fn lemma_delay_control_keeps_slow_start(
    v: CopaView,
    rtt: u32,
    actual_acked: u32,
    now: u64,
)
    ensures
        v.after_delay_control(rtt, actual_acked, now).slow_start ==> v.slow_start,
{
}

/// The state of one flow.
pub struct Copa {
    delta_manager: DeltaManager,
    cwnd: u32,
    init_cwnd: u32,
    slow_start: bool,
    rtt_win: RTTWindow,
    velocity: u32,
    cur_direction: i64,
    prev_direction: i64,
    time_since_direction: u64,
    prev_update_rtt: u64,
    agg_measurement: AggMeasurement,
}

impl View for Copa {
    type V = CopaView;

    closed spec fn view(&self) -> CopaView {
        CopaView {
            cwnd: self.cwnd,
            init_cwnd: self.init_cwnd,
            slow_start: self.slow_start,
            velocity: self.velocity,
            cur_direction: self.cur_direction,
            prev_direction: self.prev_direction,
            time_since_direction: self.time_since_direction,
            prev_update_rtt: self.prev_update_rtt,
            rtt_win: self.rtt_win@,
            delta_manager: self.delta_manager@,
            agg_measurement: self.agg_measurement@,
        }
    }
}

impl CopaConfig {
    /// The name of the algorithm.
    pub fn name() -> (r: &'static str)
        ensures
            r@ == COPA_NAME@,
    {
        COPA_NAME
    }

    /// The programs to install in the datapath, each with its name: the one
    /// program `DATAPATH_PROGRAM`, under the name of the algorithm.
    pub fn datapath_programs(&self) -> (r: Vec<(&'static str, String)>)
        ensures
            r@.len() == 1,
            r@[0].0@ == COPA_NAME@,
            r@[0].1@ == DATAPATH_PROGRAM@,
    {
        let mut programs: Vec<(&'static str, String)> = Vec::new();
        programs.push((COPA_NAME, DATAPATH_PROGRAM.to_string()));
        programs
    }

    /// A new flow. `datapath_init_cwnd` is the initial window of the
    /// datapath, taken where the configuration names none. The default δ is
    /// at most one.
    pub fn new_flow(&self, datapath_init_cwnd: u32) -> (flow: Copa)
        requires
            self.default_delta.at_most_one(),
        ensures
            flow.wf(),
            flow@ == CopaView::initial(*self, datapath_init_cwnd),
    {
        let mut s = Copa {
            cwnd: datapath_init_cwnd,
            init_cwnd: datapath_init_cwnd,
            delta_manager: DeltaManager::new(self.default_delta, self.delta_mode),
            slow_start: true,
            rtt_win: RTTWindow::new(),
            velocity: 1,
            cur_direction: 0,
            prev_direction: 0,
            time_since_direction: 0,
            prev_update_rtt: 0,
            agg_measurement: AggMeasurement::new(REPORTING_INTERVAL),
        };
        if self.init_cwnd != 0 {
            s.cwnd = self.init_cwnd;
            s.init_cwnd = self.init_cwnd;
        }
        s
    }
}

impl Copa {
    /// The RTT window pairs its RTTs with their times.
    pub closed spec fn paired(&self) -> bool {
        self.rtt_win.paired()
    }

    /// What holds of a flow between two calls.
    pub open spec fn wf(&self) -> bool {
        self.paired() && self@.wf()
    }

    /// The congestion window in bytes.
    pub fn get_cwnd(&self) -> (r: u32)
        ensures
            r == self@.cwnd,
    {
        self.cwnd
    }

    /// The window the flow started from.
    pub fn get_init_cwnd(&self) -> (r: u32)
        ensures
            r == self@.init_cwnd,
    {
        self.init_cwnd
    }

    /// Whether the flow is in slow start.
    pub fn in_slow_start(&self) -> (r: bool)
        ensures
            r == self@.slow_start,
    {
        self.slow_start
    }

    /// The velocity.
    pub fn get_velocity(&self) -> (r: u32)
        ensures
            r == self@.velocity,
    {
        self.velocity
    }

    /// The current δ.
    pub fn get_delta(&self) -> (d: Delta)
        ensures
            d.inverse() == self@.delta_manager.inv,
    {
        self.delta_manager.get_delta()
    }

    /// The mode δ is chosen in.
    pub fn get_mode(&self) -> (m: DeltaMode)
        ensures
            m == self@.delta_manager.cur_mode,
    {
        self.delta_manager.get_mode()
    }

    /// The base RTT in microseconds; `u32::MAX` before the first sample.
    pub fn get_base_rtt(&self) -> (r: u32)
        ensures
            r == self@.rtt_win.base_rtt,
    {
        self.rtt_win.get_base_rtt()
    }

    /// The pacing rate in bytes per second.
    pub fn compute_rate(&self) -> (r: u32)
        ensures
            r == pacing_rate(self@.cwnd, self@.rtt_win.base_rtt),
    {
        let base_rtt: u32 = self.rtt_win.get_base_rtt();
        if base_rtt == 0 {
            return u32::MAX;
        }
        let second: u64 = MICROS_PER_SEC;
        assert(second == 1_000_000);
        let rate: u64 = 2 * (self.cwnd as u64) * second / (base_rtt as u64);
        if rate > u32::MAX as u64 {
            u32::MAX
        } else {
            rate as u32
        }
    }

    /// What the datapath is to be told now: the window and the rate.
    pub fn update(&self) -> (r: FlowUpdate)
        ensures
            r == self@.update(),
    {
        FlowUpdate { base_rtt: None, cwnd: self.cwnd, rate: self.compute_rate() }
    }

    /// Whether the window is to grow for the RTT `rtt`.
    fn increase(&self, rtt: u32) -> (r: bool)
        ensures
            r == self@.increase(rtt),
    {
        let base_rtt: u32 = self.rtt_win.get_base_rtt();
        let inv: u128 = self.delta_manager.get_delta().inverse_scaled() as u128;
        let queued: u128 = if rtt > base_rtt {
            (rtt - base_rtt) as u128
        } else {
            0
        };
        let cwnd: u128 = self.cwnd as u128;
        let mss: u128 = RATE_MSS as u128;
        let one: u128 = FIXED_ONE as u128;
        assert(mss == 1460 && one == 65536);
        let sample: u128 = rtt as u128 * mss;
        assert(sample * inv <= 0xffff_ffff * 1460 * 0xffff_ffff_ffff_ffff) by (nonlinear_arith)
            requires
                sample <= 0xffff_ffff * 1460,
                inv <= 0xffff_ffff_ffff_ffff,
        ;
        assert(queued * cwnd <= 0xffff_ffff * 0xffff_ffff) by (nonlinear_arith)
            requires
                queued <= 0xffff_ffff,
                cwnd <= 0xffff_ffff,
        ;
        let queue: u128 = queued * cwnd;
        sample * inv > queue * one
    }

    /// By how many bytes the window moves for `acked` bytes acknowledged.
    fn change(&self, velocity: u32, acked: u32, delta: Delta) -> (r: u32)
        requires
            velocity <= MAX_VELOCITY,
        ensures
            r == window_change(velocity, acked, self@.cwnd, delta.inverse()),
    {
        if self.cwnd == 0 {
            return 0;
        }
        // Multiply first so that the division rounds once.

        let mss: u128 = WINDOW_MSS as u128;
        let one: u128 = FIXED_ONE as u128;
        assert(mss == 1448 && one == 65536);
        let scaled: u128 = velocity as u128 * mss;
        let acked: u128 = acked as u128;
        let inv: u128 = delta.inverse_scaled() as u128;
        assert(scaled * acked <= 0xffff * 1448 * 0xffff_ffff) by (nonlinear_arith)
            requires
                scaled <= 0xffff * 1448,
                acked <= 0xffff_ffff,
        ;
        let bytes: u128 = scaled * acked;
        assert(bytes * inv <= 0xffff * 1448 * 0xffff_ffff * 0xffff_ffff_ffff_ffff)
            by (nonlinear_arith)
            requires
                bytes <= 0xffff * 1448 * 0xffff_ffff,
                inv <= 0xffff_ffff_ffff_ffff,
        ;
        let window: u128 = self.cwnd as u128 * one;
        let change: u128 = bytes * inv / window;
        if change > u32::MAX as u128 {
            u32::MAX
        } else {
            change as u32
        }
    }

    /// Counts this call's move, and brings a velocity above one back to one
    /// where the move goes against the standing direction.
    fn count_move(&mut self, increase: bool, now: u64)
        ensures
            final(self)@ == old(self)@.with_move(increase, now),
            final(self).paired() == old(self).paired(),
    {
        if increase {
            if self.cur_direction < i64::MAX {
                self.cur_direction += 1;
            }
        } else {
            if self.cur_direction > i64::MIN {
                self.cur_direction -= 1;
            }
        }

        if self.velocity > 1 && ((increase && self.prev_direction < 0) || (!increase
            && self.prev_direction > 0)) {
            self.velocity = 1;
            self.time_since_direction = now;
        }
    }

    /// Brings the velocity up to date and starts the direction count anew.
    fn update_velocity(&mut self, rtt: u32, now: u64)
        requires
            old(self)@.velocity <= MAX_VELOCITY,
        ensures
            final(self)@ == old(self)@.with_velocity(rtt, now),
            final(self).paired() == old(self).paired(),
    {
        if ((self.prev_direction > 0 && self.cur_direction > 0) || (self.prev_direction < 0
            && self.cur_direction < 0)) && now >= self.time_since_direction && now
            - self.time_since_direction > 3 * (rtt as u64) {
            if self.velocity > MAX_VELOCITY / 2 {
                self.velocity = MAX_VELOCITY;
            } else {
                self.velocity *= 2;
            }
        } else {
            self.velocity = 1;
            self.time_since_direction = now;
        }
        self.prev_direction = self.cur_direction;
        self.cur_direction = 0;
        self.prev_update_rtt = now;
    }

    /// Moves the window for `acked` bytes acknowledged.
    fn change_window(&mut self, increase: bool, acked: u32, now: u64)
        requires
            old(self)@.velocity <= MAX_VELOCITY,
            old(self)@.delta_manager.inv > 0,
        ensures
            final(self)@ == old(self)@.with_window(increase, acked, now),
            final(self).paired() == old(self).paired(),
    {
        if self.slow_start {
            if increase {
                self.cwnd = self.cwnd.saturating_add(acked);
            } else {
                self.slow_start = false;
            }
        } else {
            let mut velocity: u32 = 1;
            if (increase && self.prev_direction > 0) || (!increase && self.prev_direction < 0) {
                velocity = self.velocity;
            }
            // While competing as TCP does, delta changes with time. Account
            // for that.

            let delta: Delta = if !increase && self.delta_manager.get_mode()
                == DeltaMode::TCPCoop {
                self.delta_manager.get_delta().stepped_down()
            } else {
                self.delta_manager.get_delta()
            };
            let change: u32 = self.change(velocity, acked, delta);

            if increase {
                self.cwnd = self.cwnd.saturating_add(change);
            } else {
                if change as u64 + self.init_cwnd as u64 > self.cwnd as u64 {
                    self.cwnd = self.init_cwnd;
                    self.velocity = 1;
                    self.time_since_direction = now;
                } else {
                    self.cwnd -= change;
                }
            }
        }
    }

    /// Runs the delay-control rule for the RTT `rtt`, with `actual_acked`
    /// bytes acknowledged, at `now`: counts the move, brings the velocity up
    /// to date where that is due, and moves the window.
    pub fn delay_control(&mut self, rtt: u32, actual_acked: u32, now: u64)
        requires
            old(self).wf(),
        ensures
            final(self).wf(),
            final(self)@ == old(self)@.after_delay_control(rtt, actual_acked, now),
            final(self)@.cwnd >= final(self)@.init_cwnd,
            1 <= final(self)@.velocity <= MAX_VELOCITY,
            final(self)@.slow_start ==> old(self)@.slow_start,
    {
        proof {
            lemma_delay_control_keeps_wf(self@, rtt, actual_acked, now);
            lemma_delay_control_keeps_slow_start(self@, rtt, actual_acked, now);
        }
        let increase: bool = self.increase(rtt);

        let mut acked: u32 = actual_acked;
        // The datapath may report after much longer than was asked for, and
        // then a great many bytes at once.
        if actual_acked > self.cwnd {
            acked = self.cwnd;
        }
        self.count_move(increase, now);
        if !self.slow_start && now >= self.prev_update_rtt && now - self.prev_update_rtt >= 2 * (
        rtt as u64) {
            self.update_velocity(rtt, now);
        }
        self.change_window(increase, acked, now);
    }

    /// Takes the flow back to its initial window and into slow start.
    pub fn handle_timeout(&mut self)
        ensures
            final(self)@ == old(self)@.timed_out(),
            old(self).wf() ==> final(self).wf(),
    {
        self.cwnd = self.init_cwnd;
        self.slow_start = true;
    }

    /// Takes in one report of the datapath and says what the datapath is to
    /// be told. A loss or a timeout is acted on at once; other reports are
    /// added up until the collector hands the aggregate on, and then the RTT
    /// window takes the sample, the manager sets δ, and the delay-control
    /// rule moves the window.
    pub fn on_report(&mut self, _sock_id: u32, m: ReportFields) -> (r: FlowUpdate)
        requires
            old(self).wf(),
        ensures
            final(self).wf(),
            final(self)@ == old(self)@.after_report(m),
            r == old(self)@.update_after(m),
            final(self)@.init_cwnd == old(self)@.init_cwnd,
            final(self)@.cwnd >= final(self)@.init_cwnd,
            1 <= final(self)@.velocity <= MAX_VELOCITY,
            FIXED_ONE <= final(self)@.delta_manager.default_inv <= final(self)@.delta_manager.inv,
            final(self)@.delta_manager.default_inv == old(self)@.delta_manager.default_inv,
            final(self)@.slow_start ==> old(self)@.slow_start || m.timeout,
            m.timeout ==> final(self)@.slow_start && final(self)@.cwnd == final(self)@.init_cwnd,
            old(self)@.agg_measurement.status(m) == ReportStatus::NoReport ==> {
                &&& final(self)@.cwnd == old(self)@.cwnd
                &&& final(self)@.velocity == old(self)@.velocity
                &&& final(self)@.delta_manager == old(self)@.delta_manager
            },
    {
        let (report_status, was_timeout, acked, sacked, loss, _inflight, _rtt, min_rtt, now) =
            self.agg_measurement.report(m);
        let mut base_rtt: Option<u32> = None;
        if report_status == ReportStatus::UrgentReport {
            if was_timeout {
                self.handle_timeout();
            }
            self.delta_manager.report_measurement(&self.rtt_win, 0, loss, now);
        } else if report_status == ReportStatus::NoReport || acked as u64 + loss as u64
            + sacked as u64 == 0 {
            // Do nothing
        } else {
            // Record RTT
            self.rtt_win.new_rtt_sample(min_rtt, now);
            if self.rtt_win.did_base_rtt_change() {
                base_rtt = Some(self.rtt_win.get_base_rtt());
            }
            // Update delta mode and delta

            self.delta_manager.report_measurement(&self.rtt_win, acked, loss, now);

            // Increase/decrease the cwnd corresponding to new measurements
            self.delay_control(min_rtt, acked, now);
        }
        // The decisions for the datapath

        FlowUpdate { base_rtt, cwnd: self.cwnd, rate: self.compute_rate() }
    }
}

} // verus!
