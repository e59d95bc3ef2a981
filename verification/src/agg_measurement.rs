//! The aggregating collector. The datapath may report more often than the
//! controller wants to act: the collector adds reports up until a fraction
//! of a smoothed RTT has passed, and lets a loss or a timeout through at once.

use crate::fixed::FIXED_ONE;
use vstd::prelude::*;

verus! {

/// The smoothed RTT gives each new sample one part in this many.
pub const SRTT_WEIGHT: u64 = 16;

/// The report field that holds the bytes acknowledged.
pub const ACKED_FIELD: &'static str = "Report.acked";

/// The report field that holds the packets acknowledged out of order.
pub const SACKED_FIELD: &'static str = "Report.sacked";

/// The report field that tells of a timeout.
pub const TIMEOUT_FIELD: &'static str = "Report.timeout";

/// The report field that holds the packets in flight.
pub const INFLIGHT_FIELD: &'static str = "Report.inflight";

/// The report field that holds the packets lost.
pub const LOSS_FIELD: &'static str = "Report.loss";

/// The report field that holds the latest RTT.
pub const RTT_FIELD: &'static str = "Report.rtt";

/// The report field that holds the datapath's clock.
pub const NOW_FIELD: &'static str = "Report.now";

/// The report field that holds the smallest RTT.
pub const MINRTT_FIELD: &'static str = "Report.minrtt";

/// What the collector makes of a report.
#[derive(Clone, Copy, PartialEq, Eq, Structural, Debug)]
pub enum ReportStatus {
    /// The interval has passed: the aggregate is handed on.
    Report,
    /// Nothing to act on yet.
    NoReport,
    /// A loss or a timeout: handed on at once.
    UrgentReport,
}

/// The fields of one report from the datapath.
#[derive(Clone, Copy, PartialEq, Eq, Structural, Debug)]
pub struct ReportFields {
    /// Bytes acknowledged since the last report.
    pub acked: u32,
    /// Packets acknowledged out of order.
    pub sacked: u32,
    /// Whether the flow timed out.
    pub timeout: bool,
    /// Packets in flight.
    pub inflight: u32,
    /// Packets lost.
    pub loss: u32,
    /// The latest RTT sample, in microseconds; 0 for none.
    pub rtt: u32,
    /// The datapath's clock, in microseconds.
    pub now: u64,
    /// The smallest RTT since the last report, in microseconds.
    pub minrtt: u32,
}

/// The smoothed RTT, in units of `1/FIXED_ONE` microseconds, after the sample
/// `rtt`: fifteen parts of the old value and one of the sample, rounded down.
pub open spec fn smoothed_fixed(srtt: u64, rtt: u32) -> int {
    (rtt * FIXED_ONE + (SRTT_WEIGHT - 1) * srtt) / (SRTT_WEIGHT as int)
}

/// Whether the aggregate is due at `now`: more than the fraction
/// `reporting_interval / FIXED_ONE` of the smoothed RTT `srtt / FIXED_ONE` has
/// passed since `last_report_time`.
pub open spec fn report_due(
    now: u64,
    last_report_time: u64,
    srtt: u64,
    reporting_interval: u32,
) -> bool {
    (now - last_report_time) * FIXED_ONE * FIXED_ONE > srtt * reporting_interval
}

/// What an `AggMeasurement` holds.
pub struct AggMeasurementView {
    /// The reporting interval as a fraction of the smoothed RTT, in units of
    /// `1/FIXED_ONE`.
    pub reporting_interval: u32,
    /// The smoothed RTT, in units of `1/FIXED_ONE` microseconds.
    pub srtt: u64,
    /// When the aggregate was last handed on.
    pub last_report_time: u64,
    /// Bytes acknowledged since then.
    pub acked: u32,
    /// The latest count of packets acknowledged out of order.
    pub sacked: u32,
    /// The latest RTT sample that was not 0.
    pub rtt: u32,
    /// The smallest RTT since then.
    pub min_rtt: u32,
}

impl AggMeasurementView {
    /// The collector at the start of a flow.
    pub open spec fn initial(reporting_interval: u32) -> AggMeasurementView {
        AggMeasurementView {
            reporting_interval,
            srtt: 0,
            last_report_time: 0,
            acked: 0,
            sacked: 0,
            rtt: 0,
            min_rtt: u32::MAX,
        }
    }

    /// The smoothed RTT is an average of RTTs.
    pub open spec fn wf(self) -> bool {
        self.srtt <= u32::MAX * FIXED_ONE
    }

    /// The collector with the report `m` added to what it holds.
    pub open spec fn with_report(self, m: ReportFields) -> AggMeasurementView {
        AggMeasurementView {
            acked: self.acked.saturating_add(m.acked),
            sacked: m.sacked,
            min_rtt: if m.minrtt < self.min_rtt {
                m.minrtt
            } else {
                self.min_rtt
            },
            rtt: if m.rtt > 0 {
                m.rtt
            } else {
                self.rtt
            },
            srtt: if m.rtt > 0 {
                smoothed_fixed(self.srtt, m.rtt) as u64
            } else {
                self.srtt
            },
            ..self
        }
    }

    /// What the collector makes of the report `m`: urgent where it tells of a
    /// timeout or a loss; else due or not by the time passed.
    pub open spec fn status(self, m: ReportFields) -> ReportStatus {
        if m.timeout || m.loss > 0 {
            ReportStatus::UrgentReport
        } else if report_due(
            m.now,
            self.last_report_time,
            self.with_report(m).srtt,
            self.reporting_interval,
        ) {
            ReportStatus::Report
        } else {
            ReportStatus::NoReport
        }
    }

    /// The collector after the report `m`: the aggregate is kept unless it
    /// was handed on, and then it starts anew.
    pub open spec fn after_report(self, m: ReportFields) -> AggMeasurementView {
        let sum = self.with_report(m);
        match self.status(m) {
            ReportStatus::Report => AggMeasurementView {
                last_report_time: m.now,
                acked: 0,
                sacked: 0,
                rtt: 0,
                min_rtt: u32::MAX,
                ..sum
            },
            _ => sum,
        }
    }

    /// What is handed on for the report `m`: the status, whether the flow
    /// timed out, bytes acknowledged, packets acknowledged out of order,
    /// packets lost, packets in flight, the latest RTT, the smallest RTT, and
    /// the time.
    pub open spec fn outcome(self, m: ReportFields) -> (
        ReportStatus,
        bool,
        u32,
        u32,
        u32,
        u32,
        u32,
        u32,
        u64,
    ) {
        let sum = self.with_report(m);
        match self.status(m) {
            ReportStatus::UrgentReport => (
                ReportStatus::UrgentReport,
                m.timeout,
                0,
                0,
                m.loss,
                0,
                0,
                0,
                m.now,
            ),
            ReportStatus::Report => (
                ReportStatus::Report,
                false,
                sum.acked,
                sum.sacked,
                m.loss,
                m.inflight,
                sum.rtt,
                sum.min_rtt,
                m.now,
            ),
            ReportStatus::NoReport => (ReportStatus::NoReport, false, 0, 0, 0, 0, 0, 0, m.now),
        }
    }
}

/// The smoothed RTT lies between its old value and the sample.
pub proof fn lemma_smoothed_fixed_between(srtt: u64, rtt: u32)
    ensures
        srtt <= rtt * FIXED_ONE ==> srtt <= smoothed_fixed(srtt, rtt) <= rtt * FIXED_ONE,
        srtt >= rtt * FIXED_ONE ==> rtt * FIXED_ONE <= smoothed_fixed(srtt, rtt) <= srtt,
{
}

/// A well-formed collector is well formed after a report.
pub proof fn lemma_after_report_wf(v: AggMeasurementView, m: ReportFields)
    requires
        v.wf(),
    ensures
        v.after_report(m).wf(),
        v.after_report(m).reporting_interval == v.reporting_interval,
{
    lemma_smoothed_fixed_between(v.srtt, m.rtt);
}

/// The datapath may report before the time that was asked for. This
/// aggregates the values it reports until the time is right.
pub struct AggMeasurement {
    // In fraction of a (smoothed) RTT
    reporting_interval: u32,
    // For determining when to report
    srtt: u64,
    // Last time we reported
    last_report_time: u64,
    // Aggregate variables that are reset every measurement interval
    acked: u32,
    sacked: u32,
    rtt: u32,
    min_rtt: u32,
}

impl View for AggMeasurement {
    type V = AggMeasurementView;

    closed spec fn view(&self) -> AggMeasurementView {
        AggMeasurementView {
            reporting_interval: self.reporting_interval,
            srtt: self.srtt,
            last_report_time: self.last_report_time,
            acked: self.acked,
            sacked: self.sacked,
            rtt: self.rtt,
            min_rtt: self.min_rtt,
        }
    }
}

impl AggMeasurement {
    /// What holds of a collector between two calls.
    pub open spec fn wf(&self) -> bool {
        self@.wf()
    }

    /// A collector that hands the aggregate on once the fraction
    /// `reporting_interval / FIXED_ONE` of a smoothed RTT has passed.
    pub fn new(reporting_interval: u32) -> (a: AggMeasurement)
        ensures
            a.wf(),
            a@ == AggMeasurementView::initial(reporting_interval),
    {
        AggMeasurement {
            reporting_interval,
            srtt: 0,
            last_report_time: 0,
            acked: 0,
            sacked: 0,
            rtt: 0,
            min_rtt: u32::MAX,
        }
    }

    /// The smoothed RTT, in units of `1/FIXED_ONE` microseconds.
    pub fn get_srtt(&self) -> (r: u64)
        ensures
            r == self@.srtt,
    {
        self.srtt
    }

    /// Takes in one report and says what to make of it.
    pub fn report(&mut self, m: ReportFields) -> (r: (
        ReportStatus,
        bool,
        u32,
        u32,
        u32,
        u32,
        u32,
        u32,
        u64,
    ))
        requires
            old(self).wf(),
        ensures
            final(self).wf(),
            final(self)@ == old(self)@.after_report(m),
            r == old(self)@.outcome(m),
            r.0 == old(self)@.status(m),
    {
        self.acked = self.acked.saturating_add(m.acked);
        self.sacked = m.sacked;
        if m.minrtt < self.min_rtt {
            self.min_rtt = m.minrtt;
        }
        if m.rtt != 0 {
            proof {
                lemma_smoothed_fixed_between(self.srtt, m.rtt);
            }
            let one: u64 = FIXED_ONE;
            let weight: u64 = SRTT_WEIGHT;
            assert(one == 65536 && weight == 16);
            self.rtt = m.rtt;
            self.srtt = ((m.rtt as u64) * one + (weight - 1) * self.srtt) / weight;
        }
        if m.timeout || m.loss > 0 {
            return (ReportStatus::UrgentReport, m.timeout, 0, 0, m.loss, 0, 0, 0, m.now);
        }
        let due: bool = m.now > self.last_report_time && {
            let passed: u128 = (m.now - self.last_report_time) as u128;
            let srtt: u128 = self.srtt as u128;
            let interval: u128 = self.reporting_interval as u128;
            let one: u128 = FIXED_ONE as u128;
            assert(one == 65536);
            assert(srtt * interval <= 0xffff_ffff_ffff_ffff * 0xffff_ffff) by (nonlinear_arith)
                requires
                    srtt <= 0xffff_ffff_ffff_ffff,
                    interval <= 0xffff_ffff,
            ;
            passed * one * one > srtt * interval
        };
        if due {
            let res = (
                ReportStatus::Report,
                false,
                self.acked,
                self.sacked,
                m.loss,
                m.inflight,
                self.rtt,
                self.min_rtt,
                m.now,
            );
            self.last_report_time = m.now;
            self.acked = 0;
            self.sacked = 0;
            self.rtt = 0;
            self.min_rtt = u32::MAX;
            res
        } else {
            (ReportStatus::NoReport, false, 0, 0, 0, 0, 0, 0, m.now)
        }
    }
}

} // verus!
