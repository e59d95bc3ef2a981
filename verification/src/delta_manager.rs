//! The delta manager: chooses Copa's parameter δ and the mode it is run in,
//! from the losses seen and from what the RTT window tells of competitors.

use crate::fixed::{inv_capped, inv_halved, inv_incremented, Delta, FIXED_ONE};
use crate::rtt_window::RTTWindow;
use vstd::prelude::*;

verus! {

/// A loss cycle whose losses are at least one in this many of its events
/// puts the manager in `DeltaMode::Loss`.
pub const HIGH_LOSS_ONE_IN: u64 = 10;

/// The number of probes below which a competitor is presumed.
pub const MIN_DETECT_PROBES: u32 = 10;

/// How δ is to be chosen.
#[derive(Clone, Copy, PartialEq, Eq, Structural, Debug)]
pub enum DeltaModeConf {
    /// Never compete as TCP does.
    NoTCP,
    /// Compete as TCP does while a loss-based sender seems present.
    Auto,
}

/// The mode δ is currently chosen in.
#[derive(Clone, Copy, PartialEq, Eq, Structural, Debug)]
pub enum DeltaMode {
    /// δ is the configured default.
    Default,
    /// `1/δ` grows by one per report and is halved on loss.
    TCPCoop,
    /// Losses are frequent: δ only rises, on each loss.
    Loss,
}

/// Whether `losses` are at least a tenth of `losses + acked`. Of no events,
/// none is lost.
pub open spec fn loss_rate_high(losses: u64, acked: u64) -> bool {
    losses > 0 && HIGH_LOSS_ONE_IN * losses >= losses + acked
}

/// Whether the loss cycle that began at `prev_loss_cycle` is over at `now`:
/// more than two base RTTs have passed.
pub open spec fn cycle_over(prev_loss_cycle: u64, base_rtt: u32, now: u64) -> bool {
    now > prev_loss_cycle + 2 * base_rtt
}

/// What a `DeltaManager` holds.
pub struct DeltaManagerView {
    /// How δ is to be chosen.
    pub switch_mode: DeltaModeConf,
    /// `1/δ` of the default δ, in units of `1/FIXED_ONE`.
    pub default_inv: u64,
    /// When the last loss cycle ended.
    pub prev_loss_cycle: u64,
    /// Losses in the last loss cycle that saw any event.
    pub prev_losses: u64,
    /// Bytes acknowledged in that cycle.
    pub prev_acked: u64,
    /// Bytes acknowledged in the running cycle.
    pub cur_num_acked: u64,
    /// Losses in the running cycle.
    pub cur_num_losses: u64,
    /// When δ was last doubled for a loss in `DeltaMode::TCPCoop`.
    pub prev_loss_red_time: u64,
    /// The current mode.
    pub cur_mode: DeltaMode,
    /// `1/δ` of the current δ, in units of `1/FIXED_ONE`.
    pub inv: u64,
}

impl DeltaManagerView {
    /// The manager at the start of a flow: δ is one half, or the default
    /// where that is smaller.
    pub open spec fn initial(default_inv: u64, mode: DeltaModeConf) -> DeltaManagerView {
        DeltaManagerView {
            switch_mode: mode,
            default_inv,
            prev_loss_cycle: 0,
            prev_losses: 0,
            prev_acked: 0,
            cur_num_acked: 0,
            cur_num_losses: 0,
            prev_loss_red_time: 0,
            cur_mode: match mode {
                DeltaModeConf::NoTCP => DeltaMode::Default,
                DeltaModeConf::Auto => DeltaMode::TCPCoop,
            },
            inv: inv_capped((2 * FIXED_ONE) as u64, default_inv),
        }
    }

    /// 0 < δ ≤ default δ ≤ 1.
    pub open spec fn wf(self) -> bool {
        FIXED_ONE <= self.default_inv <= self.inv
    }

    /// The manager once `acked` and `lost` are counted and, where the loss
    /// cycle is over, the cycle is closed: its counts are kept if it saw any
    /// event, and the counting starts anew.
    pub open spec fn with_counts(
        self,
        base_rtt: u32,
        acked: u32,
        lost: u32,
        now: u64,
    ) -> DeltaManagerView {
        let num_acked = self.cur_num_acked.saturating_add(acked as u64);
        let num_losses = self.cur_num_losses.saturating_add(lost as u64);
        if cycle_over(self.prev_loss_cycle, base_rtt, now) {
            let seen = num_acked > 0 || num_losses > 0;
            DeltaManagerView {
                prev_loss_cycle: now,
                prev_losses: if seen {
                    num_losses
                } else {
                    self.prev_losses
                },
                prev_acked: if seen {
                    num_acked
                } else {
                    self.prev_acked
                },
                cur_num_acked: 0,
                cur_num_losses: 0,
                ..self
            }
        } else {
            DeltaManagerView { cur_num_acked: num_acked, cur_num_losses: num_losses, ..self }
        }
    }

    /// The mode for what is known now: `Loss` where the last loss cycle lost
    /// a tenth or more; else `TCPCoop` where the configuration allows it and
    /// fewer than `MIN_DETECT_PROBES` probes were seen or a competitor is
    /// detected; else `Default`.
    pub open spec fn chosen_mode(self, probes: int, tcp_detected: bool) -> DeltaMode {
        if loss_rate_high(self.prev_losses, self.prev_acked) {
            DeltaMode::Loss
        } else if self.switch_mode == DeltaModeConf::Auto && (probes < MIN_DETECT_PROBES
            || tcp_detected) {
            DeltaMode::TCPCoop
        } else {
            DeltaMode::Default
        }
    }

    /// Whether a loss at `now` doubles δ in `DeltaMode::TCPCoop`: at least one
    /// base RTT has passed since it last did.
    pub open spec fn may_double(self, base_rtt: u32, now: u64) -> bool {
        now - self.prev_loss_red_time >= base_rtt
    }

    /// The manager once δ has moved as `mode` rules.
    pub open spec fn with_mode(
        self,
        mode: DeltaMode,
        base_rtt: u32,
        lost: u32,
        now: u64,
    ) -> DeltaManagerView {
        match mode {
            DeltaMode::Default => DeltaManagerView {
                cur_mode: mode,
                inv: self.default_inv,
                ..self
            },
            DeltaMode::TCPCoop => if lost > 0 && self.may_double(base_rtt, now) {
                DeltaManagerView {
                    cur_mode: mode,
                    inv: inv_capped(inv_halved(self.inv), self.default_inv),
                    prev_loss_red_time: now,
                    ..self
                }
            } else {
                DeltaManagerView {
                    cur_mode: mode,
                    inv: inv_capped(inv_incremented(self.inv), self.default_inv),
                    ..self
                }
            },
            DeltaMode::Loss => DeltaManagerView {
                cur_mode: mode,
                inv: inv_capped(
                    if lost > 0 {
                        inv_halved(self.inv)
                    } else {
                        self.inv
                    },
                    self.default_inv,
                ),
                ..self
            },
        }
    }

    /// The manager after one measurement, taken at `now` from a window with
    /// base RTT `base_rtt` and `probes` probes that does or does not detect a
    /// competitor.
    pub open spec fn after_measurement(
        self,
        base_rtt: u32,
        probes: int,
        tcp_detected: bool,
        acked: u32,
        lost: u32,
        now: u64,
    ) -> DeltaManagerView {
        let counted = self.with_counts(base_rtt, acked, lost, now);
        counted.with_mode(counted.chosen_mode(probes, tcp_detected), base_rtt, lost, now)
    }
}

/// After a measurement δ is positive and at most the default, which is at
/// most one, whatever the measurement was.
pub proof fn lemma_delta_stays_in_range(
    v: DeltaManagerView,
    base_rtt: u32,
    probes: int,
    tcp_detected: bool,
    acked: u32,
    lost: u32,
    now: u64,
)
    requires
        v.wf(),
    ensures
        v.after_measurement(base_rtt, probes, tcp_detected, acked, lost, now).wf(),
        v.after_measurement(base_rtt, probes, tcp_detected, acked, lost, now).default_inv
            == v.default_inv,
{
}

/// Where the last loss cycle lost a tenth or more, the mode after a
/// measurement is `Loss`, whether or not a competitor is detected, and
/// whatever the configuration.
pub proof fn lemma_high_loss_means_loss_mode(
    v: DeltaManagerView,
    base_rtt: u32,
    probes: int,
    tcp_detected: bool,
    acked: u32,
    lost: u32,
    now: u64,
)
    ensures
        ({
            let after = v.after_measurement(base_rtt, probes, tcp_detected, acked, lost, now);
            loss_rate_high(after.prev_losses, after.prev_acked) <==> after.cur_mode
                == DeltaMode::Loss
        }),
{
}

/// Chooses δ and the mode it is chosen in.
pub struct DeltaManager {
    // Configuration on how to choose delta
    switch_mode: DeltaModeConf,
    default_delta: Delta,
    // End of the last window of tracking losses
    prev_loss_cycle: u64,
    // Losses and acknowledged bytes in the last cycle that saw any: the loss
    // rate of that cycle is their share of losses
    prev_losses: u64,
    prev_acked: u64,
    // Number of acks and losses in current cycle
    cur_num_acked: u64,
    cur_num_losses: u64,
    // Last time we reduced 1/delta due to loss, so we don't decrease twice
    // within the same RTT
    prev_loss_red_time: u64,
    // Current state of delta
    cur_mode: DeltaMode,
    delta: Delta,
}

impl View for DeltaManager {
    type V = DeltaManagerView;

    closed spec fn view(&self) -> DeltaManagerView {
        DeltaManagerView {
            switch_mode: self.switch_mode,
            default_inv: self.default_delta.inverse(),
            prev_loss_cycle: self.prev_loss_cycle,
            prev_losses: self.prev_losses,
            prev_acked: self.prev_acked,
            cur_num_acked: self.cur_num_acked,
            cur_num_losses: self.cur_num_losses,
            prev_loss_red_time: self.prev_loss_red_time,
            cur_mode: self.cur_mode,
            inv: self.delta.inverse(),
        }
    }
}

impl DeltaManager {
    /// 0 < δ ≤ default δ ≤ 1.
    pub open spec fn wf(&self) -> bool {
        self@.wf()
    }

    /// A manager for a new flow. The default δ is at most one.
    pub fn new(default_delta: Delta, mode: DeltaModeConf) -> (m: DeltaManager)
        requires
            default_delta.at_most_one(),
        ensures
            m.wf(),
            m@ == DeltaManagerView::initial(default_delta.inverse(), mode),
    {
        let cur_mode = match mode {
            DeltaModeConf::NoTCP => DeltaMode::Default,
            DeltaModeConf::Auto => DeltaMode::TCPCoop,
        };
        DeltaManager {
            switch_mode: mode,
            default_delta,
            prev_loss_cycle: 0,
            prev_losses: 0,
            prev_acked: 0,
            cur_num_acked: 0,
            cur_num_losses: 0,
            prev_loss_red_time: 0,
            cur_mode,
            delta: Delta::half().capped(&default_delta),
        }
    }

    /// Takes in one measurement: `acked` bytes acknowledged and `lost`
    /// packets lost, reported at time `now`, with the RTT window as it then
    /// stands. Sets the mode, then moves δ as the mode rules.
    pub fn report_measurement(&mut self, rtt_win: &RTTWindow, acked: u32, lost: u32, now: u64)
        requires
            old(self).wf(),
            rtt_win.wf(),
        ensures
            final(self).wf(),
            final(self)@ == old(self)@.after_measurement(
                rtt_win@.base_rtt,
                rtt_win@.probes.len() as int,
                rtt_win@.tcp_detected(),
                acked,
                lost,
                now,
            ),
            final(self)@.default_inv == old(self)@.default_inv,
            loss_rate_high(final(self)@.prev_losses, final(self)@.prev_acked)
                <==> final(self)@.cur_mode == DeltaMode::Loss,
    {
        let base_rtt: u32 = rtt_win.get_base_rtt();
        // Update loss rate estimate
        self.cur_num_acked = self.cur_num_acked.saturating_add(acked as u64);
        self.cur_num_losses = self.cur_num_losses.saturating_add(lost as u64);
        if now as u128 > self.prev_loss_cycle as u128 + 2 * (base_rtt as u128) {
            self.prev_loss_cycle = now;
            if self.cur_num_losses > 0 || self.cur_num_acked > 0 {
                self.prev_losses = self.cur_num_losses;
                self.prev_acked = self.cur_num_acked;
            }
            self.cur_num_acked = 0;
            self.cur_num_losses = 0;
        }
        // Set delta mode
        // If we are losing a tenth of the packets or more, move to loss mode.

        let one_in: u128 = HIGH_LOSS_ONE_IN as u128;
        assert(one_in == 10);
        let high: bool = self.prev_losses > 0 && one_in * (self.prev_losses as u128)
            >= self.prev_losses as u128 + self.prev_acked as u128;
        if high {
            self.cur_mode = DeltaMode::Loss;
        } else {
            // See if we need to be in TCP mode
            if self.switch_mode == DeltaModeConf::Auto && (rtt_win.num_tcp_detect_samples()
                < MIN_DETECT_PROBES || rtt_win.tcp_detected()) {
                self.cur_mode = DeltaMode::TCPCoop;
            } else {
                self.cur_mode = DeltaMode::Default;
            }
        }

        // Set delta
        match self.cur_mode {
            DeltaMode::Default => {
                self.delta = self.default_delta;
            },
            DeltaMode::TCPCoop => {
                if lost > 0 && now >= self.prev_loss_red_time && now - self.prev_loss_red_time
                    >= base_rtt as u64 {
                    self.delta = self.delta.doubled();
                    self.prev_loss_red_time = now;
                } else {
                    self.delta = self.delta.stepped_down();
                }
                self.delta = self.delta.capped(&self.default_delta);
            },
            DeltaMode::Loss => {
                if lost > 0 {
                    self.delta = self.delta.doubled();
                }
                self.delta = self.delta.capped(&self.default_delta);
            },
        };
    }

    /// The current δ.
    pub fn get_delta(&self) -> (d: Delta)
        ensures
            d.inverse() == self@.inv,
            self.wf() ==> d.wf() && d.at_most_one(),
    {
        self.delta
    }

    /// The default δ.
    pub fn get_default_delta(&self) -> (d: Delta)
        ensures
            d.inverse() == self@.default_inv,
    {
        self.default_delta
    }

    /// Losses and bytes acknowledged in the last loss cycle that saw any of
    /// either: the loss rate of that cycle is the first over their sum.
    pub fn get_prev_loss_counts(&self) -> (r: (u64, u64))
        ensures
            r == (self@.prev_losses, self@.prev_acked),
    {
        (self.prev_losses, self.prev_acked)
    }

    /// The current mode.
    pub fn get_mode(&self) -> (m: DeltaMode)
        ensures
            m == self@.cur_mode,
    {
        self.cur_mode
    }
}

} // verus!
