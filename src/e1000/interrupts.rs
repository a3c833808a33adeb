//! Interrupt causes, masking and throttling.
use vstd::prelude::*;

use crate::e1000::registers::{ICR_LSC, ICR_MDAC, ICR_RXT0, ICR_TXDW, ICR_TXQE};
use crate::e1000::{HostEffect, E1000};
use crate::NicContext;

verus! {

/// A throttling window: no interrupt reaches the host before `expiration`
/// (nanoseconds on the host's monotonic clock).
#[derive(Debug, Clone, Copy, PartialEq, Eq, Structural)]
pub struct InterruptMitigation {
    pub expiration: u64,
    /// An interrupt was held back, and the timer is armed to deliver it.
    pub interrupt_after: bool,
}

impl InterruptMitigation {
    pub fn is_active_at(&self, time: u64) -> (r: bool)
        ensures
            r == (self.expiration > time),
    {
        self.expiration > time
    }
}

/// What the device does with the host when an interrupt may be due.
#[derive(Debug, Clone, Copy, PartialEq, Eq, Structural)]
pub struct InterruptDecision {
    /// Assert the interrupt now.
    pub trigger: bool,
    /// Arm the timer for this many nanoseconds.
    pub set_timer: Option<u64>,
    /// Cancel the timer.
    pub delete_timer: bool,
    /// The throttling window that follows.
    pub mitigation: Option<InterruptMitigation>,
}

/// `a + b`, or the largest `u64` where the sum does not fit.
pub open spec fn saturating_sum(a: u64, b: u64) -> u64 {
    if a + b > u64::MAX {
        u64::MAX
    } else {
        (a + b) as u64
    }
}

/// The interrupt state machine. Without a pending unmasked cause nothing happens.
/// Inside an active window the interrupt is held back and the timer armed once for
/// the rest of the window. Otherwise the interrupt is asserted (a window that ran out
/// with a timer still armed has that timer cancelled), and, where throttling is on
/// with a non-zero interval, a new window opens.
pub open spec fn spec_decide_interrupt(
    mitigation: Option<InterruptMitigation>,
    pending: bool,
    now: u64,
    throttling: bool,
    interval: Option<u64>,
) -> InterruptDecision {
    if !pending {
        InterruptDecision { trigger: false, set_timer: None, delete_timer: false, mitigation }
    } else if mitigation is Some && mitigation->Some_0.expiration > now {
        let m = mitigation->Some_0;
        InterruptDecision {
            trigger: false,
            set_timer: if m.interrupt_after {
                None
            } else {
                Some((m.expiration - now) as u64)
            },
            delete_timer: false,
            mitigation: Some(InterruptMitigation { expiration: m.expiration, interrupt_after: true }),
        }
    } else {
        InterruptDecision {
            trigger: true,
            set_timer: None,
            delete_timer: mitigation is Some && mitigation->Some_0.interrupt_after,
            mitigation: if throttling && interval is Some {
                Some(
                    InterruptMitigation {
                        expiration: saturating_sum(now, interval->Some_0),
                        interrupt_after: false,
                    },
                )
            } else {
                None
            },
        }
    }
}

/// Decides what an interrupt request at time `now` does.
pub fn decide_interrupt(
    mitigation: Option<InterruptMitigation>,
    pending: bool,
    now: u64,
    throttling: bool,
    interval: Option<u64>,
) -> (r: InterruptDecision)
    ensures
        r == spec_decide_interrupt(mitigation, pending, now, throttling, interval),
{
    if !pending {
        return InterruptDecision { trigger: false, set_timer: None, delete_timer: false, mitigation };
    }
    let mut delete_timer = false;
    if let Some(m) = mitigation {
        if m.is_active_at(now) {
            // Hold the interrupt back until the window closes
            let set_timer = if m.interrupt_after {
                None
            } else {
                Some(m.expiration - now)
            };
            return InterruptDecision {
                trigger: false,
                set_timer,
                delete_timer: false,
                mitigation: Some(InterruptMitigation { expiration: m.expiration, interrupt_after: true }),
            };
        }
        // The window ran out before its timer fired
        delete_timer = m.interrupt_after;
    }
    let next = if throttling {
        match interval {
            Some(d) => {
                let expiration = if now > u64::MAX - d {
                    u64::MAX
                } else {
                    now + d
                };
                Some(InterruptMitigation { expiration, interrupt_after: false })
            },
            None => None,
        }
    } else {
        None
    };
    InterruptDecision { trigger: true, set_timer: None, delete_timer, mitigation: next }
}

/// While a throttling window is active, no interrupt is asserted to the host.
pub proof fn lemma_no_interrupt_inside_window(
    mitigation: Option<InterruptMitigation>,
    pending: bool,
    now: u64,
    throttling: bool,
    interval: Option<u64>,
)
    requires
        mitigation is Some,
        mitigation->Some_0.expiration > now,
    ensures
        !spec_decide_interrupt(mitigation, pending, now, throttling, interval).trigger,
        spec_decide_interrupt(mitigation, pending, now, throttling, interval).mitigation is Some,
        spec_decide_interrupt(mitigation, pending, now, throttling, interval).mitigation->Some_0.expiration
            == mitigation->Some_0.expiration,
{
}

/// The host calls that a decision makes, in order.
pub open spec fn decision_effects(d: InterruptDecision) -> Seq<HostEffect> {
    (if d.delete_timer {
        seq![HostEffect::DeleteTimer]
    } else {
        Seq::empty()
    }) + (match d.set_timer {
        Some(nanos) => seq![HostEffect::SetTimer { nanos }],
        None => Seq::empty(),
    }) + (if d.trigger {
        seq![HostEffect::TriggerInterrupt]
    } else {
        Seq::empty()
    })
}

impl<C: NicContext> E1000<C> {
    /// The decision on an interrupt request at `now`, with `pending` telling
    /// whether an unmasked cause is pending.
    pub open spec fn decide_at(&self, pending: bool, now: u64) -> InterruptDecision {
        spec_decide_interrupt(
            self.interrupt_mitigation,
            pending,
            now,
            self.enable_interrupt_mitigation,
            self.spec_itr_interval(),
        )
    }

    /// From state `o`, an interrupt request was delivered at some time of the host's
    /// clock: the throttling window and the host calls are those of its decision.
    pub open spec fn interrupted(&self, o: Self, pending: bool) -> bool {
        exists|now: u64|
            self.interrupt_mitigation == #[trigger] o.decide_at(pending, now).mitigation
                && self.effects@ == o.effects@ + decision_effects(o.decide_at(pending, now))
    }

    /// From state `o`, the host calls `prefix` were made, then an interrupt request
    /// was delivered at some time of the host's clock.
    pub open spec fn delivered(&self, o: Self, prefix: Seq<HostEffect>, pending: bool) -> bool {
        exists|now: u64|
            self.interrupt_mitigation == #[trigger] o.decide_at(pending, now).mitigation
                && self.effects@ == o.effects@ + prefix + decision_effects(o.decide_at(pending, now))
    }

    pub proof fn lemma_delivered_from(f: Self, mid: Self, o: Self, prefix: Seq<HostEffect>, pending: bool)
        requires
            f.interrupted(mid, pending),
            mid.interrupt_mitigation == o.interrupt_mitigation,
            mid.enable_interrupt_mitigation == o.enable_interrupt_mitigation,
            mid.regs.interrupt_throttling == o.regs.interrupt_throttling,
            mid.effects@ == o.effects@ + prefix,
        ensures
            f.delivered(o, prefix, pending),
    {
        let now = choose|now: u64|
            f.interrupt_mitigation == #[trigger] mid.decide_at(pending, now).mitigation && f.effects@
                == mid.effects@ + decision_effects(mid.decide_at(pending, now));
        assert(o.decide_at(pending, now) == mid.decide_at(pending, now));
    }

    /// A delivery from one state counts as one from another with the same window,
    /// throttling settings and record of host calls.
    pub proof fn lemma_interrupted_from(f: Self, mid: Self, o: Self, pending: bool)
        requires
            f.interrupted(mid, pending),
            mid.interrupt_mitigation == o.interrupt_mitigation,
            mid.enable_interrupt_mitigation == o.enable_interrupt_mitigation,
            mid.regs.interrupt_throttling == o.regs.interrupt_throttling,
            mid.effects == o.effects,
        ensures
            f.interrupted(o, pending),
    {
        let now = choose|now: u64|
            f.interrupt_mitigation == #[trigger] mid.decide_at(pending, now).mitigation && f.effects@
                == mid.effects@ + decision_effects(mid.decide_at(pending, now));
        assert(o.decide_at(pending, now) == mid.decide_at(pending, now));
    }

    /// The throttling interval of ITR in nanoseconds, `None` where it is zero.
    pub open spec fn spec_itr_interval(&self) -> Option<u64> {
        if self.regs.interrupt_throttling.spec_interval() == 0 {
            None
        } else {
            Some((self.regs.interrupt_throttling.spec_interval() * 256) as u64)
        }
    }

    /// Whether an unmasked cause is pending.
    pub open spec fn spec_pending(&self) -> bool {
        self.regs.interrupt_cause.bits & self.regs.interrupt_mask.bits != 0
    }

    /// Delivers an interrupt request at time `now`, as `spec_decide_interrupt` says.
    pub fn interrupt_at(&mut self, now: u64) -> (r: InterruptDecision)
        ensures
            r == spec_decide_interrupt(
                old(self).interrupt_mitigation,
                old(self).spec_pending(),
                now,
                old(self).enable_interrupt_mitigation,
                if old(self).regs.interrupt_throttling.spec_interval() == 0 {
                    None
                } else {
                    Some((old(self).regs.interrupt_throttling.spec_interval() * 256) as u64)
                },
            ),
            final(self).interrupt_mitigation == r.mitigation,
            final(self).effects@ == old(self).effects@ + decision_effects(r),
            final(self).unchanged_but_host_and_mitigation(*old(self)),
    {
        let pending = self.regs.interrupt_cause.bits & self.regs.interrupt_mask.bits != 0;
        let d = decide_interrupt(
            self.interrupt_mitigation,
            pending,
            now,
            self.enable_interrupt_mitigation,
            self.regs.interrupt_throttling.get_itr_interval(),
        );
        let ghost start = self.effects@;
        if d.delete_timer {
            self.host_delete_timer();
        }
        let ghost after_delete = self.effects@;
        if let Some(nanos) = d.set_timer {
            self.host_set_timer(nanos);
        }
        let ghost after_set = self.effects@;
        if d.trigger {
            self.host_trigger_interrupt();
        }
        self.interrupt_mitigation = d.mitigation;
        assert(self.effects@ =~= start + decision_effects(d));
        d
    }

    /// Delivers an interrupt request at the time the host's clock gives.
    pub fn interrupt(&mut self)
        ensures
            final(self).unchanged_but_host_and_mitigation(*old(self)),
            final(self).interrupted(*old(self), old(self).spec_pending()),
    {
        let now = self.nic_ctx.monotonic_nanos();
        let ghost o = *old(self);
        let ghost pending = o.spec_pending();
        self.interrupt_at(now);
        assert(self.interrupt_mitigation == o.decide_at(pending, now).mitigation);
    }

    /// The host's timer fired at time `now`: where a held-back interrupt is due, the
    /// window closes and the interrupt is delivered. Early or stray calls do nothing.
    pub fn timer_elapsed_at(&mut self, now: u64) -> (r: Option<InterruptDecision>)
        ensures
            final(self).unchanged_but_host_and_mitigation(*old(self)),
            match old(self).interrupt_mitigation {
                Some(m) if m.interrupt_after && m.expiration <= now => r == Some(
                    spec_decide_interrupt(
                        None,
                        old(self).spec_pending(),
                        now,
                        old(self).enable_interrupt_mitigation,
                        if old(self).regs.interrupt_throttling.spec_interval() == 0 {
                            None
                        } else {
                            Some((old(self).regs.interrupt_throttling.spec_interval() * 256) as u64)
                        },
                    ),
                ) && final(self).interrupt_mitigation == r->Some_0.mitigation && final(self).effects@ == old(
                    self,
                ).effects@ + decision_effects(r->Some_0),
                _ => r is None && final(self).interrupt_mitigation == old(self).interrupt_mitigation
                    && final(self).effects@ == old(self).effects@,
            },
    {
        match self.interrupt_mitigation {
            Some(m) => {
                if !m.interrupt_after || m.is_active_at(now) {
                    // No timer was due, or it fired early
                    return None;
                }
            },
            None => {
                return None;
            },
        }
        // Cleared first, so that the interrupt may open a new window
        self.interrupt_mitigation = None;
        Some(self.interrupt_at(now))
    }

    /// Callback for the host's one-shot timer, at the time the host's clock gives.
    pub fn timer_elapsed(&mut self)
        ensures
            final(self).unchanged_but_host_and_mitigation(*old(self)),
            exists|now: u64|
                match old(self).interrupt_mitigation {
                    Some(m) if m.interrupt_after && m.expiration <= now => ({
                        let d = #[trigger] spec_decide_interrupt(
                            None,
                            old(self).spec_pending(),
                            now,
                            old(self).enable_interrupt_mitigation,
                            old(self).spec_itr_interval(),
                        );
                        final(self).interrupt_mitigation == d.mitigation && final(self).effects@ == old(
                            self,
                        ).effects@ + decision_effects(d)
                    }),
                    _ => final(self).interrupt_mitigation == old(self).interrupt_mitigation
                        && final(self).effects@ == old(self).effects@ && spec_decide_interrupt(
                        None,
                        false,
                        now,
                        false,
                        None,
                    ).trigger == false,
                },
    {
        let now = self.nic_ctx.monotonic_nanos();
        let r = self.timer_elapsed_at(now);
        assert(spec_decide_interrupt(None, false, now, false, None).trigger == false);
        assert(match old(self).interrupt_mitigation {
            Some(m) if m.interrupt_after && m.expiration <= now => ({
                let d = spec_decide_interrupt(
                    None,
                    old(self).spec_pending(),
                    now,
                    old(self).enable_interrupt_mitigation,
                    old(self).spec_itr_interval(),
                );
                self.interrupt_mitigation == d.mitigation && self.effects@ == old(self).effects@
                    + decision_effects(d)
            }),
            _ => self.interrupt_mitigation == old(self).interrupt_mitigation && self.effects@ == old(
                self,
            ).effects@ && spec_decide_interrupt(None, false, now, false, None).trigger == false,
        });
    }

    /// Transmit descriptor written back and transmit queue empty (the queue is
    /// always empty once a descriptor is written back in this model).
    pub fn report_txdw_and_txqe(&mut self)
        ensures
            final(self).regs.interrupt_cause.bits == old(self).regs.interrupt_cause.bits | ICR_TXDW | ICR_TXQE,
            final(self).unchanged_but_causes_host_and_mitigation(*old(self)),
            final(self).interrupted(
                *old(self),
                (old(self).regs.interrupt_cause.bits | ICR_TXDW | ICR_TXQE) & old(self).regs.interrupt_mask.bits != 0,
            ),
    {
        self.regs.interrupt_cause.bits = self.regs.interrupt_cause.bits | ICR_TXDW | ICR_TXQE;
        let ghost mid = *self;
        self.interrupt();
        proof {
            Self::lemma_interrupted_from(*self, mid, *old(self), mid.spec_pending());
        }
    }

    /// Transmit queue empty.
    pub fn report_txqe(&mut self)
        ensures
            final(self).regs.interrupt_cause.bits == old(self).regs.interrupt_cause.bits | ICR_TXQE,
            final(self).unchanged_but_causes_host_and_mitigation(*old(self)),
            final(self).interrupted(
                *old(self),
                (old(self).regs.interrupt_cause.bits | ICR_TXQE) & old(self).regs.interrupt_mask.bits != 0,
            ),
    {
        self.regs.interrupt_cause.bits = self.regs.interrupt_cause.bits | ICR_TXQE;
        let ghost mid = *self;
        self.interrupt();
        proof {
            Self::lemma_interrupted_from(*self, mid, *old(self), mid.spec_pending());
        }
    }

    /// Link status change.
    pub fn report_lsc(&mut self)
        ensures
            final(self).regs.interrupt_cause.bits == old(self).regs.interrupt_cause.bits | ICR_LSC,
            final(self).unchanged_but_causes_host_and_mitigation(*old(self)),
            final(self).interrupted(
                *old(self),
                (old(self).regs.interrupt_cause.bits | ICR_LSC) & old(self).regs.interrupt_mask.bits != 0,
            ),
    {
        self.regs.interrupt_cause.bits = self.regs.interrupt_cause.bits | ICR_LSC;
        let ghost mid = *self;
        self.interrupt();
        proof {
            Self::lemma_interrupted_from(*self, mid, *old(self), mid.spec_pending());
        }
    }

    /// Receiver timer interrupt.
    pub fn report_rxt0(&mut self)
        ensures
            final(self).regs.interrupt_cause.bits == old(self).regs.interrupt_cause.bits | ICR_RXT0,
            final(self).unchanged_but_causes_host_and_mitigation(*old(self)),
            final(self).interrupted(
                *old(self),
                (old(self).regs.interrupt_cause.bits | ICR_RXT0) & old(self).regs.interrupt_mask.bits != 0,
            ),
    {
        self.regs.interrupt_cause.bits = self.regs.interrupt_cause.bits | ICR_RXT0;
        let ghost mid = *self;
        self.interrupt();
        proof {
            Self::lemma_interrupted_from(*self, mid, *old(self), mid.spec_pending());
        }
    }

    /// MDI/O access complete.
    pub fn report_mdac(&mut self)
        ensures
            final(self).regs.interrupt_cause.bits == old(self).regs.interrupt_cause.bits | ICR_MDAC,
            final(self).unchanged_but_causes_host_and_mitigation(*old(self)),
            final(self).interrupted(
                *old(self),
                (old(self).regs.interrupt_cause.bits | ICR_MDAC) & old(self).regs.interrupt_mask.bits != 0,
            ),
    {
        self.regs.interrupt_cause.bits = self.regs.interrupt_cause.bits | ICR_MDAC;
        let ghost mid = *self;
        self.interrupt();
        proof {
            Self::lemma_interrupted_from(*self, mid, *old(self), mid.spec_pending());
        }
    }
}

} // verus!
