//! The keep-alive scheduler: one PINGREQ per tick of the caller's timer.

use vstd::prelude::*;
use crate::mqtt_crate::pingreq_frame;
use crate::packet::PacketView;
use crate::wire::encoding;

verus! {

/// Decides what is sent when the keep-alive timer fires. The timer itself,
/// with the period given here, is the caller's.
#[derive(Clone, Debug, PartialEq, Eq)]
pub struct KeepAliveScheduler {
    period_seconds: u16,
    running: bool,
    pings_sent: u64,
    last_ping_sent_at: Option<u64>,
}

/// Mathematical value of a [`KeepAliveScheduler`].
pub ghost struct KeepAliveView {
    pub period_seconds: u16,
    pub running: bool,
    pub pings_sent: u64,
    pub last_ping_sent_at: Option<u64>,
}

impl View for KeepAliveScheduler {
    type V = KeepAliveView;

    closed spec fn view(&self) -> KeepAliveView {
        KeepAliveView {
            period_seconds: self.period_seconds,
            running: self.running,
            pings_sent: self.pings_sent,
            last_ping_sent_at: self.last_ping_sent_at,
        }
    }
}

impl KeepAliveScheduler {
    /// A scheduler for a session that promised the broker a packet every
    /// `keep_alive_seconds`: it fires at half that interval. A keep-alive
    /// under two seconds leaves no period, and the scheduler does not run.
    pub fn new(keep_alive_seconds: u16) -> (r: KeepAliveScheduler)
        ensures
            r@ == (KeepAliveView {
                period_seconds: keep_alive_seconds / 2,
                running: keep_alive_seconds >= 2,
                pings_sent: 0,
                last_ping_sent_at: None,
            }),
    {
        KeepAliveScheduler {
            period_seconds: keep_alive_seconds / 2,
            running: keep_alive_seconds >= 2,
            pings_sent: 0,
            last_ping_sent_at: None,
        }
    }

    /// Seconds between two ticks.
    pub fn period_seconds(&self) -> (r: u16)
        ensures
            r == self@.period_seconds,
    {
        self.period_seconds
    }

    pub fn is_running(&self) -> (r: bool)
        ensures
            r == self@.running,
    {
        self.running
    }

    /// Number of PINGREQ frames handed out so far; it stops counting at
    /// `u64::MAX`.
    pub fn pings_sent(&self) -> (r: u64)
        ensures
            r == self@.pings_sent,
    {
        self.pings_sent
    }

    /// `now` of the tick that handed out the latest PINGREQ.
    pub fn last_ping_sent_at(&self) -> (r: Option<u64>)
        ensures
            r == self@.last_ping_sent_at,
    {
        self.last_ping_sent_at
    }

    /// The timer fired at `now`: gives the PINGREQ frame to write while the
    /// scheduler runs, and nothing once it has stopped. No PINGRESP is
    /// awaited.
    pub fn tick(&mut self, now: u64) -> (r: Option<Vec<u8>>)
        ensures
            !old(self)@.running ==> r is None && final(self)@ == old(self)@,
            old(self)@.running ==> r is Some && r->0@ == encoding(PacketView::Pingreq)
                && final(self)@ == (KeepAliveView {
                pings_sent: if old(self)@.pings_sent < u64::MAX {
                    (old(self)@.pings_sent + 1) as u64
                } else {
                    u64::MAX
                },
                last_ping_sent_at: Some(now),
                ..old(self)@
            }),
    {
        if !self.running {
            return None;
        }
        if self.pings_sent < u64::MAX {
            self.pings_sent = self.pings_sent + 1;
        }
        self.last_ping_sent_at = Some(now);
        Some(pingreq_frame())
    }

    /// A PINGREQ could not be written: the session is taken for dead and the
    /// scheduler stops for good.
    pub fn write_failed(&mut self)
        ensures
            final(self)@ == (KeepAliveView { running: false, ..old(self)@ }),
    {
        self.running = false;
    }
}

/// Number of ticks that fall within `elapsed` seconds when the timer fires
/// every `period_seconds`, the first time one period after the start.
pub open spec fn ticks_within(elapsed: nat, period_seconds: u16) -> nat {
    if period_seconds == 0 {
        0
    } else {
        elapsed / (period_seconds as nat)
    }
}

/// Keep-alive liveness: a scheduler that runs fires at least twice in every
/// keep-alive interval, so `n` intervals see at least `2 * n` PINGREQ; for
/// an even keep-alive, exactly that many.
pub proof fn lemma_two_ticks_per_interval(keep_alive_seconds: u16, n: nat)
    requires
        keep_alive_seconds >= 2,
    ensures
        ticks_within(n * (keep_alive_seconds as nat), keep_alive_seconds / 2) >= 2 * n,
        keep_alive_seconds % 2 == 0 ==> ticks_within(
            n * (keep_alive_seconds as nat),
            keep_alive_seconds / 2,
        ) == 2 * n,
{
    let k = keep_alive_seconds as int;
    let p = (keep_alive_seconds / 2) as int;
    let e = n * k;
    assert(p >= 1 && 2 * p <= k && k <= 2 * p + 1);
    assert(e >= (2 * n) * p) by (nonlinear_arith)
        requires
            e == n * k,
            2 * p <= k,
            n >= 0,
            p >= 1,
    ;
    assert(e / p >= 2 * n) by (nonlinear_arith)
        requires
            e >= (2 * n) * p,
            p >= 1,
    ;
    if keep_alive_seconds % 2 == 0 {
        assert(e / p == 2 * n) by (nonlinear_arith)
            requires
                e == n * k,
                k == 2 * p,
                p >= 1,
        ;
    }
}

} // verus!
