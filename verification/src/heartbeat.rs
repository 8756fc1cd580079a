use crate::envelope::GatewayPayload;
use crate::sendable::{create_heartbeat_message, spec_heartbeat_envelope};
use vstd::prelude::*;

verus! {

/// Where the heartbeat scheduler stands in its life: not yet told an
/// interval, running on one, or stopped for good.
#[derive(Clone, Copy, Debug, PartialEq, Eq, Structural)]
pub enum HeartbeatState {
    Idle,
    Running,
    Stopped,
}

/// The timer-driven task that keeps the connection alive: once seeded
/// with the server-dictated interval it owes one heartbeat envelope per
/// interval, on a fixed schedule counted from its start. The scheduler
/// itself is pure state; a timer loop drives it by asking, at each tick,
/// what is due now.
pub struct HeartbeatScheduler {
    state: HeartbeatState,
    interval_ms: u64,
    started_at_ms: u64,
    beats: u64,
}

impl HeartbeatScheduler {
    pub closed spec fn spec_state(&self) -> HeartbeatState {
        self.state
    }

    pub closed spec fn spec_interval(&self) -> u64 {
        self.interval_ms
    }

    pub closed spec fn spec_started_at(&self) -> u64 {
        self.started_at_ms
    }

    /// How many heartbeats have been handed out so far.
    pub closed spec fn spec_beats(&self) -> u64 {
        self.beats
    }

    /// When the `k`-th heartbeat (counting from zero) falls due: exactly
    /// `k + 1` intervals after the start.
    pub closed spec fn spec_due(&self, k: nat) -> int {
        self.started_at_ms + (k + 1) * self.spec_interval()
    }

    /// When the next heartbeat falls due.
    pub closed spec fn spec_next_due(&self) -> int {
        self.spec_due(self.beats as nat)
    }

    pub closed spec fn wf(&self) -> bool {
        self.state == HeartbeatState::Running ==> self.interval_ms >= 1
    }

    /// A scheduler that has not yet been told an interval.
    pub fn new() -> (s: HeartbeatScheduler)
        ensures
            s.spec_state() == HeartbeatState::Idle,
            s.wf(),
    {
        HeartbeatScheduler { state: HeartbeatState::Idle, interval_ms: 0, started_at_ms: 0, beats: 0 }
    }

    pub fn state(&self) -> (st: HeartbeatState)
        ensures
            st == self.spec_state(),
    {
        self.state
    }

    /// Seed the scheduler with the interval from the hello envelope and
    /// start its schedule at `now_ms`. There is at most one running
    /// scheduler per connection, so starting is only allowed from idle.
    pub fn start(&mut self, interval_ms: u64, now_ms: u64)
        requires
            old(self).spec_state() == HeartbeatState::Idle,
            interval_ms >= 1,
        ensures
            final(self).spec_state() == HeartbeatState::Running,
            final(self).spec_interval() == interval_ms,
            final(self).spec_started_at() == now_ms,
            final(self).spec_beats() == 0,
            final(self).spec_next_due() == now_ms + interval_ms,
            final(self).wf(),
    {
        self.state = HeartbeatState::Running;
        self.interval_ms = interval_ms;
        self.started_at_ms = now_ms;
        self.beats = 0;
        proof {
            assert((0 + 1) * (interval_ms as int) == interval_ms) by (nonlinear_arith);
        }
    }

    /// Ask, at time `now_ms`, for the envelope that is due: a heartbeat
    /// exactly when the next scheduled beat has been reached (and its
    /// time still fits the clock's width), else nothing, with the
    /// schedule unmoved.
    pub fn on_timer(&mut self, now_ms: u64) -> (r: Option<GatewayPayload>)
        requires
            old(self).spec_state() == HeartbeatState::Running,
            old(self).wf(),
        ensures
            final(self).wf(),
            final(self).spec_state() == HeartbeatState::Running,
            final(self).spec_interval() == old(self).spec_interval(),
            final(self).spec_started_at() == old(self).spec_started_at(),
            match r {
                Some(e) => old(self).spec_next_due() <= now_ms && e@ == spec_heartbeat_envelope()
                    && final(self).spec_beats() == old(self).spec_beats() + 1,
                None => (old(self).spec_next_due() > now_ms || old(self).spec_next_due()
                    > u64::MAX) && final(self).spec_beats() == old(self).spec_beats(),
            },
    {
        let due = match self.beats.checked_add(1) {
            Some(b1) => match b1.checked_mul(self.interval_ms) {
                Some(span) => self.started_at_ms.checked_add(span),
                None => None,
            },
            None => None,
        };
        proof {
            let b = old(self).spec_beats() as int;
            let n = old(self).spec_interval() as int;
            assert((b + 1) * n == b * n + n) by (nonlinear_arith);
            assert((b + 1) * n >= b + 1) by (nonlinear_arith)
                requires
                    n >= 1,
                    b >= 0,
            ;
            assert(old(self).spec_next_due() == old(self).spec_started_at() + (b + 1) * n);
        }
        match due {
            Some(due_ms) => {
                if due_ms <= now_ms {
                    self.beats = self.beats + 1;
                    Some(create_heartbeat_message())
                } else {
                    None
                }
            },
            None => None,
        }
    }

    /// A failed enqueue means the outbound channel is gone and with it
    /// the connection: the scheduler ends, without retry.
    pub fn on_enqueue_failure(&mut self)
        requires
            old(self).spec_state() == HeartbeatState::Running,
        ensures
            final(self).spec_state() == HeartbeatState::Stopped,
            final(self).spec_interval() == old(self).spec_interval(),
            final(self).spec_beats() == old(self).spec_beats(),
            final(self).wf(),
    {
        self.state = HeartbeatState::Stopped;
    }
}

/// Heartbeat cadence: a scheduler started at `t0` with interval `n` owes
/// its first heartbeat at `t0 + n`, and each later heartbeat exactly one
/// interval after the one before — the beats are spaced `n` apart.
pub proof fn lemma_heartbeat_cadence(s: HeartbeatScheduler, k: nat)
    requires
        s.wf(),
        s.spec_state() == HeartbeatState::Running,
    ensures
        s.spec_due(0) == s.spec_started_at() + s.spec_interval(),
        s.spec_due(k) == s.spec_started_at() + (k + 1) * s.spec_interval(),
        s.spec_due(k + 1) - s.spec_due(k) == s.spec_interval(),
{
    let n = s.spec_interval() as int;
    assert((k + 2) * n - (k + 1) * n == n) by (nonlinear_arith);
    assert((0 + 1) * n == n) by (nonlinear_arith);
}

} // verus!
