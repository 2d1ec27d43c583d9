//! One actuator bound to a subject: the level it was last driven at and
//! the single wake-up it may have pending.
use vstd::prelude::*;
use crate::decay::{
    Decay, EPSILON, linear_crossing_ms, linear_crossing_spec, next_level, next_level_spec,
};

verus! {

/// What an actuator is told to do.
#[derive(Debug, Clone, Copy, PartialEq, Eq, Structural)]
pub enum Command {
    /// Drive the actuator at this many level units.
    Drive(u64),
    /// Stop the actuator.
    Stop,
}

/// A wake-up to arm for a frame.
#[derive(Debug, Clone, Copy, PartialEq, Eq, Structural)]
pub struct Wake {
    /// Token that the timer hands back when it fires.
    pub token: u64,
    /// The level that the decay reaches next, in steps of the actuator.
    pub level: u128,
    /// Milliseconds to wait, where the law lets the crate compute it (the
    /// linear law); for a half-life the caller works it out from `level`.
    pub delay_ms: Option<u64>,
}

/// What one frame asks of the outside world after a change.
#[derive(Debug, Clone, Copy, PartialEq, Eq, Structural)]
pub struct Update {
    /// The actuator concerned.
    pub frame: u32,
    /// The pending wake-up to cancel first, if any.
    pub cancel: Option<u64>,
    /// The command to send, if any; a bare re-arm sends none.
    pub command: Option<Command>,
    /// The wake-up to arm afterwards, if any.
    pub wake: Option<Wake>,
}

/// An actuator bound to a subject.
#[derive(Debug, Clone, Copy, PartialEq, Eq, Structural)]
pub struct Frame {
    /// The actuator's identifier.
    pub id: u32,
    /// Number of evenly spaced levels the actuator can represent.
    pub steps: u32,
    /// The level it was last driven at; `None` once stopped.
    pub level: Option<u64>,
    /// Token of the pending wake-up, if one is armed.
    pub timer: Option<u64>,
    /// The last token handed out.
    pub epoch: u64,
}

/// The token that follows `e`.
pub open spec fn next_token(e: u64) -> u64 {
    if e == u64::MAX {
        0
    } else {
        (e + 1) as u64
    }
}

/// Whether a requested level is worth driving rather than stopping.
pub open spec fn drives(value: Option<u64>) -> bool {
    match value {
        Some(v) => v >= EPSILON,
        None => false,
    }
}

/// The wait before re-synchronising: the crossing time plus a millisecond,
/// so that the timer never fires on the boundary itself.
pub open spec fn wake_delay(v: u64, steps: u32, law: Decay) -> Option<u64> {
    match law {
        Decay::Linear(d) => {
            let t = linear_crossing_spec(v as int, steps as int, d as int);
            Some(if t < u64::MAX { (t + 1) as u64 } else { u64::MAX })
        },
        Decay::HalfLife(_) => None,
    }
}

/// The frame after rescheduling it at each of `values` in turn.
pub open spec fn rescheduled_all(f: Frame, values: Seq<Option<u64>>, law: Decay) -> Frame
    decreases values.len(),
{
    if values.len() == 0 {
        f
    } else {
        rescheduled_all(f, values.drop_last(), law).rescheduled(values.last(), law).0
    }
}

/// What the `k`-th of a sequence of reschedules asks for.
pub open spec fn update_at(f: Frame, values: Seq<Option<u64>>, law: Decay, k: int) -> Update {
    rescheduled_all(f, values.subrange(0, k), law).rescheduled(values[k], law).1
}

proof fn lemma_epoch_after(f: Frame, values: Seq<Option<u64>>, law: Decay)
    ensures
        rescheduled_all(f, values, law).epoch == (f.epoch + values.len()) % 0x1_0000_0000_0000_0000,
        rescheduled_all(f, values, law).id == f.id,
        rescheduled_all(f, values, law).steps == f.steps,
    decreases values.len(),
{
    if values.len() > 0 {
        lemma_epoch_after(f, values.drop_last(), law);
        let e = rescheduled_all(f, values.drop_last(), law).epoch;
        let m = 0x1_0000_0000_0000_0000int;
        let n = values.len() as int;
        assert(e == (f.epoch + (n - 1)) % m);
        vstd::arithmetic::div_mod::lemma_add_mod_noop(f.epoch + (n - 1), 1, m);
        vstd::arithmetic::div_mod::lemma_small_mod(1, m as nat);
        if e < u64::MAX {
            vstd::arithmetic::div_mod::lemma_small_mod((e + 1) as nat, m as nat);
        } else {
            vstd::arithmetic::div_mod::lemma_mod_self_0(m);
        }
    }
}

proof fn lemma_well_formed_after(f: Frame, values: Seq<Option<u64>>, law: Decay)
    requires
        f.wf(),
    ensures
        rescheduled_all(f, values, law).wf(),
    decreases values.len(),
{
    if values.len() > 0 {
        lemma_well_formed_after(f, values.drop_last(), law);
    }
}

/// Over any sequence of reschedules of one well-formed frame: at most one
/// wake-up is pending after each, carrying the latest token; each call
/// cancels the wake-up pending before it and sends exactly one command; and
/// a wake-up armed by any call but the last never fires afterwards (for
/// sequences shorter than the token space).
pub proof fn lemma_single_pending_timer(f: Frame, values: Seq<Option<u64>>, law: Decay)
    requires
        f.wf(),
        values.len() < 0x1_0000_0000_0000_0000,
    ensures
        rescheduled_all(f, values, law).wf(),
        forall|k: int|
            0 <= k < values.len() ==> (#[trigger] update_at(f, values, law, k)).cancel
                == rescheduled_all(f, values.subrange(0, k), law).timer,
        forall|k: int|
            0 <= k < values.len() ==> (#[trigger] update_at(f, values, law, k)).frame == f.id,
        forall|k: int|
            #![trigger update_at(f, values, law, k)]
            0 <= k < values.len() - 1 && update_at(f, values, law, k).wake is Some ==> rescheduled_all(
                f,
                values,
                law,
            ).timer != Some(update_at(f, values, law, k).wake->Some_0.token),
{
    lemma_well_formed_after(f, values, law);
    lemma_epoch_after(f, values, law);
    let m = 0x1_0000_0000_0000_0000int;
    assert forall|k: int| 0 <= k < values.len() implies (#[trigger] update_at(f, values, law, k)).frame
        == f.id by {
        lemma_epoch_after(f, values.subrange(0, k), law);
    }
    assert forall|k: int|
        #![trigger update_at(f, values, law, k)]
        0 <= k < values.len() - 1 && update_at(f, values, law, k).wake is Some implies rescheduled_all(
            f,
            values,
            law,
        ).timer != Some(update_at(f, values, law, k).wake->Some_0.token) by {
        let pre = values.subrange(0, k);
        let upto = values.subrange(0, k + 1);
        lemma_epoch_after(f, upto, law);
        assert(upto.drop_last() =~= pre);
        let token = update_at(f, values, law, k).wake->Some_0.token;
        assert(token == rescheduled_all(f, upto, law).epoch);
        let last = rescheduled_all(f, values, law);
        if last.timer == Some(token) {
            assert(last.epoch == token);
            let a = f.epoch + k + 1;
            let b = f.epoch + values.len();
            assert(a % m == b % m);
            vstd::arithmetic::div_mod::lemma_fundamental_div_mod(a, m);
            vstd::arithmetic::div_mod::lemma_fundamental_div_mod(b, m);
            let qa = a / m;
            let qb = b / m;
            assert(m * (qb - qa) == b - a) by (nonlinear_arith)
                requires
                    a == m * qa + a % m,
                    b == m * qb + b % m,
                    a % m == b % m,
            ;
            assert(false) by (nonlinear_arith)
                requires
                    m * (qb - qa) == b - a,
                    0 < b - a < m,
                    m > 0,
            ;
        }
    }
}

impl Frame {
    /// At most one wake-up is pending, and it carries the latest token.
    pub open spec fn wf(self) -> bool {
        &&& self.steps > 0
        &&& match self.timer {
            Some(t) => t == self.epoch,
            None => true,
        }
    }

    /// The frame after driving it at `value` under `law`, and what that asks for.
    pub open spec fn rescheduled(self, value: Option<u64>, law: Decay) -> (Frame, Update) {
        let token = next_token(self.epoch);
        if drives(value) {
            let v = value->Some_0;
            (
                Frame { level: Some(v), timer: Some(token), epoch: token, ..self },
                Update {
                    frame: self.id,
                    cancel: self.timer,
                    command: Some(Command::Drive(v)),
                    wake: Some(
                        Wake {
                            token,
                            level: next_level_spec(v as int, self.steps as int) as u128,
                            delay_ms: wake_delay(v, self.steps, law),
                        },
                    ),
                },
            )
        } else {
            (
                Frame { level: None, timer: None, epoch: token, ..self },
                Update { frame: self.id, cancel: self.timer, command: Some(Command::Stop), wake: None },
            )
        }
    }

    /// The frame with a fresh wake-up for the crossing below `v`, the level
    /// it is already driven at, and the update that arms it: no command.
    pub open spec fn rearmed(self, v: u64, law: Decay) -> (Frame, Update) {
        let token = next_token(self.epoch);
        (
            Frame { timer: Some(token), epoch: token, ..self },
            Update {
                frame: self.id,
                cancel: self.timer,
                command: None,
                wake: Some(
                    Wake {
                        token,
                        level: next_level_spec(v as int, self.steps as int) as u128,
                        delay_ms: wake_delay(v, self.steps, law),
                    },
                ),
            },
        )
    }

    /// A new frame for an actuator with `steps` levels, stopped, with nothing pending.
    pub fn new(id: u32, steps: u32) -> (f: Frame)
        requires
            steps > 0,
        ensures
            f.wf(),
            f == (Frame { id, steps, level: None, timer: None, epoch: 0 }),
    {
        Frame { id, steps, level: None, timer: None, epoch: 0 }
    }

    /// Cancels the pending wake-up, then drives the actuator at `value`, or
    /// stops it when `value` is off or under `EPSILON`; when it drives, it
    /// arms one wake-up for the moment the decay reaches the next level.
    pub fn reschedule(&mut self, value: Option<u64>, law: Decay) -> (u: Update)
        requires
            old(self).wf(),
            law.valid(),
        ensures
            final(self).wf(),
            (*final(self), u) == old(self).rescheduled(value, law),
    {
        let token = if self.epoch == u64::MAX {
            0
        } else {
            self.epoch + 1
        };
        let cancel = self.timer;
        self.epoch = token;
        match value {
            Some(v) if v >= EPSILON => {
                let level = next_level(v, self.steps);
                let delay_ms = match law {
                    Decay::Linear(d) => {
                        let t = linear_crossing_ms(v, self.steps, d);
                        Some(t.saturating_add(1))
                    },
                    Decay::HalfLife(_) => None,
                };
                self.level = Some(v);
                self.timer = Some(token);
                Update {
                    frame: self.id,
                    cancel,
                    command: Some(Command::Drive(v)),
                    wake: Some(Wake { token, level, delay_ms }),
                }
            },
            _ => {
                self.level = None;
                self.timer = None;
                Update { frame: self.id, cancel, command: Some(Command::Stop), wake: None }
            },
        }
    }

    /// Cancels the pending wake-up and arms a fresh one for the crossing
    /// below `v`, sending no command: the actuator keeps its level.
    pub fn rearm(&mut self, v: u64, law: Decay) -> (u: Update)
        requires
            old(self).wf(),
            law.valid(),
            v >= EPSILON,
        ensures
            final(self).wf(),
            (*final(self), u) == old(self).rearmed(v, law),
    {
        let token = if self.epoch == u64::MAX {
            0
        } else {
            self.epoch + 1
        };
        let cancel = self.timer;
        self.epoch = token;
        let level = next_level(v, self.steps);
        let delay_ms = match law {
            Decay::Linear(d) => {
                let t = linear_crossing_ms(v, self.steps, d);
                Some(t.saturating_add(1))
            },
            Decay::HalfLife(_) => None,
        };
        self.timer = Some(token);
        Update { frame: self.id, cancel, command: None, wake: Some(Wake { token, level, delay_ms }) }
    }

    /// Cancels the pending wake-up and stops the actuator.
    pub fn stop(&mut self) -> (u: Update)
        requires
            old(self).wf(),
        ensures
            final(self).wf(),
            u == (Update { frame: old(self).id, cancel: old(self).timer, command: Some(Command::Stop), wake: None }),
            *final(self) == (Frame { level: None, timer: None, ..*old(self) }),
    {
        let cancel = self.timer;
        self.level = None;
        self.timer = None;
        Update { frame: self.id, cancel, command: Some(Command::Stop), wake: None }
    }

    /// Takes a fired wake-up: true, and nothing pending any more, when
    /// `token` is the pending one; false, and nothing changed, for a stale
    /// or cancelled one.
    pub fn fire(&mut self, token: u64) -> (live: bool)
        requires
            old(self).wf(),
        ensures
            final(self).wf(),
            live == (old(self).timer == Some(token)),
            live ==> *final(self) == (Frame { timer: None, ..*old(self) }),
            !live ==> *final(self) == *old(self),
    {
        let live = match self.timer {
            Some(t) => t == token,
            None => false,
        };
        if live {
            self.timer = None;
        }
        live
    }
}

} // verus!
