//! One subject: its intensity, the sustain machine that follows a stimulus,
//! and the actuators bound to it.
use vstd::prelude::*;
use crate::decay::{Decay, EPSILON, FULL_SCALE, linear_decay, linear_then};
use crate::frame::{Frame, Update};

verus! {

/// How long decay stays suspended after a stimulus, in milliseconds.
pub const HOLD_MS: u64 = 1000;

/// Where a subject stands after a stimulus.
#[derive(Debug, Clone, Copy, PartialEq, Eq, Structural)]
pub enum Sustain {
    /// Decay applies on each tick.
    Release,
    /// A stimulus has arrived; the next tick applies it.
    Rising,
    /// Decay is suspended until the hold expires.
    Held,
}

/// Why an actuator could not be bound to a subject.
#[derive(Debug, Clone, Copy, PartialEq, Eq, Structural)]
pub enum AttachError {
    /// It offers no scalar output.
    NotScalar,
    /// Its outputs do not share one step count.
    NonUniform,
    /// Its outputs have no levels at all.
    NoLevels,
    /// An actuator with that identifier is already bound.
    Duplicate,
}

/// A level, or off when it does not exceed `EPSILON`.
pub open spec fn canonical(v: u64) -> Option<u64> {
    if v <= EPSILON {
        None
    } else {
        Some(v)
    }
}

/// A decay result, brought to canonical form.
pub open spec fn canonical_opt(v: Option<u64>) -> Option<u64> {
    match v {
        None => None,
        Some(x) => canonical(x),
    }
}

/// Milliseconds from `last` to `now`, zero if `now` is earlier.
pub open spec fn elapsed_since(now: u64, last: u64) -> int {
    if now >= last {
        now - last
    } else {
        0
    }
}

/// `current` after `elapsed` ms under `law`. The linear law is computed here;
/// for a half-life the caller computes the result in `half_life` (floating
/// point, which this crate does not hold). Decay never raises a level, so
/// that result counts for no more than `current`.
pub open spec fn law_decay(law: Decay, current: Option<u64>, elapsed: int, half_life: Option<u64>) -> Option<u64> {
    match law {
        Decay::Linear(d) => linear_then(current, elapsed, d as int),
        Decay::HalfLife(_) => match (current, half_life) {
            (Some(c), Some(h)) => Some(if h <= c { h } else { c }),
            _ => None,
        },
    }
}

/// Saturating sum of two levels.
pub open spec fn sat_add(a: u64, b: u64) -> u64 {
    if a + b > u64::MAX {
        u64::MAX
    } else {
        (a + b) as u64
    }
}

/// Every frame rescheduled at `value`.
pub open spec fn fanned_frames(frames: Seq<Frame>, value: Option<u64>, law: Decay) -> Seq<Frame> {
    Seq::new(frames.len(), |i: int| frames[i].rescheduled(value, law).0)
}

/// What rescheduling every frame at `value` asks for, in frame order.
pub open spec fn fanned_updates(frames: Seq<Frame>, value: Option<u64>, law: Decay) -> Seq<Update> {
    Seq::new(frames.len(), |i: int| frames[i].rescheduled(value, law).1)
}

/// Every frame re-armed for the crossing below `v`, with no command.
pub open spec fn rearmed_frames(frames: Seq<Frame>, v: u64, law: Decay) -> Seq<Frame> {
    Seq::new(frames.len(), |i: int| frames[i].rearmed(v, law).0)
}

/// The wake-only updates that re-arm every frame, in frame order.
pub open spec fn rearmed_updates(frames: Seq<Frame>, v: u64, law: Decay) -> Seq<Update> {
    Seq::new(frames.len(), |i: int| frames[i].rearmed(v, law).1)
}

/// The frames, each stopped.
pub open spec fn stopped_frames(frames: Seq<Frame>) -> Seq<Update> {
    Seq::new(
        frames.len(),
        |i: int|
            Update {
                frame: frames[i].id,
                cancel: frames[i].timer,
                command: Some(crate::frame::Command::Stop),
                wake: None,
            },
    )
}

/// The frames, each stopped with nothing pending.
pub open spec fn halted_frames(frames: Seq<Frame>) -> Seq<Frame> {
    Seq::new(frames.len(), |i: int| Frame { level: None, timer: None, ..frames[i] })
}

/// The step count shared by all outputs of an actuator, or why there is none.
pub open spec fn uniform_steps_spec(counts: Seq<u32>) -> Result<u32, AttachError> {
    if counts.len() == 0 {
        Err(AttachError::NotScalar)
    } else if exists|i: int| 0 <= i < counts.len() && #[trigger] counts[i] != counts[0] {
        Err(AttachError::NonUniform)
    } else if counts[0] == 0 {
        Err(AttachError::NoLevels)
    } else {
        Ok(counts[0])
    }
}

/// Checks that an actuator's outputs share one non-zero step count.
pub fn uniform_steps(counts: &Vec<u32>) -> (r: Result<u32, AttachError>)
    ensures
        r == uniform_steps_spec(counts@),
{
    if counts.len() == 0 {
        return Err(AttachError::NotScalar);
    }
    let first = counts[0];
    let mut i: usize = 1;
    while i < counts.len()
        invariant
            1 <= i <= counts.len(),
            first == counts@[0],
            forall|j: int| 0 <= j < i ==> counts@[j] == first,
        decreases counts.len() - i,
    {
        if counts[i] != first {
            return Err(AttachError::NonUniform);
        }
        i = i + 1;
    }
    if first == 0 {
        Err(AttachError::NoLevels)
    } else {
        Ok(first)
    }
}

/// The level units of a possibly-off intensity, zero when off.
pub open spec fn or_zero(c: Option<u64>) -> u64 {
    match c {
        Some(v) => v,
        None => 0,
    }
}

/// The mathematical state of a subject.
pub struct UserView {
    pub current: Option<u64>,
    pub pending: u64,
    pub sustain: Sustain,
    pub hold_until: u64,
    pub last_tick: u64,
    pub law: Decay,
    pub voice_praisers: u32,
    pub connected: bool,
    pub frames: Seq<Frame>,
}

impl UserView {
    /// The state after a stimulus of `magnitude` at `now`.
    pub open spec fn stimulated(self, magnitude: u64, now: u64) -> UserView {
        if !self.connected {
            self
        } else if self.sustain == Sustain::Held {
            UserView {
                pending: sat_add(self.pending, magnitude),
                hold_until: sat_add(now, HOLD_MS),
                ..self
            }
        } else {
            UserView { pending: sat_add(self.pending, magnitude), sustain: Sustain::Rising, ..self }
        }
    }

    /// The intensity after decaying from the last tick to `now`, with
    /// `half_life` the caller's result under a half-life law.
    pub open spec fn decayed_at(self, now: u64, half_life: Option<u64>) -> Option<u64> {
        law_decay(self.law, self.current, elapsed_since(now, self.last_tick), half_life)
    }

    /// A connected, released subject with a live intensity has a wake-up
    /// pending on every actuator, so its decay goes on.
    pub open spec fn keeps_decaying(self) -> bool {
        self.connected && self.sustain == Sustain::Release && self.current is Some ==> forall|i: int|
            0 <= i < self.frames.len() ==> (#[trigger] self.frames[i]).timer is Some
    }

    /// The state after a tick at `now`, and what the tick asks of the
    /// actuators. While released, the intensity decays under the law over
    /// the time since the last tick (`half_life` as in `decayed_at`). When
    /// the hold expires the level is unchanged and no command goes out; each
    /// actuator only gets a fresh wake-up, so that decay resumes.
    pub open spec fn ticked(self, now: u64, half_life: Option<u64>) -> (UserView, Seq<Update>) {
        if !self.connected {
            (self, Seq::empty())
        } else {
            match self.sustain {
                Sustain::Rising => {
                    let v = canonical(sat_add(or_zero(self.current), self.pending));
                    (
                        UserView {
                            current: v,
                            pending: 0,
                            sustain: Sustain::Held,
                            hold_until: sat_add(now, HOLD_MS),
                            last_tick: now,
                            frames: fanned_frames(self.frames, v, self.law),
                            ..self
                        },
                        fanned_updates(self.frames, v, self.law),
                    )
                },
                Sustain::Held => if now < self.hold_until {
                    (UserView { last_tick: now, ..self }, Seq::empty())
                } else {
                    match self.current {
                        Some(v) => (
                            UserView {
                                sustain: Sustain::Release,
                                last_tick: now,
                                frames: rearmed_frames(self.frames, v, self.law),
                                ..self
                            },
                            rearmed_updates(self.frames, v, self.law),
                        ),
                        None => (
                            UserView { sustain: Sustain::Release, last_tick: now, ..self },
                            Seq::empty(),
                        ),
                    }
                },
                Sustain::Release => match self.current {
                    None => (UserView { last_tick: now, ..self }, Seq::empty()),
                    Some(_) => {
                        let v = canonical_opt(self.decayed_at(now, half_life));
                        (
                            UserView {
                                current: v,
                                last_tick: now,
                                frames: fanned_frames(self.frames, v, self.law),
                                ..self
                            },
                            fanned_updates(self.frames, v, self.law),
                        )
                    },
                },
            }
        }
    }

    /// Whether frame `id` has the wake-up `token` pending.
    pub open spec fn awaits(self, id: u32, token: u64) -> bool {
        exists|i: int|
            0 <= i < self.frames.len() && #[trigger] self.frames[i].id == id
                && self.frames[i].timer == Some(token)
    }

    /// The state after frame `id`'s wake-up `token` fires at `now`: a stale
    /// token, an unknown frame or a disconnected subject change nothing;
    /// otherwise the wake-up is spent and the subject ticks.
    pub open spec fn woken(self, id: u32, token: u64, now: u64, half_life: Option<u64>) -> (
        UserView,
        Seq<Update>,
    ) {
        if self.connected && self.awaits(id, token) {
            let i = choose|i: int|
                0 <= i < self.frames.len() && #[trigger] self.frames[i].id == id
                    && self.frames[i].timer == Some(token);
            UserView {
                frames: self.frames.update(i, Frame { timer: None, ..self.frames[i] }),
                ..self
            }.ticked(now, half_life)
        } else {
            (self, Seq::empty())
        }
    }

    /// Whether an actuator with identifier `id` is bound.
    pub open spec fn has_frame(self, id: u32) -> bool {
        exists|i: int| 0 <= i < self.frames.len() && #[trigger] self.frames[i].id == id
    }

    /// The state after binding actuator `id`, whose outputs have the step
    /// counts `counts`, and what the new frame must do at once.
    pub open spec fn attached(self, id: u32, counts: Seq<u32>) -> (
        UserView,
        Result<Option<Update>, AttachError>,
    ) {
        if !self.connected {
            (self, Ok(None))
        } else {
            match uniform_steps_spec(counts) {
                Err(e) => (self, Err(e)),
                Ok(steps) => if self.has_frame(id) {
                    (self, Err(AttachError::Duplicate))
                } else {
                    let f = Frame { id, steps, level: None, timer: None, epoch: 0 };
                    match self.current {
                        None => (UserView { frames: self.frames.push(f), ..self }, Ok(None)),
                        Some(v) => {
                            let (g, u) = f.rescheduled(Some(v), self.law);
                            (UserView { frames: self.frames.push(g), ..self }, Ok(Some(u)))
                        },
                    }
                },
            }
        }
    }

    /// The state after unbinding actuator `id`, and its stop, if it was bound.
    pub open spec fn detached(self, id: u32) -> (UserView, Option<Update>) {
        if self.has_frame(id) {
            let i = choose|i: int| 0 <= i < self.frames.len() && #[trigger] self.frames[i].id == id;
            (
                UserView { frames: self.frames.remove(i), ..self },
                Some(stopped_frames(self.frames)[i]),
            )
        } else {
            (self, None)
        }
    }

    /// The state after one more (`up`) or one fewer active presence source
    /// elsewhere in a shared session; the count saturates at its bounds.
    pub open spec fn presence_adjusted(self, up: bool) -> UserView {
        if !self.connected {
            self
        } else if up {
            UserView {
                voice_praisers: if self.voice_praisers == u32::MAX {
                    u32::MAX
                } else {
                    (self.voice_praisers + 1) as u32
                },
                ..self
            }
        } else {
            UserView {
                voice_praisers: if self.voice_praisers == 0 {
                    0
                } else {
                    (self.voice_praisers - 1) as u32
                },
                ..self
            }
        }
    }

    /// The state after switching to `law` at `now`: a released, live
    /// intensity first decays under the old law since the last tick
    /// (`half_life` as in `decayed_at`),
    /// tick, and every frame is rescheduled under the new law.
    pub open spec fn relawed(self, law: Decay, now: u64, half_life: Option<u64>) -> (
        UserView,
        Seq<Update>,
    ) {
        if self.connected && self.sustain == Sustain::Release && self.current is Some {
            let v = canonical_opt(self.decayed_at(now, half_life));
            (
                UserView {
                    current: v,
                    last_tick: now,
                    law,
                    frames: fanned_frames(self.frames, v, law),
                    ..self
                },
                fanned_updates(self.frames, v, law),
            )
        } else {
            (UserView { law, ..self }, Seq::empty())
        }
    }

    /// The state after stopping every actuator, which stay bound, and the
    /// stops to send.
    pub open spec fn stopped(self) -> (UserView, Seq<Update>) {
        if self.connected {
            (
                UserView { current: None, frames: halted_frames(self.frames), ..self },
                stopped_frames(self.frames),
            )
        } else {
            (self, Seq::empty())
        }
    }

    /// The state after a disconnect, and the stop sequence, issued only by
    /// the first disconnect.
    pub open spec fn disconnected(self) -> (UserView, Option<Seq<Update>>) {
        if self.connected {
            (
                UserView {
                    current: None,
                    pending: 0,
                    sustain: Sustain::Release,
                    connected: false,
                    frames: Seq::empty(),
                    ..self
                },
                Some(stopped_frames(self.frames)),
            )
        } else {
            (self, None)
        }
    }
}

/// Decay never raises a level: under either law, the decayed intensity is
/// at most the current one, and off stays off.
pub proof fn lemma_decay_never_raises(v: UserView, now: u64, half_life: Option<u64>)
    requires
        v.law.valid(),
    ensures
        v.current is None ==> v.decayed_at(now, half_life) is None,
        v.current is Some ==> crate::decay::units(v.decayed_at(now, half_life)) <= v.current->Some_0,
{
    if let Decay::Linear(d) = v.law {
        if let Some(c) = v.current {
            let e = elapsed_since(now, v.last_tick);
            assert(e * FULL_SCALE >= 0) by (nonlinear_arith)
                requires
                    e >= 0,
            ;
            vstd::arithmetic::div_mod::lemma_div_pos_is_pos(e * FULL_SCALE, d as int);
        }
    }
}

/// A tick while held sends no command: before expiry it asks for nothing,
/// and at expiry the level is unchanged and each actuator only gets a fresh
/// wake-up.
pub proof fn lemma_hold_sends_no_command(v: UserView, now: u64, half_life: Option<u64>)
    requires
        v.sustain == Sustain::Held,
    ensures
        v.ticked(now, half_life).0.current == v.current,
        forall|i: int|
            0 <= i < v.ticked(now, half_life).1.len() ==> (#[trigger] v.ticked(now, half_life).1[i]).command
                is None,
{
}

/// Rescheduling at a live level arms a wake-up on every frame.
pub proof fn lemma_fanned_armed(frames: Seq<Frame>, value: Option<u64>, law: Decay)
    requires
        value is Some ==> value->Some_0 > EPSILON,
    ensures
        value is Some ==> forall|i: int|
            0 <= i < frames.len() ==> (#[trigger] fanned_frames(frames, value, law)[i]).timer is Some,
{
}

/// Disconnecting is idempotent: the stop sequence goes out on the first call
/// exactly when the subject was connected, and a second call issues nothing
/// and changes nothing.
pub proof fn lemma_disconnect_idempotent(v: UserView)
    ensures
        v.disconnected().1 is Some == v.connected,
        v.connected ==> v.disconnected().1 == Some(stopped_frames(v.frames)),
        v.disconnected().0.disconnected() == (v.disconnected().0, None::<Seq<Update>>),
{
}

/// A change of intensity reaches each bound actuator exactly once: one
/// update per frame, addressed to that frame, no two to the same actuator.
pub proof fn lemma_fan_out_once(frames: Seq<Frame>, value: Option<u64>, law: Decay)
    requires
        ButtplugUser::frames_wf(frames),
    ensures
        fanned_updates(frames, value, law).len() == frames.len(),
        forall|i: int|
            0 <= i < frames.len() ==> (#[trigger] fanned_updates(frames, value, law)[i]).frame
                == frames[i].id,
        forall|i: int, j: int|
            0 <= i < frames.len() && 0 <= j < frames.len() && i != j ==> fanned_updates(
                frames,
                value,
                law,
            )[i].frame != fanned_updates(frames, value, law)[j].frame,
{
}

/// A subject's intensity and the actuators bound to it.
#[derive(Debug)]
pub struct ButtplugUser {
    /// The intensity; `None` is off.
    pub current: Option<u64>,
    /// Stimulus received but not yet applied.
    pub pending: u64,
    /// The sustain state.
    pub sustain: Sustain,
    /// When the hold expires, while `Held`.
    pub hold_until: u64,
    /// Time of the last tick.
    pub last_tick: u64,
    /// The decay law in force.
    pub law: Decay,
    /// Other subjects' active presence sources in a shared session.
    pub voice_praisers: u32,
    /// False once disconnected.
    pub connected: bool,
    /// The bound actuators.
    pub frames: Vec<Frame>,
}

impl View for ButtplugUser {
    type V = UserView;

    open spec fn view(&self) -> UserView {
        UserView {
            current: self.current,
            pending: self.pending,
            sustain: self.sustain,
            hold_until: self.hold_until,
            last_tick: self.last_tick,
            law: self.law,
            voice_praisers: self.voice_praisers,
            connected: self.connected,
            frames: self.frames@,
        }
    }
}

impl ButtplugUser {
    /// The frames with identifiers unique, each well formed.
    pub open spec fn frames_wf(frames: Seq<Frame>) -> bool {
        &&& forall|i: int| 0 <= i < frames.len() ==> #[trigger] frames[i].wf()
        &&& forall|i: int, j: int|
            0 <= i < frames.len() && 0 <= j < frames.len() && i != j ==> frames[i].id
                != frames[j].id
    }

    pub open spec fn wf(&self) -> bool {
        &&& self.law.valid()
        &&& match self.current {
            Some(v) => v > EPSILON,
            None => true,
        }
        &&& Self::frames_wf(self.frames@)
        &&& !self.connected ==> self.frames@.len() == 0 && self.current is None && self.pending == 0
    }

    /// A connected subject at rest at time `now`, with no actuators.
    pub fn new(law: Decay, now: u64) -> (s: ButtplugUser)
        requires
            law.valid(),
        ensures
            s.wf(),
            s.current is None,
            s.pending == 0,
            s.sustain == Sustain::Release,
            s.last_tick == now,
            s.hold_until == now,
            s.law == law,
            s.voice_praisers == 0,
            s.connected,
            s.frames@.len() == 0,
    {
        ButtplugUser {
            current: None,
            pending: 0,
            sustain: Sustain::Release,
            hold_until: now,
            last_tick: now,
            law,
            voice_praisers: 0,
            connected: true,
            frames: Vec::new(),
        }
    }

    /// Reschedules every frame at `value`, in order.
    fn fan_out(&mut self, value: Option<u64>) -> (updates: Vec<Update>)
        requires
            old(self).wf(),
            match value {
                Some(v) => v > EPSILON,
                None => true,
            },
        ensures
            final(self).frames@ == fanned_frames(old(self).frames@, value, old(self).law),
            updates@ == fanned_updates(old(self).frames@, value, old(self).law),
            final(self).current == old(self).current,
            final(self).pending == old(self).pending,
            final(self).sustain == old(self).sustain,
            final(self).hold_until == old(self).hold_until,
            final(self).last_tick == old(self).last_tick,
            final(self).law == old(self).law,
            final(self).voice_praisers == old(self).voice_praisers,
            final(self).connected == old(self).connected,
            Self::frames_wf(final(self).frames@),
    {
        let mut frames: Vec<Frame> = Vec::new();
        let mut updates: Vec<Update> = Vec::new();
        let mut i: usize = 0;
        while i < self.frames.len()
            invariant
                0 <= i <= self.frames@.len(),
                self.frames@ == old(self).frames@,
                old(self).wf(),
                self.law.valid(),
                self.law == old(self).law,
                frames@ == fanned_frames(self.frames@, value, self.law).subrange(0, i as int),
                updates@ == fanned_updates(self.frames@, value, self.law).subrange(0, i as int),
            decreases self.frames@.len() - i,
        {
            let mut f = self.frames[i];
            assert(f.wf());
            let u = f.reschedule(value, self.law);
            frames.push(f);
            updates.push(u);
            i = i + 1;
        }
        assert(frames@ =~= fanned_frames(self.frames@, value, self.law));
        assert(updates@ =~= fanned_updates(self.frames@, value, self.law));
        assert forall|j: int| 0 <= j < frames@.len() implies #[trigger] frames@[j].wf() && frames@[j].id == self.frames@[j].id by {
            assert(self.frames@[j].wf());
        }
        self.frames = frames;
        updates
    }

    /// Re-arms every frame for the crossing below `v`, with no command.
    fn rearm_all(&mut self, v: u64) -> (updates: Vec<Update>)
        requires
            old(self).wf(),
            v > EPSILON,
        ensures
            final(self).frames@ == rearmed_frames(old(self).frames@, v, old(self).law),
            updates@ == rearmed_updates(old(self).frames@, v, old(self).law),
            final(self).current == old(self).current,
            final(self).pending == old(self).pending,
            final(self).sustain == old(self).sustain,
            final(self).hold_until == old(self).hold_until,
            final(self).last_tick == old(self).last_tick,
            final(self).law == old(self).law,
            final(self).voice_praisers == old(self).voice_praisers,
            final(self).connected == old(self).connected,
            Self::frames_wf(final(self).frames@),
            forall|i: int|
                0 <= i < final(self).frames@.len() ==> (#[trigger] final(self).frames@[i]).timer is Some,
    {
        let mut frames: Vec<Frame> = Vec::new();
        let mut updates: Vec<Update> = Vec::new();
        let mut i: usize = 0;
        while i < self.frames.len()
            invariant
                0 <= i <= self.frames@.len(),
                self.frames@ == old(self).frames@,
                old(self).wf(),
                v > EPSILON,
                self.law.valid(),
                self.law == old(self).law,
                frames@ == rearmed_frames(self.frames@, v, self.law).subrange(0, i as int),
                updates@ == rearmed_updates(self.frames@, v, self.law).subrange(0, i as int),
            decreases self.frames@.len() - i,
        {
            let mut f = self.frames[i];
            assert(f.wf());
            let u = f.rearm(v, self.law);
            frames.push(f);
            updates.push(u);
            i = i + 1;
        }
        assert(frames@ =~= rearmed_frames(self.frames@, v, self.law));
        assert(updates@ =~= rearmed_updates(self.frames@, v, self.law));
        assert forall|j: int| 0 <= j < frames@.len() implies #[trigger] frames@[j].wf() && frames@[j].id == self.frames@[j].id by {
            assert(self.frames@[j].wf());
        }
        self.frames = frames;
        updates
    }

    /// Records a stimulus of `magnitude` at `now`: it waits in `pending`
    /// for the next tick, which applies it while `Rising`. While `Held` the
    /// hold is extended instead and the magnitude keeps waiting, to be
    /// applied after the next stimulus that finds the subject released.
    pub fn add_power(&mut self, magnitude: u64, now: u64)
        requires
            old(self).wf(),
        ensures
            final(self).wf(),
            final(self)@ == old(self)@.stimulated(magnitude, now),
    {
        if !self.connected {
            return;
        }
        self.pending = self.pending.saturating_add(magnitude);
        match self.sustain {
            Sustain::Held => {
                self.hold_until = now.saturating_add(HOLD_MS);
            },
            _ => {
                self.sustain = Sustain::Rising;
            },
        }
    }

    /// The intensity after decaying from the last tick to `now`: computed
    /// here under the linear law, taken from `half_life` under a half-life.
    fn decayed_level(&self, now: u64, half_life: Option<u64>) -> (r: Option<u64>)
        requires
            self.law.valid(),
        ensures
            r == self@.decayed_at(now, half_life),
    {
        match self.law {
            Decay::Linear(d) => match self.current {
                None => None,
                Some(v) => {
                    let elapsed = if now >= self.last_tick {
                        now - self.last_tick
                    } else {
                        0
                    };
                    linear_decay(v, elapsed, d)
                },
            },
            Decay::HalfLife(_) => match (self.current, half_life) {
                (Some(c), Some(h)) => Some(if h <= c { h } else { c }),
                _ => None,
            },
        }
    }

    /// Advances the sustain machine at `now`. While released the intensity
    /// decays over the time since the last tick: under the linear law the
    /// crate computes it; under a half-life `half_life` is the caller's
    /// result, computed in floating point. Returns what the actuators must
    /// do. Afterwards a live released subject has a wake-up pending on
    /// every actuator.
    pub fn decay_power(&mut self, now: u64, half_life: Option<u64>) -> (updates: Vec<Update>)
        requires
            old(self).wf(),
        ensures
            final(self).wf(),
            (final(self)@, updates@) == old(self)@.ticked(now, half_life),
            final(self)@.keeps_decaying(),
    {
        if !self.connected {
            return Vec::new();
        }
        match self.sustain {
            Sustain::Rising => {
                let base = match self.current {
                    Some(v) => v,
                    None => 0,
                };
                let total = base.saturating_add(self.pending);
                let v = if total <= EPSILON {
                    None
                } else {
                    Some(total)
                };
                self.current = v;
                self.pending = 0;
                self.sustain = Sustain::Held;
                self.hold_until = now.saturating_add(HOLD_MS);
                self.last_tick = now;
                let updates = self.fan_out(v);
                assert(self@.frames == fanned_frames(old(self)@.frames, v, old(self).law));
                updates
            },
            Sustain::Held => {
                self.last_tick = now;
                if now < self.hold_until {
                    return Vec::new();
                }
                self.sustain = Sustain::Release;
                let v = match self.current {
                    Some(v) => v,
                    None => {
                        return Vec::new();
                    },
                };
                self.rearm_all(v)
            },
            Sustain::Release => {
                if self.current.is_none() {
                    self.last_tick = now;
                    return Vec::new();
                }
                let d = self.decayed_level(now, half_life);
                self.last_tick = now;
                let v = match d {
                    Some(x) => if x <= EPSILON {
                        None
                    } else {
                        Some(x)
                    },
                    None => None,
                };
                self.current = v;
                let updates = self.fan_out(v);
                proof {
                    lemma_fanned_armed(old(self)@.frames, v, self.law);
                }
                updates
            },
        }
    }

    /// Position of the frame for actuator `id`, if one is bound.
    fn find(&self, id: u32) -> (r: Option<usize>)
        ensures
            match r {
                Some(i) => i < self.frames@.len() && self.frames@[i as int].id == id,
                None => !self@.has_frame(id),
            },
    {
        let mut i: usize = 0;
        while i < self.frames.len()
            invariant
                0 <= i <= self.frames@.len(),
                forall|j: int| 0 <= j < i ==> self.frames@[j].id != id,
            decreases self.frames@.len() - i,
        {
            if self.frames[i].id == id {
                return Some(i);
            }
            i = i + 1;
        }
        None
    }

    /// Takes the firing of frame `id`'s wake-up `token` at `now`. A stale or
    /// cancelled token, an unknown frame or a disconnected subject make it a
    /// no-op; otherwise the subject ticks, with `half_life` as for
    /// `decay_power`. A live released subject keeps a wake-up on every actuator.
    pub fn wake(&mut self, id: u32, token: u64, now: u64, half_life: Option<u64>) -> (updates: Vec<
        Update,
    >)
        requires
            old(self).wf(),
        ensures
            final(self).wf(),
            (final(self)@, updates@) == old(self)@.woken(id, token, now, half_life),
            old(self)@.connected && old(self)@.awaits(id, token) ==> final(self)@.keeps_decaying(),
            old(self)@.keeps_decaying() ==> final(self)@.keeps_decaying(),
    {
        if !self.connected {
            return Vec::new();
        }
        let i = match self.find(id) {
            Some(i) => i,
            None => {
                return Vec::new();
            },
        };
        let mut f = self.frames[i];
        assert(self.frames@[i as int].wf());
        if !f.fire(token) {
            assert(!self@.awaits(id, token)) by {
                if self@.awaits(id, token) {
                    let k = choose|k: int|
                        0 <= k < self.frames@.len() && #[trigger] self.frames@[k].id == id
                            && self.frames@[k].timer == Some(token);
                    assert(k == i);
                }
            }
            return Vec::new();
        }
        proof {
            let k = choose|k: int|
                0 <= k < self.frames@.len() && #[trigger] self.frames@[k].id == id
                    && self.frames@[k].timer == Some(token);
            assert(k == i);
        }
        self.frames.set(i, f);
        assert(Self::frames_wf(self.frames@)) by {
            assert forall|j: int| 0 <= j < self.frames@.len() implies #[trigger] self.frames@[j].wf() by {
                assert(old(self).frames@[j].wf());
            }
            assert forall|a: int, b: int|
                0 <= a < self.frames@.len() && 0 <= b < self.frames@.len() && a != b
                implies self.frames@[a].id != self.frames@[b].id by {
                assert(old(self).frames@[a].id != old(self).frames@[b].id);
            }
        }
        self.decay_power(now, half_life)
    }

    /// Binds actuator `id`, whose outputs have the step counts `counts`.
    /// An actuator whose outputs do not share one non-zero step count, or
    /// whose identifier is taken, is refused; a disconnected subject takes
    /// nothing. A frame bound while the intensity is live is driven at once.
    pub fn attach(&mut self, id: u32, counts: &Vec<u32>) -> (r: Result<Option<Update>, AttachError>)
        requires
            old(self).wf(),
        ensures
            final(self).wf(),
            (final(self)@, r) == old(self)@.attached(id, counts@),
    {
        if !self.connected {
            return Ok(None);
        }
        let steps = match uniform_steps(counts) {
            Ok(n) => n,
            Err(e) => {
                return Err(e);
            },
        };
        if self.find(id).is_some() {
            return Err(AttachError::Duplicate);
        }
        let mut f = Frame::new(id, steps);
        let r = match self.current {
            None => None,
            Some(v) => Some(f.reschedule(Some(v), self.law)),
        };
        self.frames.push(f);
        assert(Self::frames_wf(self.frames@)) by {
            assert forall|j: int| 0 <= j < self.frames@.len() implies #[trigger] self.frames@[j].wf() by {
                if j < old(self).frames@.len() {
                    assert(old(self).frames@[j].wf());
                }
            }
            assert forall|a: int, b: int|
                0 <= a < self.frames@.len() && 0 <= b < self.frames@.len() && a != b
                implies self.frames@[a].id != self.frames@[b].id by {
                if a < old(self).frames@.len() && b < old(self).frames@.len() {
                    assert(old(self).frames@[a].id != old(self).frames@[b].id);
                } else if a < old(self).frames@.len() {
                    assert(old(self).frames@[a].id == old(self).frames@[a].id);
                } else {
                    assert(old(self).frames@[b].id == old(self).frames@[b].id);
                }
            }
        }
        Ok(r)
    }

    /// Unbinds actuator `id`, cancelling its wake-up and stopping it; an
    /// unknown identifier is a no-op.
    pub fn detach(&mut self, id: u32) -> (r: Option<Update>)
        requires
            old(self).wf(),
        ensures
            final(self).wf(),
            (final(self)@, r) == old(self)@.detached(id),
    {
        let i = match self.find(id) {
            Some(i) => i,
            None => {
                return None;
            },
        };
        proof {
            let k = choose|k: int| 0 <= k < self.frames@.len() && #[trigger] self.frames@[k].id == id;
            assert(k == i);
        }
        let mut f = self.frames.remove(i);
        assert(f == old(self).frames@[i as int]);
        assert(f.wf());
        let u = f.stop();
        assert(u == stopped_frames(old(self).frames@)[i as int]);
        assert(Self::frames_wf(self.frames@)) by {
            assert forall|j: int| 0 <= j < self.frames@.len() implies #[trigger] self.frames@[j].wf() by {
                if j < i {
                    assert(old(self).frames@[j].wf());
                } else {
                    assert(old(self).frames@[j + 1].wf());
                }
            }
            assert forall|a: int, b: int|
                0 <= a < self.frames@.len() && 0 <= b < self.frames@.len() && a != b
                implies self.frames@[a].id != self.frames@[b].id by {
                let a0 = if a < i { a } else { a + 1 };
                let b0 = if b < i { b } else { b + 1 };
                assert(old(self).frames@[a0].id != old(self).frames@[b0].id);
            }
        }
        Some(u)
    }

    /// Turns the intensity off and stops every actuator, cancelling its
    /// wake-up; the actuators stay bound.
    pub fn stop(&mut self) -> (updates: Vec<Update>)
        requires
            old(self).wf(),
        ensures
            final(self).wf(),
            (final(self)@, updates@) == old(self)@.stopped(),
    {
        if !self.connected {
            return Vec::new();
        }
        let mut frames: Vec<Frame> = Vec::new();
        let mut updates: Vec<Update> = Vec::new();
        let mut i: usize = 0;
        while i < self.frames.len()
            invariant
                0 <= i <= self.frames@.len(),
                self.frames@ == old(self).frames@,
                old(self).wf(),
                frames@ == halted_frames(self.frames@).subrange(0, i as int),
                updates@ == stopped_frames(self.frames@).subrange(0, i as int),
            decreases self.frames@.len() - i,
        {
            let mut f = self.frames[i];
            assert(f.wf());
            let u = f.stop();
            frames.push(f);
            updates.push(u);
            i = i + 1;
        }
        assert(frames@ =~= halted_frames(self.frames@));
        assert(updates@ =~= stopped_frames(self.frames@));
        assert forall|j: int| 0 <= j < frames@.len() implies #[trigger] frames@[j].wf() && frames@[j].id == self.frames@[j].id by {
            assert(self.frames@[j].wf());
        }
        self.frames = frames;
        self.current = None;
        updates
    }

    /// Disconnects: the first call stops every actuator, cancelling its
    /// wake-up, and releases them all; any later call is a no-op that
    /// returns `None`.
    pub fn disconnect(&mut self) -> (r: Option<Vec<Update>>)
        requires
            old(self).wf(),
        ensures
            final(self).wf(),
            (final(self)@, match r {
                Some(u) => Some(u@),
                None => None,
            }) == old(self)@.disconnected(),
    {
        if !self.connected {
            return None;
        }
        let mut updates: Vec<Update> = Vec::new();
        let mut i: usize = 0;
        while i < self.frames.len()
            invariant
                0 <= i <= self.frames@.len(),
                updates@ == stopped_frames(self.frames@).subrange(0, i as int),
            decreases self.frames@.len() - i,
        {
            let f = self.frames[i];
            updates.push(
                Update { frame: f.id, cancel: f.timer, command: Some(crate::frame::Command::Stop), wake: None },
            );
            i = i + 1;
        }
        assert(updates@ =~= stopped_frames(self.frames@));
        self.frames = Vec::new();
        self.current = None;
        self.pending = 0;
        self.sustain = Sustain::Release;
        self.connected = false;
        assert(self@.frames =~= Seq::<Frame>::empty());
        Some(updates)
    }

    /// Counts one more (`up`) or one fewer active presence source in a
    /// session that the subject shares.
    pub fn bump_voice_praisers(&mut self, up: bool)
        requires
            old(self).wf(),
        ensures
            final(self).wf(),
            final(self)@ == old(self)@.presence_adjusted(up),
    {
        if !self.connected {
            return;
        }
        if up {
            self.voice_praisers = self.voice_praisers.saturating_add(1);
        } else {
            self.voice_praisers = self.voice_praisers.saturating_sub(1);
        }
    }

    /// Switches to a new decay law at `now`. A released, live intensity
    /// first decays under the old law since the last tick (`half_life` as
    /// for `decay_power`, under the old law).
    pub fn set_law(&mut self, law: Decay, now: u64, half_life: Option<u64>) -> (updates: Vec<Update>)
        requires
            old(self).wf(),
            law.valid(),
        ensures
            final(self).wf(),
            (final(self)@, updates@) == old(self)@.relawed(law, now, half_life),
    {
        if self.connected && self.sustain == Sustain::Release && self.current.is_some() {
            let decayed = self.decayed_level(now, half_life);
            let v = match decayed {
                Some(x) => if x <= EPSILON {
                    None
                } else {
                    Some(x)
                },
                None => None,
            };
            self.current = v;
            self.last_tick = now;
            self.law = law;
            self.fan_out(v)
        } else {
            self.law = law;
            Vec::new()
        }
    }

    /// When the sustain machine next needs a tick: at once while `Rising`,
    /// at the hold's expiry while `Held`; while `Release` only the frames'
    /// wake-ups call for one.
    pub fn next_deadline(&self) -> (r: Option<u64>)
        ensures
            r == match self.sustain {
                Sustain::Rising => Some(self.last_tick),
                Sustain::Held => Some(self.hold_until),
                Sustain::Release => None::<u64>,
            },
    {
        match self.sustain {
            Sustain::Rising => Some(self.last_tick),
            Sustain::Held => Some(self.hold_until),
            Sustain::Release => None,
        }
    }
}

} // verus!
