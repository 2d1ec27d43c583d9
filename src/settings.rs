//! How hard stimuli hit and how fast they fade.
use vstd::prelude::*;
use crate::decay::Decay;

verus! {

/// How long an explicit flirt keeps later implicit ones counting, in milliseconds.
pub const FLIRT_WINDOW_MS: u64 = 300_000;

/// The decay law and the magnitude of each kind of stimulus, in level units.
#[derive(Debug, Clone, Copy, PartialEq, Eq, Structural)]
pub struct PowerSettings {
    pub decay: Decay,
    /// Magnitude of one keyword match.
    pub praise_hit: u64,
    /// Magnitude of one reaction.
    pub reaction_hit: u64,
}

impl Default for PowerSettings {
    /// A one-second half-life; each hit is three tenths of full scale.
    fn default() -> (s: PowerSettings)
        ensures
            s == (PowerSettings {
                decay: Decay::HalfLife(1000),
                praise_hit: 300_000_000,
                reaction_hit: 300_000_000,
            }),
    {
        PowerSettings { decay: Decay::HalfLife(1000), praise_hit: 300_000_000, reaction_hit: 300_000_000 }
    }
}

impl PowerSettings {
    /// The magnitude of a message with `count` keyword matches, saturating.
    pub fn praise_magnitude(&self, count: u64) -> (m: u64)
        ensures
            m == if self.praise_hit * count > u64::MAX {
                u64::MAX
            } else {
                (self.praise_hit * count) as u64
            },
    {
        assert(self.praise_hit * count <= u64::MAX as int * u64::MAX as int) by (nonlinear_arith)
            requires
                self.praise_hit <= u64::MAX,
                count <= u64::MAX,
        ;
        let p: u128 = (self.praise_hit as u128) * (count as u128);
        if p > u64::MAX as u128 {
            u64::MAX
        } else {
            p as u64
        }
    }
}

/// After a user has flirted explicitly, they may flirt implicitly for a while.
#[derive(Debug, Clone)]
pub struct FlirtingUser {
    /// When the user last flirted, in milliseconds.
    pub last_flirt: u64,
    /// Users whom implicit flirts affect.
    pub flirting_with: Vec<u64>,
}

impl FlirtingUser {
    /// A user who flirted at `last_flirt` with `flirting_with`.
    pub fn new(last_flirt: u64, flirting_with: Vec<u64>) -> (u: FlirtingUser)
        ensures
            u.last_flirt == last_flirt,
            u.flirting_with@ == flirting_with@,
    {
        FlirtingUser { last_flirt, flirting_with }
    }

    /// Whether an implicit flirt at `now` still falls inside the window.
    pub fn is_valid_flirt(&self, now: u64) -> (r: bool)
        ensures
            r == (self.last_flirt + FLIRT_WINDOW_MS > now),
    {
        if now < self.last_flirt {
            true
        } else {
            now - self.last_flirt < FLIRT_WINDOW_MS
        }
    }
}

} // verus!
