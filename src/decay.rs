//! Decay laws and quantization-crossing times.
use vstd::prelude::*;

verus! {

/// Full output of an actuator, in level units.
pub const FULL_SCALE: u64 = 1_000_000_000;

/// Levels under this many units count as off.
pub const EPSILON: u64 = 10;

/// How an intensity falls over time.
#[derive(Debug, Clone, Copy, PartialEq, Eq, Structural)]
pub enum Decay {
    /// Half-life, in milliseconds.
    HalfLife(u64),
    /// Time to fall from full scale to zero, in milliseconds.
    Linear(u64),
}

impl Decay {
    /// Both laws need a positive time constant.
    pub open spec fn valid(self) -> bool {
        match self {
            Decay::HalfLife(h) => h > 0,
            Decay::Linear(d) => d > 0,
        }
    }

    pub fn is_valid(&self) -> (r: bool)
        ensures
            r == self.valid(),
    {
        match self {
            Decay::HalfLife(h) => *h > 0,
            Decay::Linear(d) => *d > 0,
        }
    }
}

/// Units that a linear law over `duration` ms sheds in `elapsed` ms.
pub open spec fn linear_drop(elapsed: int, duration: int) -> int {
    elapsed * FULL_SCALE / duration
}

/// Linear decay: the level less the drop, or off once nothing is left.
pub open spec fn linear_decay_spec(current: int, elapsed: int, duration: int) -> Option<u64> {
    let next = current - linear_drop(elapsed, duration);
    if next <= 0 {
        None
    } else {
        Some(next as u64)
    }
}

/// What is left of a possibly-off level after a further linear decay.
pub open spec fn linear_then(level: Option<u64>, elapsed: int, duration: int) -> Option<u64> {
    match level {
        None => None,
        Some(v) => linear_decay_spec(v as int, elapsed, duration),
    }
}

/// The units of a possibly-off level, zero when off.
pub open spec fn units(level: Option<u64>) -> int {
    match level {
        None => 0,
        Some(v) => v as int,
    }
}

/// Applies a linear law of `duration_ms` to `current` over `elapsed_ms`.
pub fn linear_decay(current: u64, elapsed_ms: u64, duration_ms: u64) -> (r: Option<u64>)
    requires
        duration_ms > 0,
    ensures
        r == linear_decay_spec(current as int, elapsed_ms as int, duration_ms as int),
{
    let e = elapsed_ms as u128;
    assert(e * 1_000_000_000 <= u64::MAX as int * 1_000_000_000) by (nonlinear_arith)
        requires
            e <= u64::MAX,
    ;
    let drop: u128 = e * (FULL_SCALE as u128) / (duration_ms as u128);
    if drop >= current as u128 {
        None
    } else {
        Some(current - drop as u64)
    }
}

proof fn lemma_floor_sum(a: int, b: int, d: int)
    requires
        a >= 0,
        b >= 0,
        d > 0,
    ensures
        a / d + b / d <= (a + b) / d <= a / d + b / d + 1,
{
    vstd::arithmetic::div_mod::lemma_fundamental_div_mod(a, d);
    vstd::arithmetic::div_mod::lemma_fundamental_div_mod(b, d);
    vstd::arithmetic::div_mod::lemma_fundamental_div_mod(a + b, d);
    let qa = a / d;
    let qb = b / d;
    let q = (a + b) / d;
    let ra = a % d;
    let rb = b % d;
    let r = (a + b) % d;
    assert(0 <= ra < d && 0 <= rb < d && 0 <= r < d);
    assert(d * q + r == d * qa + ra + d * qb + rb);
    assert(d * (q - qa - qb) == ra + rb - r) by (nonlinear_arith)
        requires
            d * q + r == d * qa + ra + d * qb + rb,
    ;
    assert(q - qa - qb >= 0) by (nonlinear_arith)
        requires
            d * (q - qa - qb) == ra + rb - r,
            d > 0,
            ra + rb - r > -d,
    ;
    assert(q - qa - qb <= 1) by (nonlinear_arith)
        requires
            d * (q - qa - qb) == ra + rb - r,
            d > 0,
            ra + rb - r < 2 * d,
    ;
}

/// Decaying linearly over `a` and then over `b` milliseconds lands within
/// one unit of decaying once over `a + b`: the two-step level is never
/// lower, and at most one unit higher.
pub proof fn lemma_linear_composes(v: u64, a: u64, b: u64, duration: u64)
    requires
        duration > 0,
    ensures
        units(linear_decay_spec(v as int, a + b, duration as int)) <= units(
            linear_then(linear_decay_spec(v as int, a as int, duration as int), b as int, duration as int),
        ),
        units(
            linear_then(linear_decay_spec(v as int, a as int, duration as int), b as int, duration as int),
        ) <= units(linear_decay_spec(v as int, a + b, duration as int)) + 1,
{
    let s = FULL_SCALE as int;
    let d = duration as int;
    assert(a * s >= 0 && b * s >= 0) by (nonlinear_arith)
        requires
            a >= 0,
            b >= 0,
            s > 0,
    ;
    assert((a + b) * s == a * s + b * s) by (nonlinear_arith);
    lemma_floor_sum(a * s, b * s, d);
    vstd::arithmetic::div_mod::lemma_div_pos_is_pos(a * s, d);
    vstd::arithmetic::div_mod::lemma_div_pos_is_pos(b * s, d);
}

/// Index of the highest level of a `steps`-level actuator that lies strictly
/// below `v` units: level `k` stands for `k / steps` of full scale.
pub open spec fn next_level_spec(v: int, steps: int) -> int {
    (v * steps + FULL_SCALE - 1) / (FULL_SCALE as int) - 1
}

/// Milliseconds, rounded up, that a linear law of `duration` ms takes to bring
/// `v` units down to the next lower level of a `steps`-level actuator.
pub open spec fn linear_crossing_spec(v: int, steps: int, duration: int) -> int {
    let gap = v * steps - next_level_spec(v, steps) * FULL_SCALE;
    (duration * gap + FULL_SCALE * steps - 1) / (FULL_SCALE * steps)
}

proof fn lemma_next_level_bounds(v: int, steps: int)
    requires
        v > 0,
        steps > 0,
    ensures
        next_level_spec(v, steps) >= 0,
        next_level_spec(v, steps) * FULL_SCALE < v * steps,
        v * steps <= (next_level_spec(v, steps) + 1) * FULL_SCALE,
{
    let s = FULL_SCALE as int;
    let x = v * steps;
    assert(x >= 1) by (nonlinear_arith)
        requires
            x == v * steps,
            v > 0,
            steps > 0,
    ;
    let c = (x + s - 1) / s;
    vstd::arithmetic::div_mod::lemma_fundamental_div_mod(x + s - 1, s);
    let r = (x + s - 1) % s;
    assert(0 <= r < s);
    assert(s * c + r == x + s - 1);
    assert(c >= 1) by (nonlinear_arith)
        requires
            s * c + r == x + s - 1,
            0 <= r < s,
            x >= 1,
            s > 0,
    ;
    assert((c - 1) * s < x) by (nonlinear_arith)
        requires
            s * c + r == x + s - 1,
            0 <= r,
    ;
    assert(x <= c * s) by (nonlinear_arith)
        requires
            s * c + r == x + s - 1,
            r < s,
    ;
}

/// The level index below `v` units on an actuator with `steps` levels.
pub fn next_level(v: u64, steps: u32) -> (k: u128)
    requires
        v > 0,
        steps > 0,
    ensures
        k == next_level_spec(v as int, steps as int),
        k * FULL_SCALE < v * steps <= (k + 1) * FULL_SCALE,
{
    proof {
        lemma_next_level_bounds(v as int, steps as int);
    }
    assert(v * steps <= u64::MAX as int * u32::MAX as int) by (nonlinear_arith)
        requires
            v <= u64::MAX,
            steps <= u32::MAX,
            v >= 0,
            steps >= 0,
    ;
    let x: u128 = (v as u128) * (steps as u128);
    let c: u128 = (x + (FULL_SCALE as u128) - 1) / (FULL_SCALE as u128);
    c - 1
}

/// Milliseconds until a linear law of `duration_ms` brings `v` units down to
/// the next lower level of a `steps`-level actuator, rounded up.
pub fn linear_crossing_ms(v: u64, steps: u32, duration_ms: u64) -> (t: u64)
    requires
        v > 0,
        steps > 0,
        duration_ms > 0,
    ensures
        t == linear_crossing_spec(v as int, steps as int, duration_ms as int),
        t <= duration_ms,
{
    let k = next_level(v, steps);
    assert(v * steps <= u64::MAX as int * u32::MAX as int) by (nonlinear_arith)
        requires
            v <= u64::MAX,
            steps <= u32::MAX,
            v >= 0,
            steps >= 0,
    ;
    let x: u128 = (v as u128) * (steps as u128);
    let gap: u128 = x - k * (FULL_SCALE as u128);
    assert(0 < gap <= FULL_SCALE);
    let ghost s = FULL_SCALE as int;
    let y: u128 = (FULL_SCALE as u128) * (steps as u128);
    assert(s <= y) by (nonlinear_arith)
        requires
            y == s * steps,
            steps >= 1,
            s > 0,
    ;
    let d = duration_ms as u128;
    assert(d * gap <= d * y) by (nonlinear_arith)
        requires
            gap <= s,
            s <= y,
            d >= 0,
    ;
    assert(d * y <= u64::MAX as int * (1_000_000_000 * u32::MAX as int)) by (nonlinear_arith)
        requires
            d <= u64::MAX,
            y == 1_000_000_000 * steps,
            steps <= u32::MAX,
    ;
    let t: u128 = (d * gap + y - 1) / y;
    assert(t <= d) by {
        let yi = y as int;
        let di = d as int;
        let lo = (d * gap + y - 1) as int;
        let hi = di * yi + yi - 1;
        vstd::arithmetic::div_mod::lemma_div_is_ordered(lo, hi, yi);
        vstd::arithmetic::div_mod::lemma_fundamental_div_mod_converse(hi, yi, di, yi - 1);
    }
    t as u64
}

/// Under a linear law of at most `FULL_SCALE` ms, a wake-up that comes no
/// earlier than its delay (the crossing time plus one millisecond) finds the
/// level at or below the level it waited for: each wake-driven reschedule
/// steps at least one level down, until the actuator is off.
pub proof fn lemma_linear_wake_steps_down(v: u64, steps: u32, duration: u64, elapsed: u64)
    requires
        v > 0,
        steps > 0,
        0 < duration <= FULL_SCALE,
        elapsed >= linear_crossing_spec(v as int, steps as int, duration as int) + 1,
    ensures
        units(linear_decay_spec(v as int, elapsed as int, duration as int)) * steps
            <= next_level_spec(v as int, steps as int) * FULL_SCALE,
{
    lemma_next_level_bounds(v as int, steps as int);
    let s = FULL_SCALE as int;
    let n = steps as int;
    let d = duration as int;
    let e = elapsed as int;
    let k = next_level_spec(v as int, n);
    let gap = v * n - k * s;
    let y = s * n;
    let t = linear_crossing_spec(v as int, n, d);
    assert(y > 0) by (nonlinear_arith)
        requires
            y == s * n,
            s > 0,
            n > 0,
    ;
    assert(d * gap >= 0) by (nonlinear_arith)
        requires
            d > 0,
            gap > 0,
    ;
    vstd::arithmetic::div_mod::lemma_fundamental_div_mod(d * gap + y - 1, y);
    let r2 = (d * gap + y - 1) % y;
    assert(t == (d * gap + y - 1) / y);
    assert(y * t + r2 == d * gap + y - 1);
    assert(y * t >= d * gap);
    vstd::arithmetic::div_mod::lemma_fundamental_div_mod(e * s, d);
    let drop = e * s / d;
    let r = e * s % d;
    assert(d * drop + r == e * s);
    assert(e * s >= (t + 1) * s) by (nonlinear_arith)
        requires
            e >= t + 1,
            s > 0,
    ;
    assert((t + 1) * s == t * s + s) by (nonlinear_arith);
    assert(d * drop > t * s);
    assert(d * drop * n > t * s * n) by (nonlinear_arith)
        requires
            d * drop > t * s,
            n > 0,
    ;
    assert(t * s * n == y * t) by (nonlinear_arith)
        requires
            y == s * n,
    ;
    assert(d * (drop * n - gap) > 0) by (nonlinear_arith)
        requires
            d * drop * n > y * t,
            y * t >= d * gap,
    ;
    assert(drop * n - gap > 0) by (nonlinear_arith)
        requires
            d * (drop * n - gap) > 0,
            d > 0,
    ;
    assert(linear_drop(e, d) == drop);
    if v - drop > 0 {
        assert((v - drop) * n == v * n - drop * n) by (nonlinear_arith);
    }
}

} // verus!
