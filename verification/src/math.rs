//! Fixed-point scalar and vector arithmetic for the simulation.
//!
//! One world unit is `UNIT` coordinate steps; one second is `TIME_SCALE`
//! microseconds. Rates (velocities and accelerations) are measured in
//! coordinate steps per second and integrated over an elapsed time in
//! microseconds with truncation toward zero, so every computation is exact
//! integer arithmetic.

use vstd::prelude::*;

verus! {

/// Coordinate steps per world unit.
pub const UNIT: i64 = 1000;

/// Microseconds per second; the divisor when integrating a rate over time.
pub const TIME_SCALE: i64 = 1_000_000;

/// Largest elapsed time a single simulation step accepts, in microseconds.
pub const DT_MAX: i64 = 1_000_000;

/// Positions saturate at this magnitude on each axis.
pub const POS_LIMIT: i64 = 1_000_000_000_000;

/// Largest extent (full width or height of a box) on each axis.
pub const SIDE_LIMIT: i64 = 1_000_000_000;

/// Largest rate (velocity or acceleration magnitude) the integrator accepts.
pub const RATE_LIMIT: i64 = 1_000_000_000;

/// Timers and accumulated clocks saturate here, in microseconds.
pub const TIME_CAP: i64 = 1_000_000_000_000_000;

/// A two-dimensional vector of fixed-point world coordinates.
#[derive(Clone, Copy, Debug, PartialEq, Eq, Structural)]
pub struct Vec2i {
    pub x: i64,
    pub y: i64,
}

/// The mathematical value of a `Vec2i`: a pair of unbounded integers.
pub ghost struct V2 {
    pub x: int,
    pub y: int,
}

impl View for Vec2i {
    type V = V2;

    open spec fn view(&self) -> V2 {
        V2 { x: self.x as int, y: self.y as int }
    }
}

impl Vec2i {
    pub fn new(x: i64, y: i64) -> (v: Vec2i)
        ensures
            v@ == (V2 { x: x as int, y: y as int }),
    {
        Vec2i { x, y }
    }

    pub fn zero() -> (v: Vec2i)
        ensures
            v@ == V2::origin(),
    {
        Vec2i { x: 0, y: 0 }
    }
}

impl V2 {
    pub open spec fn origin() -> V2 {
        V2 { x: 0, y: 0 }
    }

    /// Both components stay within the saturation range for positions.
    pub open spec fn pos_ok(self) -> bool {
        -POS_LIMIT <= self.x <= POS_LIMIT && -POS_LIMIT <= self.y <= POS_LIMIT
    }

    /// Valid box extents: non-negative and bounded on each axis.
    pub open spec fn sides_ok(self) -> bool {
        0 <= self.x <= SIDE_LIMIT && 0 <= self.y <= SIDE_LIMIT
    }
}

/// Shorthand for building a mathematical coordinate pair.
pub open spec fn v2(x: int, y: int) -> V2 {
    V2 { x, y }
}

/// The absolute value of an integer.
pub open spec fn sabs(x: int) -> int {
    if x >= 0 {
        x
    } else {
        -x
    }
}

/// `v` limited to the closed interval `[lo, hi]`.
pub open spec fn clamped(v: int, lo: int, hi: int) -> int {
    if v < lo {
        lo
    } else if v > hi {
        hi
    } else {
        v
    }
}

/// A rate in steps per second integrated over `dt` microseconds, truncated
/// toward zero.
pub open spec fn integrated(v: int, dt: int) -> int {
    if v >= 0 {
        (v * dt) / (TIME_SCALE as int)
    } else {
        -((-v * dt) / (TIME_SCALE as int))
    }
}

/// Each component of a position limited to the saturation range.
pub open spec fn sat_pos(p: V2) -> V2 {
    V2 {
        x: clamped(p.x, -POS_LIMIT as int, POS_LIMIT as int),
        y: clamped(p.y, -POS_LIMIT as int, POS_LIMIT as int),
    }
}

pub fn clamp_i64(v: i64, lo: i64, hi: i64) -> (r: i64)
    requires
        lo <= hi,
    ensures
        r == clamped(v as int, lo as int, hi as int),
{
    if v < lo {
        lo
    } else if v > hi {
        hi
    } else {
        v
    }
}

/// Integrate the rate `v` over `dt` microseconds of elapsed time.
pub fn integrate(v: i64, dt: i64) -> (r: i64)
    requires
        -RATE_LIMIT <= v <= RATE_LIMIT,
        0 <= dt <= DT_MAX,
    ensures
        r == integrated(v as int, dt as int),
        sabs(r as int) <= sabs(v as int),
{
    let m: i64 = if v >= 0 {
        v
    } else {
        -v
    };
    proof {
        let mi = m as int;
        let di = dt as int;
        let ts = TIME_SCALE as int;
        assert(mi * di <= RATE_LIMIT * DT_MAX) by (nonlinear_arith)
            requires
                0 <= mi <= RATE_LIMIT,
                0 <= di <= DT_MAX,
        ;
        assert(0 <= mi * di) by (nonlinear_arith)
            requires
                0 <= mi,
                0 <= di,
        ;
        assert(mi * di <= mi * ts && mi * ts == ts * mi) by (nonlinear_arith)
            requires
                0 <= mi,
                0 <= di <= ts,
        ;
        vstd::arithmetic::div_mod::lemma_div_is_ordered(mi * di, mi * ts, ts);
        vstd::arithmetic::div_mod::lemma_div_multiples_vanish(mi, ts);
        vstd::arithmetic::div_mod::lemma_div_pos_is_pos(mi * di, ts);
        assert((mi * di) / ts <= mi);
        assert(0 <= (mi * di) / ts);
    }
    let scaled: i64 = (((m as u64) * (dt as u64)) / (TIME_SCALE as u64)) as i64;
    if v >= 0 {
        scaled
    } else {
        -scaled
    }
}

} // verus!
