//! Stick samples and the radial response curve applied to them.
use vstd::prelude::*;

verus! {

/// Fixed-point representation of 1.0 for a stick component.
pub const UNIT: i32 = 10000;

/// `UNIT * UNIT`: a magnitude of 1.0 on the squared scale used by `level`.
pub const FULL_LEVEL: u64 = 100000000;

/// One stick sample; each component is in units of `1 / UNIT`.
#[derive(Clone, Copy, Debug, PartialEq, Eq, Structural)]
pub struct Vector2 {
    pub x: i32,
    pub y: i32,
}

/// A conditioned stick sample.
///
/// Its direction is that of `dir`, and its magnitude is `level / FULL_LEVEL`.
/// The zero vector is held as a zero `dir` with a zero `level`.
#[derive(Clone, Copy, Debug, PartialEq, Eq, Structural)]
pub struct Conditioned {
    pub dir: Vector2,
    pub level: u64,
}

impl Vector2 {
    /// Squared Euclidean length, in units of `1 / (UNIT * UNIT)`.
    pub open spec fn mag2(self) -> int {
        self.x * self.x + self.y * self.y
    }

    pub open spec fn is_zero_spec(self) -> bool {
        self.x == 0 && self.y == 0
    }

    pub fn new(x: i32, y: i32) -> (r: Vector2)
        ensures
            r.x == x,
            r.y == y,
    {
        Vector2 { x, y }
    }

    pub fn magnitude_squared(&self) -> (r: u64)
        ensures
            r == self.mag2(),
    {
        let x = self.x as i64;
        let y = self.y as i64;
        proof {
            assert(0 <= x * x <= 0x4000_0000_0000_0000) by (nonlinear_arith)
                requires -0x8000_0000 <= x <= 0x7fff_ffff;
            assert(0 <= y * y <= 0x4000_0000_0000_0000) by (nonlinear_arith)
                requires -0x8000_0000 <= y <= 0x7fff_ffff;
        }
        let xx = (x * x) as u64;
        let yy = (y * y) as u64;
        xx + yy
    }

    pub fn is_zero(&self) -> (r: bool)
        ensures
            r == self.is_zero_spec(),
    {
        self.x == 0 && self.y == 0
    }
}

impl Conditioned {
    /// Whether the magnitude is at least `level / FULL_LEVEL`.
    pub fn reaches(&self, level: u64) -> (r: bool)
        ensures
            r == (self.level >= level),
    {
        self.level >= level
    }
}

/// Conditioned magnitude of a raw sample: `min(|v|^2, 1)` on the squared scale.
pub open spec fn level_of(v: Vector2) -> int {
    if v.mag2() >= FULL_LEVEL {
        FULL_LEVEL as int
    } else {
        v.mag2()
    }
}

/// The radial response curve: keeps the direction of `raw` and gives it the
/// magnitude `min(|raw|^2, 1)`, so that small deflections respond gently and
/// full deflection is capped at 1.
pub fn transform_input_vector(raw: Vector2) -> (r: Conditioned)
    ensures
        r.dir == raw,
        r.level == level_of(raw),
        raw.mag2() >= FULL_LEVEL ==> r.level == FULL_LEVEL,
        0 < raw.mag2() < FULL_LEVEL ==> r.level == raw.mag2(),
        raw.is_zero_spec() ==> r.dir.is_zero_spec() && r.level == 0,
{
    let m = raw.magnitude_squared();
    let level = if m >= FULL_LEVEL {
        FULL_LEVEL
    } else {
        m
    };
    Conditioned { dir: raw, level }
}

} // verus!
