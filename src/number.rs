//! Three-component vectors and dual numbers over integer scalars.
use vstd::prelude::*;

verus! {

/// A vector with three components.
#[derive(Clone, Copy, Debug, PartialEq, Eq)]
pub struct Vector3<T> {
    pub x: T,
    pub y: T,
    pub z: T,
}

impl<T> Vector3<T> {
    pub fn new(x: T, y: T, z: T) -> (r: Self)
        ensures
            r.x == x,
            r.y == y,
            r.z == z,
    {
        Self { x, y, z }
    }
}

/// The cross product of two integer vectors.
pub open spec fn cross_spec(a: Vector3<i64>, b: Vector3<i64>) -> (int, int, int) {
    (
        a.y * b.z - a.z * b.y,
        a.z * b.x - a.x * b.z,
        a.x * b.y - a.y * b.x,
    )
}

/// The squared Euclidean length of an integer vector.
pub open spec fn len2_spec(a: Vector3<i64>) -> int {
    a.x * a.x + a.y * a.y + a.z * a.z
}

/// `value` limited to the closed interval from `min` to `max`: below `min` gives
/// `min`, above `max` gives `max`.
pub open spec fn clamp_spec(value: int, min: int, max: int) -> int {
    if value < min {
        min
    } else if value > max {
        max
    } else {
        value
    }
}

/// A value that fits in an `i64`.
pub open spec fn fits_i64(v: int) -> bool {
    i64::MIN <= v <= i64::MAX
}

impl Vector3<i64> {
    pub fn cross(self, rhs: Self) -> (r: Self)
        requires
            fits_i64(self.y * rhs.z),
            fits_i64(self.z * rhs.y),
            fits_i64(self.z * rhs.x),
            fits_i64(self.x * rhs.z),
            fits_i64(self.x * rhs.y),
            fits_i64(self.y * rhs.x),
            fits_i64(cross_spec(self, rhs).0),
            fits_i64(cross_spec(self, rhs).1),
            fits_i64(cross_spec(self, rhs).2),
        ensures
            (r.x as int, r.y as int, r.z as int) == cross_spec(self, rhs),
    {
        Vector3::new(
            self.y * rhs.z - self.z * rhs.y,
            self.z * rhs.x - self.x * rhs.z,
            self.x * rhs.y - self.y * rhs.x,
        )
    }

    pub fn clamp(self, min: i64, max: i64) -> (r: Self)
        ensures
            r.x == clamp_spec(self.x as int, min as int, max as int),
            r.y == clamp_spec(self.y as int, min as int, max as int),
            r.z == clamp_spec(self.z as int, min as int, max as int),
    {
        Self::new(clamp(self.x, min, max), clamp(self.y, min, max), clamp(self.z, min, max))
    }

    pub fn len2(self) -> (r: i64)
        requires
            fits_i64(self.x * self.x + self.y * self.y + self.z * self.z),
        ensures
            r == len2_spec(self),
    {
        proof {
            assert(0 <= self.x * self.x) by (nonlinear_arith);
            assert(0 <= self.y * self.y) by (nonlinear_arith);
            assert(0 <= self.z * self.z) by (nonlinear_arith);
        }
        self.x * self.x + self.y * self.y + self.z * self.z
    }
}

/// Limits `value` to the interval from `min` to `max`. Where `min > max`, a value
/// below `min` gives `min` and any other gives `max`.
pub fn clamp(value: i64, min: i64, max: i64) -> (r: i64)
    ensures
        r == clamp_spec(value as int, min as int, max as int),
{
    if value < min {
        min
    } else if value > max {
        max
    } else {
        value
    }
}

/// A dual number: a real part and an infinitesimal part.
#[derive(Clone, Copy, Debug, PartialEq, Eq)]
pub struct Dual<T> {
    value: T,
    dual: T,
}

impl<T> Dual<T> {
    /// The real part.
    pub closed spec fn real_part(self) -> T {
        self.value
    }

    /// The infinitesimal part.
    pub closed spec fn dual_part(self) -> T {
        self.dual
    }

    pub fn new(value: T, dual: T) -> (r: Self)
        ensures
            r.real_part() == value,
            r.dual_part() == dual,
    {
        Self { value, dual }
    }
}

} // verus!
