use vstd::arithmetic::div_mod::{lemma_fundamental_div_mod, lemma_fundamental_div_mod_converse};
use vstd::prelude::*;

verus! {

/// A vector of three mathematical integers: what a [`Vec3`] stands for, and the
/// type in which every contract of this crate does its arithmetic.
pub struct IntVec3 {
    pub x: int,
    pub y: int,
    pub z: int,
}

/// Whether `v` can be held in an `i64`.
pub open spec fn fits_i64(v: int) -> bool {
    i64::MIN <= v <= i64::MAX
}

impl IntVec3 {
    /// The vector of no length.
    pub open spec fn zero() -> Self {
        IntVec3 { x: 0, y: 0, z: 0 }
    }

    /// The sum, component by component.
    pub open spec fn plus(self, other: Self) -> Self {
        IntVec3 { x: self.x + other.x, y: self.y + other.y, z: self.z + other.z }
    }

    /// The difference, component by component.
    pub open spec fn minus(self, other: Self) -> Self {
        IntVec3 { x: self.x - other.x, y: self.y - other.y, z: self.z - other.z }
    }

    /// Every component multiplied by `k`.
    pub open spec fn times(self, k: int) -> Self {
        IntVec3 { x: self.x * k, y: self.y * k, z: self.z * k }
    }

    /// Every component with its sign turned.
    pub open spec fn negated(self) -> Self {
        IntVec3 { x: -self.x, y: -self.y, z: -self.z }
    }

    /// Every component divided by `d`, each quotient rounded down.
    pub open spec fn divided_by(self, d: int) -> Self {
        IntVec3 { x: self.x / d, y: self.y / d, z: self.z / d }
    }

    /// What the division of every component by `d` leaves: for a positive `d`,
    /// numbers from zero up to `d - 1`.
    pub open spec fn modulo(self, d: int) -> Self {
        IntVec3 { x: self.x % d, y: self.y % d, z: self.z % d }
    }

    /// Whether every component is at least zero and less than `d`.
    pub open spec fn below(self, d: int) -> bool {
        0 <= self.x < d && 0 <= self.y < d && 0 <= self.z < d
    }

    /// The square of the Euclidean length.
    pub open spec fn length_squared(self) -> int {
        self.x * self.x + self.y * self.y + self.z * self.z
    }

    /// Whether every component can be held in an `i64`.
    pub open spec fn representable(self) -> bool {
        fits_i64(self.x) && fits_i64(self.y) && fits_i64(self.z)
    }
}

/// A point or displacement on the integer lattice, in the caller's units.
#[derive(Clone, Copy, Debug, PartialEq, Eq, Structural)]
pub struct Vec3 {
    pub x: i64,
    pub y: i64,
    pub z: i64,
}

impl View for Vec3 {
    type V = IntVec3;

    open spec fn view(&self) -> IntVec3 {
        IntVec3 { x: self.x as int, y: self.y as int, z: self.z as int }
    }
}

impl Vec3 {
    /// The vector with the given components.
    pub fn new(x: i64, y: i64, z: i64) -> (v: Self)
        ensures
            v == (Vec3 { x, y, z }),
    {
        Vec3 { x, y, z }
    }

    /// The zero vector.
    pub fn zero() -> (v: Self)
        ensures
            v@ == IntVec3::zero(),
            v == (Vec3 { x: 0, y: 0, z: 0 }),
    {
        Vec3 { x: 0, y: 0, z: 0 }
    }
}

/// What the divisions by a mass leave of a momentum, component by component.
#[derive(Clone, Copy, Debug, PartialEq, Eq, Structural)]
pub struct Remainder {
    pub x: u32,
    pub y: u32,
    pub z: u32,
}

impl View for Remainder {
    type V = IntVec3;

    open spec fn view(&self) -> IntVec3 {
        IntVec3 { x: self.x as int, y: self.y as int, z: self.z as int }
    }
}

impl Remainder {
    /// Nothing left over.
    pub fn zero() -> (r: Self)
        ensures
            r@ == IntVec3::zero(),
    {
        Remainder { x: 0, y: 0, z: 0 }
    }
}

/// What the divisions by the square of a mass leave of a distance, component
/// by component.
#[derive(Clone, Copy, Debug, PartialEq, Eq, Structural)]
pub struct Drift {
    pub x: u64,
    pub y: u64,
    pub z: u64,
}

impl View for Drift {
    type V = IntVec3;

    open spec fn view(&self) -> IntVec3 {
        IntVec3 { x: self.x as int, y: self.y as int, z: self.z as int }
    }
}

impl Drift {
    /// Nothing left over.
    pub fn zero() -> (d: Self)
        ensures
            d@ == IntVec3::zero(),
    {
        Drift { x: 0, y: 0, z: 0 }
    }
}

/// `a` divided by `d`, rounded down, and what the division leaves.
pub(crate) fn floor_divide(a: i128, d: u64) -> (qr: (i128, u64))
    requires
        d > 0,
        a > i128::MIN,
    ensures
        qr.0 == (a as int) / (d as int),
        qr.1 == (a as int) % (d as int),
        a >= 0 ==> 0 <= qr.0 <= a,
        a < 0 ==> a <= qr.0 < 0,
{
    if a >= 0 {
        let q: u128 = a as u128 / d as u128;
        let r: u128 = a as u128 % d as u128;
        proof {
            lemma_fundamental_div_mod(a as int, d as int);
            assert(0 <= q <= a) by (nonlinear_arith)
                requires
                    a == d * q + r,
                    0 <= r < d,
                    0 <= a,
            ;
        }
        (q as i128, r as u64)
    } else {
        let n: u128 = (-a) as u128;
        let q0: u128 = n / d as u128;
        let r0: u128 = n % d as u128;
        proof {
            lemma_fundamental_div_mod(n as int, d as int);
            assert(0 <= q0 <= n) by (nonlinear_arith)
                requires
                    n == d * q0 + r0,
                    0 <= r0 < d,
                    0 <= n,
            ;
        }
        if r0 == 0 {
            proof {
                assert(a == (-q0) * d + 0 && q0 > 0 && a <= -q0) by (nonlinear_arith)
                    requires
                        a == -n,
                        n == d * q0 + r0,
                        r0 == 0,
                        n > 0,
                        d > 0,
                ;
                lemma_fundamental_div_mod_converse(a as int, d as int, -q0, 0);
            }
            (-(q0 as i128), 0)
        } else {
            proof {
                assert(a == (-q0 - 1) * d + (d - r0) && a <= -q0 - 1) by (nonlinear_arith)
                    requires
                        a == -n,
                        n == d * q0 + r0,
                        0 < r0,
                        0 <= q0,
                        0 < d,
                ;
                lemma_fundamental_div_mod_converse(a as int, d as int, -q0 - 1, d - r0);
            }
            (-(q0 as i128) - 1, (d as u128 - r0) as u64)
        }
    }
}

/// Whether `v` lies in the range of an `i64`.
pub(crate) fn in_i64(v: i128) -> (ok: bool)
    ensures
        ok == fits_i64(v as int),
{
    -0x8000_0000_0000_0000i128 <= v && v <= 0x7fff_ffff_ffff_ffffi128
}

} // verus!
