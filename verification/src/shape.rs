use crate::vector::{IntVec3, Vec3};
use vstd::prelude::*;

verus! {

/// A ball around its entity's position.
#[derive(Clone, Copy, Debug, PartialEq, Eq, Structural)]
pub struct SphereShape {
    pub radius: u32,
}

/// The collision geometry of an entity: a closed set of primitives.
#[derive(Clone, Copy, Debug, PartialEq, Eq, Structural)]
pub enum Shape {
    Sphere(SphereShape),
}

/// Whether two closed balls meet: whether the squared distance of their
/// centers is at most the square of their combined radius. Balls that merely
/// touch do meet.
pub open spec fn spheres_intersect(c1: IntVec3, r1: nat, c2: IntVec3, r2: nat) -> bool {
    c2.minus(c1).length_squared() <= (r1 + r2) * (r1 + r2)
}

/// Whether shape `s1` at `c1` meets shape `s2` at `c2`, for every pairing of
/// primitives.
pub open spec fn shapes_intersect(s1: Shape, c1: IntVec3, s2: Shape, c2: IntVec3) -> bool {
    match (s1, s2) {
        (Shape::Sphere(a), Shape::Sphere(b)) => spheres_intersect(
            c1,
            a.radius as nat,
            c2,
            b.radius as nat,
        ),
    }
}

impl Shape {
    /// A shape is well formed when it has volume: a sphere when its radius is
    /// positive.
    pub open spec fn well_formed(self) -> bool {
        match self {
            Shape::Sphere(s) => s.radius > 0,
        }
    }

    /// The sphere of the given radius, which must be positive.
    pub fn sphere(radius: u32) -> (shape: Self)
        requires
            radius > 0,
        ensures
            shape == Shape::Sphere(SphereShape { radius }),
            shape.well_formed(),
    {
        Shape::Sphere(SphereShape { radius })
    }

    /// Whether this shape, placed at `at`, meets `other`, placed at `other_at`.
    pub fn intersects(&self, at: &Vec3, other: &Shape, other_at: &Vec3) -> (hit: bool)
        ensures
            hit == shapes_intersect(*self, at@, *other, other_at@),
    {
        match (self, other) {
            (Shape::Sphere(a), Shape::Sphere(b)) => sphere_meets_sphere(a, at, b, other_at),
        }
    }
}

/// The distance between two coordinates.
fn gap(a: i64, b: i64) -> (d: u128)
    ensures
        d == if b - a >= 0 {
            b - a
        } else {
            a - b
        },
{
    let d: i128 = b as i128 - a as i128;
    if d >= 0 {
        d as u128
    } else {
        (-d) as u128
    }
}

/// The sphere-sphere test, on squared distances throughout.
pub fn sphere_meets_sphere(s1: &SphereShape, c1: &Vec3, s2: &SphereShape, c2: &Vec3) -> (hit:
    bool)
    ensures
        hit == spheres_intersect(c1@, s1.radius as nat, c2@, s2.radius as nat),
{
    let reach: u128 = s1.radius as u128 + s2.radius as u128;
    let dx: u128 = gap(c1.x, c2.x);
    let dy: u128 = gap(c1.y, c2.y);
    let dz: u128 = gap(c1.z, c2.z);
    proof {
        let d = c2@.minus(c1@);
        assert(dx * dx == d.x * d.x && dy * dy == d.y * d.y && dz * dz == d.z * d.z)
            by (nonlinear_arith)
            requires
                dx == d.x || dx == -d.x,
                dy == d.y || dy == -d.y,
                dz == d.z || dz == -d.z,
        ;
        assert(dx * dx >= 0 && dy * dy >= 0 && dz * dz >= 0) by (nonlinear_arith);
    }
    if dx > reach || dy > reach || dz > reach {
        proof {
            assert(dx > reach ==> dx * dx > reach * reach) by (nonlinear_arith);
            assert(dy > reach ==> dy * dy > reach * reach) by (nonlinear_arith);
            assert(dz > reach ==> dz * dz > reach * reach) by (nonlinear_arith);
        }
        return false;
    }
    proof {
        assert(reach * reach <= 0x2_0000_0000 * 0x2_0000_0000
            && dx * dx <= reach * reach
            && dy * dy <= reach * reach
            && dz * dz <= reach * reach) by (nonlinear_arith)
            requires
                0 <= dx <= reach,
                0 <= dy <= reach,
                0 <= dz <= reach,
                reach <= 0x2_0000_0000,
        ;
    }
    dx * dx + dy * dy + dz * dz <= reach * reach
}

/// What the sphere test compares, for an observer: the squared distance of
/// the centers, the combined radius and its square.
#[derive(Clone, Copy, Debug, PartialEq, Eq, Structural)]
pub struct SphereMeasures {
    /// The squared distance of the centers, or `None` where it is more than a
    /// `u128` holds.
    pub distance_squared: Option<u128>,
    pub combined_radius: u64,
    pub combined_radius_squared: u128,
}

/// The measures of two spheres. They decide nothing: [`sphere_meets_sphere`]
/// does, and agrees with them.
pub fn sphere_measures(s1: &SphereShape, c1: &Vec3, s2: &SphereShape, c2: &Vec3) -> (m:
    SphereMeasures)
    ensures
        m.combined_radius == s1.radius + s2.radius,
        m.combined_radius_squared == (s1.radius + s2.radius) * (s1.radius + s2.radius),
        m.distance_squared == if c2@.minus(c1@).length_squared() <= u128::MAX {
            Some(c2@.minus(c1@).length_squared() as u128)
        } else {
            None
        },
        spheres_intersect(c1@, s1.radius as nat, c2@, s2.radius as nat) <==> (
        m.distance_squared matches Some(d) && d <= m.combined_radius_squared),
{
    let reach: u64 = s1.radius as u64 + s2.radius as u64;
    let dx: u128 = gap(c1.x, c2.x);
    let dy: u128 = gap(c1.y, c2.y);
    let dz: u128 = gap(c1.z, c2.z);
    proof {
        let d = c2@.minus(c1@);
        assert(dx * dx == d.x * d.x && dy * dy == d.y * d.y && dz * dz == d.z * d.z)
            by (nonlinear_arith)
            requires
                dx == d.x || dx == -d.x,
                dy == d.y || dy == -d.y,
                dz == d.z || dz == -d.z,
        ;
        assert(0 <= dx * dx <= 0xffff_ffff_ffff_ffff * 0xffff_ffff_ffff_ffff && 0 <= dy * dy
            <= 0xffff_ffff_ffff_ffff * 0xffff_ffff_ffff_ffff && 0 <= dz * dz
            <= 0xffff_ffff_ffff_ffff * 0xffff_ffff_ffff_ffff) by (nonlinear_arith)
            requires
                0 <= dx <= 0xffff_ffff_ffff_ffff,
                0 <= dy <= 0xffff_ffff_ffff_ffff,
                0 <= dz <= 0xffff_ffff_ffff_ffff,
        ;
        assert(reach * reach <= 0x2_0000_0000 * 0x2_0000_0000) by (nonlinear_arith)
            requires
                0 <= reach <= 0x2_0000_0000,
        ;
    }
    let xx: u128 = dx * dx;
    let yy: u128 = dy * dy;
    let zz: u128 = dz * dz;
    let reach_squared: u128 = reach as u128 * reach as u128;
    let distance_squared = if xx > u128::MAX - yy {
        None
    } else if xx + yy > u128::MAX - zz {
        None
    } else {
        Some(xx + yy + zz)
    };
    SphereMeasures { distance_squared, combined_radius: reach, combined_radius_squared: reach_squared }
}

} // verus!
