use crate::vector::{floor_divide, in_i64, Drift, IntVec3, Remainder, Vec3};
use vstd::prelude::*;

verus! {

/// What a [`Body`] stands for: a mass, a velocity in whole units, and what the
/// divisions by the mass have left so far.
///
/// The momentum of a free body is `velocity * mass + remainder`: the sum of
/// all impulses it has taken. Nothing of an impulse is ever lost.
pub struct BodyModel {
    pub mass: nat,
    pub velocity: IntVec3,
    pub remainder: IntVec3,
    pub drift: IntVec3,
}

impl BodyModel {
    /// A body without mass is fixed: no impulse moves it.
    pub open spec fn is_fixed(self) -> bool {
        self.mass == 0
    }

    /// A free body is well formed when its remainders are remainders: those of
    /// the momentum less than the mass, those of the distance less than the
    /// square of the mass, and none of them negative.
    pub open spec fn well_formed(self) -> bool {
        self.mass > 0 ==> self.remainder.below(self.mass as int) && self.drift.below(
            (self.mass * self.mass) as int,
        )
    }

    /// The momentum: the velocity times the mass, and what is left over.
    pub open spec fn momentum(self) -> IntVec3 {
        self.velocity.times(self.mass as int).plus(self.remainder)
    }

    /// `v` scaled by the inverse of the mass: zero for a fixed body, else `v`
    /// divided by the mass, rounded down.
    pub open spec fn scaled_by_inverse_mass(self, v: IntVec3) -> IntVec3 {
        if self.mass == 0 {
            IntVec3::zero()
        } else {
            v.divided_by(self.mass as int)
        }
    }

    /// The body after `impulse` has acted on it: the impulse is added to the
    /// momentum, the velocity is the new momentum scaled by the inverse mass,
    /// and what that division leaves is kept for the next impulse.
    pub open spec fn with_impulse(self, impulse: IntVec3) -> BodyModel {
        if self.is_fixed() {
            self
        } else {
            BodyModel {
                mass: self.mass,
                velocity: self.scaled_by_inverse_mass(self.momentum().plus(impulse)),
                remainder: self.momentum().plus(impulse).modulo(self.mass as int),
                drift: self.drift,
            }
        }
    }

    /// Whether the velocity that `impulse` leaves behind can be stored.
    pub open spec fn accepts(self, impulse: IntVec3) -> bool {
        self.with_impulse(impulse).velocity.representable()
    }

    /// The body brought to rest: without velocity and without momentum.
    pub open spec fn stopped(self) -> BodyModel {
        BodyModel {
            mass: self.mass,
            velocity: IntVec3::zero(),
            remainder: IntVec3::zero(),
            drift: self.drift,
        }
    }
}

/// The state of a point mass: its mass, its velocity in whole units, and what
/// the divisions by the mass have left.
///
/// The inverse mass is not stored. It is derived from the mass wherever it is
/// used, so the two cannot drift apart: a body of mass zero has inverse mass
/// zero, and scaling by the inverse mass of any other body is division by its
/// mass. `remainder` holds what the division of the momentum leaves, so that
/// impulses add up; `drift` holds what the division of the distance leaves, so
/// that a slow body still gets somewhere.
#[derive(Clone, Copy, Debug, PartialEq, Eq, Structural)]
pub struct Body {
    pub mass: u32,
    pub velocity: Vec3,
    pub remainder: Remainder,
    pub drift: Drift,
}

impl View for Body {
    type V = BodyModel;

    open spec fn view(&self) -> BodyModel {
        BodyModel {
            mass: self.mass as nat,
            velocity: self.velocity@,
            remainder: self.remainder@,
            drift: self.drift@,
        }
    }
}

/// One component of a momentum with an impulse added, divided by the mass.
fn push_component(velocity: i64, remainder: u32, impulse: i64, mass: u32) -> (qr: (i128, u32))
    requires
        mass > 0,
    ensures
        qr.0 == (velocity * mass + remainder + impulse) / (mass as int),
        qr.1 == (velocity * mass + remainder + impulse) % (mass as int),
{
    assert(-0x8000_0000_0000_0000 * 0xffff_ffff <= velocity * mass <= 0x8000_0000_0000_0000
        * 0xffff_ffff) by (nonlinear_arith)
        requires
            -0x8000_0000_0000_0000 <= velocity <= 0x8000_0000_0000_0000,
            0 <= mass <= 0xffff_ffff,
    ;
    let p: i128 = velocity as i128 * mass as i128 + remainder as i128 + impulse as i128;
    let (q, r) = floor_divide(p, mass as u64);
    (q, r as u32)
}

impl Body {
    /// A body of the given mass, at rest.
    pub fn new(mass: u32) -> (body: Self)
        ensures
            body@ == (BodyModel {
                mass: mass as nat,
                velocity: IntVec3::zero(),
                remainder: IntVec3::zero(),
                drift: IntVec3::zero(),
            }),
            body@.well_formed(),
    {
        assert(mass > 0 ==> mass * mass > 0) by (nonlinear_arith);
        Body { mass, velocity: Vec3::zero(), remainder: Remainder::zero(), drift: Drift::zero() }
    }

    /// A fixed body: one of mass zero, at rest.
    pub fn fixed() -> (body: Self)
        ensures
            body@ == (BodyModel {
                mass: 0,
                velocity: IntVec3::zero(),
                remainder: IntVec3::zero(),
                drift: IntVec3::zero(),
            }),
            body@.is_fixed(),
    {
        Body::new(0)
    }

    /// Whether this body is fixed.
    pub fn is_fixed(&self) -> (fixed: bool)
        ensures
            fixed == self@.is_fixed(),
    {
        self.mass == 0
    }

    /// The velocity and the remainder that `impulse` leaves behind, or `None`
    /// where a component of that velocity is out of the range of a [`Vec3`].
    fn pushed(&self, impulse: &Vec3) -> (after: Option<(Vec3, Remainder)>)
        ensures
            after.is_some() == self@.accepts(impulse@),
            after matches Some(vr) ==> vr.0@ == self@.with_impulse(impulse@).velocity && vr.1@
                == self@.with_impulse(impulse@).remainder,
    {
        if self.mass == 0 {
            return Some((self.velocity, self.remainder));
        }
        let (x, rx) = push_component(self.velocity.x, self.remainder.x, impulse.x, self.mass);
        let (y, ry) = push_component(self.velocity.y, self.remainder.y, impulse.y, self.mass);
        let (z, rz) = push_component(self.velocity.z, self.remainder.z, impulse.z, self.mass);
        if in_i64(x) && in_i64(y) && in_i64(z) {
            Some(
                (
                    Vec3 { x: x as i64, y: y as i64, z: z as i64 },
                    Remainder { x: rx, y: ry, z: rz },
                ),
            )
        } else {
            None
        }
    }

    /// Whether `impulse` can be applied: whether the velocity that it leaves
    /// behind fits the components of a [`Vec3`].
    pub fn accepts(&self, impulse: &Vec3) -> (ok: bool)
        ensures
            ok == self@.accepts(impulse@),
    {
        self.pushed(impulse).is_some()
    }

    /// Applies a linear impulse: a fixed body is left as it is, any other gains
    /// the impulse as momentum, and its velocity is that momentum scaled by
    /// its inverse mass.
    pub fn apply_impulse_linear(&mut self, impulse: Vec3)
        requires
            old(self)@.accepts(impulse@),
        ensures
            final(self)@ == old(self)@.with_impulse(impulse@),
    {
        if self.mass == 0 {
            return ;
        }
        match self.pushed(&impulse) {
            Some((velocity, remainder)) => {
                self.velocity = velocity;
                self.remainder = remainder;
            },
            None => {},
        }
    }
}

} // verus!
