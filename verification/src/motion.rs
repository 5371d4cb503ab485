use crate::body::{Body, BodyModel};
use crate::vector::{floor_divide, in_i64, Drift, IntVec3, Vec3};
use vstd::arithmetic::div_mod::{lemma_fundamental_div_mod, lemma_fundamental_div_mod_converse};
use vstd::prelude::*;

verus! {

/// How the integration step scales the distance that a free body covers.
#[derive(Clone, Copy, Debug, PartialEq, Eq, Structural)]
pub enum IntegrationScaling {
    /// The distance is scaled by the inverse mass once more, although the
    /// velocity already reflects the mass: a body of mass two covers half the
    /// distance that its velocity calls for.
    InverseMass,
    /// The distance is velocity times elapsed time.
    Unscaled,
}

impl Default for IntegrationScaling {
    /// The scaling by inverse mass.
    fn default() -> (scaling: Self)
        ensures
            scaling == IntegrationScaling::InverseMass,
    {
        IntegrationScaling::InverseMass
    }
}

impl BodyModel {
    /// The impulse that gravity gives this body over `dt`: acceleration times
    /// mass times elapsed time.
    pub open spec fn gravity_impulse(self, gravity: IntVec3, dt: nat) -> IntVec3 {
        gravity.times((self.mass * dt) as int)
    }

    /// The body after gravity has acted on it for `dt`.
    pub open spec fn after_gravity(self, gravity: IntVec3, dt: nat) -> BodyModel {
        self.with_impulse(self.gravity_impulse(gravity, dt))
    }

    /// Whether the impulse of gravity and the velocity that it leaves behind can
    /// both be stored.
    pub open spec fn gravity_in_range(self, gravity: IntVec3, dt: nat) -> bool {
        self.gravity_impulse(gravity, dt).representable() && self.accepts(
            self.gravity_impulse(gravity, dt),
        )
    }

    /// The distance that the body has yet to cover after `dt`, counted in
    /// parts of a unit: as many parts to the unit as the square of the mass.
    /// It is what earlier steps left over and the momentum times `dt`, scaled
    /// by the inverse mass twice or, with [`IntegrationScaling::Unscaled`],
    /// once.
    pub open spec fn travel(self, dt: nat, scaling: IntegrationScaling) -> IntVec3 {
        match scaling {
            IntegrationScaling::InverseMass => self.drift.plus(self.momentum().times(dt as int)),
            IntegrationScaling::Unscaled => self.drift.plus(
                self.momentum().times((dt * self.mass) as int),
            ),
        }
    }

    /// The whole units that the body moves in `dt`. A fixed body moves none,
    /// whatever its velocity.
    pub open spec fn displacement(self, dt: nat, scaling: IntegrationScaling) -> IntVec3 {
        if self.is_fixed() {
            IntVec3::zero()
        } else {
            self.travel(dt, scaling).divided_by((self.mass * self.mass) as int)
        }
    }

    /// The body after `dt` has passed: what the whole units do not cover of
    /// its travel is kept for the next step.
    pub open spec fn after_integration(self, dt: nat, scaling: IntegrationScaling) -> BodyModel {
        if self.is_fixed() {
            self
        } else {
            BodyModel {
                mass: self.mass,
                velocity: self.velocity,
                remainder: self.remainder,
                drift: self.travel(dt, scaling).modulo((self.mass * self.mass) as int),
            }
        }
    }
}

/// One component of a body's travel over `dt`, divided by the square of the
/// mass: the whole units, and what is left.
fn travel_component(
    velocity: i64,
    remainder: u32,
    drift: u64,
    mass: u32,
    dt: u32,
    scaling: IntegrationScaling,
) -> (qr: (i128, u64))
    requires
        mass > 0,
    ensures
        scaling == IntegrationScaling::InverseMass ==> qr.0 == (drift + (velocity * mass
            + remainder) * dt) / (mass * mass) && qr.1 == (drift + (velocity * mass + remainder)
            * dt) % (mass * mass),
        scaling == IntegrationScaling::Unscaled ==> qr.0 == (drift + (velocity * mass + remainder)
            * (dt * mass)) / (mass * mass) && qr.1 == (drift + (velocity * mass + remainder) * (dt
            * mass)) % (mass * mass),
        -0x7fff_ffff_8000_0000_0000_0000_0000_0000 <= qr.0
            <= 0x7fff_ffff_8000_0000_0000_0000_0000_0000,
{
    let ghost p = velocity * mass + remainder;
    assert(-0x8000_0000_0000_0000 * 0xffff_ffff <= velocity * mass <= 0x8000_0000_0000_0000
        * 0xffff_ffff) by (nonlinear_arith)
        requires
            -0x8000_0000_0000_0000 <= velocity <= 0x8000_0000_0000_0000,
            0 <= mass <= 0xffff_ffff,
    ;
    let momentum: i128 = velocity as i128 * mass as i128 + remainder as i128;
    assert(-0x7fff_ffff_8000_0000_ffff_ffff <= momentum <= 0x7fff_ffff_8000_0000_ffff_ffff);
    assert(-0x7fff_ffff_0000_0001_7fff_fffe_0000_0001 <= momentum * dt <= 0x7fff_ffff_0000_0001_7fff_fffe_0000_0001) by (nonlinear_arith)
        requires
            -0x7fff_ffff_8000_0000_ffff_ffff <= momentum <= 0x7fff_ffff_8000_0000_ffff_ffff,
            0 <= dt <= 0xffff_ffff,
    ;
    assert(0 < mass * mass <= 0xffff_ffff * 0xffff_ffff) by (nonlinear_arith)
        requires
            0 < mass <= 0xffff_ffff,
    ;
    let square: u64 = mass as u64 * mass as u64;
    let covered: i128 = momentum * dt as i128;
    match scaling {
        IntegrationScaling::InverseMass => floor_divide(drift as i128 + covered, square),
        IntegrationScaling::Unscaled => {
            let (q1, r1) = floor_divide(covered, mass as u64);
            assert(0 <= r1 * mass < mass * mass) by (nonlinear_arith)
                requires
                    0 <= r1 < mass,
            ;
            let (q2, r2) = floor_divide(r1 as i128 * mass as i128 + drift as i128, square);
            assert(0 <= q2 <= 0x2_0000_0000_0000_0000);
            proof {
                let m = mass as int;
                lemma_fundamental_div_mod(covered as int, m);
                lemma_fundamental_div_mod(r1 * m + drift, m * m);
                assert(drift + p * (dt * m) == (q1 + q2) * (m * m) + r2) by (nonlinear_arith)
                    requires
                        covered == p * dt,
                        covered == m * q1 + r1,
                        r1 * m + drift == (m * m) * q2 + r2,
                ;
                lemma_fundamental_div_mod_converse(
                    drift + p * (dt * m),
                    m * m,
                    q1 + q2,
                    r2 as int,
                );
            }
            (q1 + q2, r2)
        },
    }
}

impl Body {
    /// The impulse that gravity gives this body over `dt`, or `None` where a
    /// component of it is out of the range of a [`Vec3`].
    pub fn gravity_impulse(&self, gravity: &Vec3, dt: u32) -> (impulse: Option<Vec3>)
        ensures
            impulse.is_some() == self@.gravity_impulse(gravity@, dt as nat).representable(),
            impulse matches Some(v) ==> v@ == self@.gravity_impulse(gravity@, dt as nat),
    {
        assert(self.mass * dt <= 0xffff_ffff * 0xffff_ffff) by (nonlinear_arith)
            requires
                0 <= self.mass <= 0xffff_ffff,
                0 <= dt <= 0xffff_ffff,
        ;
        let k: u64 = self.mass as u64 * dt as u64;
        assert forall|c: i64| -0x8000_0000_0000_0000 * 0xffff_ffff_ffff_ffff <= #[trigger] (c * k)
            <= 0x8000_0000_0000_0000 * 0xffff_ffff_ffff_ffff by {
            assert(-0x8000_0000_0000_0000 * 0xffff_ffff_ffff_ffff <= c * k
                <= 0x8000_0000_0000_0000 * 0xffff_ffff_ffff_ffff) by (nonlinear_arith)
                requires
                    -0x8000_0000_0000_0000 <= c <= 0x8000_0000_0000_0000,
                    0 <= k <= 0xffff_ffff_ffff_ffff,
            ;
        }
        let x: i128 = gravity.x as i128 * k as i128;
        let y: i128 = gravity.y as i128 * k as i128;
        let z: i128 = gravity.z as i128 * k as i128;
        if in_i64(x) && in_i64(y) && in_i64(z) {
            Some(Vec3 { x: x as i64, y: y as i64, z: z as i64 })
        } else {
            None
        }
    }

    /// Whether the gravity step can be taken on this body: whether the impulse
    /// of gravity and the velocity that it leaves behind can both be stored.
    pub fn gravity_fits(&self, gravity: &Vec3, dt: u32) -> (ok: bool)
        ensures
            ok == self@.gravity_in_range(gravity@, dt as nat),
    {
        match self.gravity_impulse(gravity, dt) {
            Some(impulse) => self.accepts(&impulse),
            None => false,
        }
    }

    /// Where a body at `position` stands after `dt` and what is left of its
    /// travel, or `None` where a coordinate of that place is out of the range
    /// of a [`Vec3`].
    pub fn displaced(&self, position: &Vec3, dt: u32, scaling: IntegrationScaling) -> (after:
        Option<(Vec3, Drift)>)
        ensures
            after.is_some() == position@.plus(
                self@.displacement(dt as nat, scaling),
            ).representable(),
            after matches Some(pd) ==> pd.0@ == position@.plus(
                self@.displacement(dt as nat, scaling),
            ) && pd.1@ == self@.after_integration(dt as nat, scaling).drift,
    {
        if self.mass == 0 {
            return Some((*position, self.drift));
        }
        let (dx, rx) = travel_component(
            self.velocity.x,
            self.remainder.x,
            self.drift.x,
            self.mass,
            dt,
            scaling,
        );
        let (dy, ry) = travel_component(
            self.velocity.y,
            self.remainder.y,
            self.drift.y,
            self.mass,
            dt,
            scaling,
        );
        let (dz, rz) = travel_component(
            self.velocity.z,
            self.remainder.z,
            self.drift.z,
            self.mass,
            dt,
            scaling,
        );
        let x: i128 = position.x as i128 + dx;
        let y: i128 = position.y as i128 + dy;
        let z: i128 = position.z as i128 + dz;
        if in_i64(x) && in_i64(y) && in_i64(z) {
            Some((Vec3 { x: x as i64, y: y as i64, z: z as i64 }, Drift { x: rx, y: ry, z: rz }))
        } else {
            None
        }
    }
}

} // verus!
