use crate::body::{Body, BodyModel};
use crate::vector::{IntVec3, Remainder, Vec3};
use vstd::prelude::*;

verus! {

/// What becomes of two bodies whose shapes have been found to meet.
///
/// Detection is not the policy's business: the collision step decides which
/// pairs meet and hands each such pair to the policy, first the body of the
/// entity with the smaller index. A policy changes how the bodies move, never
/// what they weigh.
pub trait CollisionResponsePolicy {
    /// The two bodies after the response. A policy that does not say otherwise
    /// leaves both as they are.
    open spec fn response(&self, first: BodyModel, second: BodyModel) -> (BodyModel, BodyModel) {
        (first, second)
    }

    /// Responds to the collision of `first` and `second`.
    fn respond(&self, first: &mut Body, second: &mut Body)
        ensures
            final(first)@ == self.response(old(first)@, old(second)@).0,
            final(second)@ == self.response(old(first)@, old(second)@).1,
            final(first)@.mass == old(first)@.mass,
            final(second)@.mass == old(second)@.mass,
    ;
}

/// The response that brings both bodies to rest, whatever their masses and
/// whichever way they were moving.
#[derive(Clone, Copy, Debug, PartialEq, Eq, Structural)]
pub struct ZeroVelocity;

impl CollisionResponsePolicy for ZeroVelocity {
    open spec fn response(&self, first: BodyModel, second: BodyModel) -> (BodyModel, BodyModel) {
        (first.stopped(), second.stopped())
    }

    fn respond(&self, first: &mut Body, second: &mut Body) {
        first.velocity = Vec3::zero();
        first.remainder = Remainder::zero();
        second.velocity = Vec3::zero();
        second.remainder = Remainder::zero();
    }
}

/// The body moving at `velocity`, in whole units and with nothing left over.
pub open spec fn moving_at(body: BodyModel, velocity: IntVec3) -> BodyModel {
    BodyModel {
        mass: body.mass,
        velocity,
        remainder: IntVec3::zero(),
        drift: body.drift,
    }
}

/// The response that lets the two bodies trade their velocities, whatever
/// their masses.
#[derive(Clone, Copy, Debug, PartialEq, Eq, Structural)]
pub struct ExchangeVelocities;

impl CollisionResponsePolicy for ExchangeVelocities {
    open spec fn response(&self, first: BodyModel, second: BodyModel) -> (BodyModel, BodyModel) {
        (moving_at(first, second.velocity), moving_at(second, first.velocity))
    }

    fn respond(&self, first: &mut Body, second: &mut Body) {
        let velocity = first.velocity;
        first.velocity = second.velocity;
        first.remainder = Remainder::zero();
        second.velocity = velocity;
        second.remainder = Remainder::zero();
    }
}

} // verus!
