use crate::body::{Body, BodyModel};
use crate::motion::IntegrationScaling;
use crate::shape::{shapes_intersect, Shape};
use crate::vector::{IntVec3, Vec3};
use vstd::prelude::*;

verus! {

/// What an [`Entity`] stands for.
pub struct EntityModel {
    pub body: Option<BodyModel>,
    pub shape: Option<Shape>,
    pub position: Option<IntVec3>,
}

impl EntityModel {
    /// The entity after gravity has acted for `dt`: its body, if it has one,
    /// has taken the impulse of gravity.
    pub open spec fn after_gravity(self, gravity: IntVec3, dt: nat) -> EntityModel {
        match self.body {
            Some(b) => EntityModel {
                body: Some(b.after_gravity(gravity, dt)),
                shape: self.shape,
                position: self.position,
            },
            None => self,
        }
    }

    /// Whether the gravity step can store what it computes for this entity.
    pub open spec fn gravity_in_range(self, gravity: IntVec3, dt: nat) -> bool {
        match self.body {
            Some(b) => b.gravity_in_range(gravity, dt),
            None => true,
        }
    }

    /// Whether the entity takes part in collisions: whether it has a body, a
    /// shape and a position.
    pub open spec fn collidable(self) -> bool {
        self.body.is_some() && self.shape.is_some() && self.position.is_some()
    }

    /// Whether the two entities take part in collisions and their shapes meet.
    pub open spec fn touches(self, other: EntityModel) -> bool {
        &&& self.collidable()
        &&& other.collidable()
        &&& shapes_intersect(
            self.shape.unwrap(),
            self.position.unwrap(),
            other.shape.unwrap(),
            other.position.unwrap(),
        )
    }

    /// The entity with its body, if it has one, brought to rest.
    pub open spec fn stopped(self) -> EntityModel {
        match self.body {
            Some(b) => EntityModel {
                body: Some(b.stopped()),
                shape: self.shape,
                position: self.position,
            },
            None => self,
        }
    }

    /// The entity after `dt` has passed: one with a body and a position has
    /// moved by the body's displacement, and the body keeps what is left of
    /// its travel.
    pub open spec fn after_integration(
        self,
        dt: nat,
        scaling: IntegrationScaling,
    ) -> EntityModel {
        match (self.body, self.position) {
            (Some(b), Some(p)) => EntityModel {
                body: Some(b.after_integration(dt, scaling)),
                shape: self.shape,
                position: Some(p.plus(b.displacement(dt, scaling))),
            },
            _ => self,
        }
    }

    /// Whether the integration step can store the position that it computes for
    /// this entity.
    pub open spec fn integration_in_range(self, dt: nat, scaling: IntegrationScaling) -> bool {
        match self.after_integration(dt, scaling).position {
            Some(p) => p.representable(),
            None => true,
        }
    }
}

/// One entity of the simulated world: a row of optional components. The steps
/// of a tick pass over an entity that lacks a component they need.
#[derive(Clone, Copy, Debug, PartialEq, Eq, Structural)]
pub struct Entity {
    pub body: Option<Body>,
    pub shape: Option<Shape>,
    pub position: Option<Vec3>,
}

impl View for Entity {
    type V = EntityModel;

    open spec fn view(&self) -> EntityModel {
        EntityModel {
            body: match self.body {
                Some(b) => Some(b@),
                None => None,
            },
            shape: self.shape,
            position: match self.position {
                Some(p) => Some(p@),
                None => None,
            },
        }
    }
}

impl Entity {
    /// An entity with a body and a shape at a position.
    pub fn new(body: Body, shape: Shape, position: Vec3) -> (entity: Self)
        ensures
            entity == (Entity { body: Some(body), shape: Some(shape), position: Some(position) }),
            entity@.collidable(),
    {
        Entity { body: Some(body), shape: Some(shape), position: Some(position) }
    }
}

/// What a world of entities stands for, entity by entity.
pub open spec fn models(entities: Seq<Entity>) -> Seq<EntityModel> {
    Seq::new(entities.len(), |i: int| entities[i]@)
}

} // verus!
