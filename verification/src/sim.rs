use crate::collision::{after_collision, collide};
use crate::entity::{models, Entity, EntityModel};
use crate::laws::{
    gravity_accumulates_independent_of_mass, has_fixed_body, has_free_body,
    tick_keeps_fixed_bodies_in_place,
};
use crate::motion::IntegrationScaling;
use crate::vector::{IntVec3, Vec3};
use vstd::prelude::*;

verus! {

/// The world after the gravity step: every body has taken the impulse of
/// gravity over `dt`.
pub open spec fn after_gravity(world: Seq<EntityModel>, gravity: IntVec3, dt: nat) -> Seq<
    EntityModel,
> {
    Seq::new(world.len(), |k: int| world[k].after_gravity(gravity, dt))
}

/// Whether the gravity step can store what it computes for every entity.
pub open spec fn gravity_in_range(world: Seq<EntityModel>, gravity: IntVec3, dt: nat) -> bool {
    forall|k: int| 0 <= k < world.len() ==> (#[trigger] world[k]).gravity_in_range(gravity, dt)
}

/// The world after the integration step: every entity with a body and a
/// position has moved by its body's displacement over `dt`.
pub open spec fn after_integration(
    world: Seq<EntityModel>,
    dt: nat,
    scaling: IntegrationScaling,
) -> Seq<EntityModel> {
    Seq::new(world.len(), |k: int| world[k].after_integration(dt, scaling))
}

/// Whether the integration step can store the position of every entity.
pub open spec fn integration_in_range(
    world: Seq<EntityModel>,
    dt: nat,
    scaling: IntegrationScaling,
) -> bool {
    forall|k: int|
        0 <= k < world.len() ==> (#[trigger] world[k]).integration_in_range(dt, scaling)
}

/// The world after one tick: gravity, then collisions, then integration.
pub open spec fn after_tick(
    world: Seq<EntityModel>,
    gravity: IntVec3,
    dt: nat,
    scaling: IntegrationScaling,
) -> Seq<EntityModel> {
    after_integration(after_collision(after_gravity(world, gravity, dt)), dt, scaling)
}

/// Whether a whole tick can store what it computes.
pub open spec fn tick_in_range(
    world: Seq<EntityModel>,
    gravity: IntVec3,
    dt: nat,
    scaling: IntegrationScaling,
) -> bool {
    &&& gravity_in_range(world, gravity, dt)
    &&& integration_in_range(after_collision(after_gravity(world, gravity, dt)), dt, scaling)
}

/// The acceleration of ten units straight down.
pub fn standard_gravity() -> (gravity: Vec3)
    ensures
        gravity@ == (IntVec3 { x: 0, y: -10, z: 0 }),
{
    Vec3 { x: 0, y: -10, z: 0 }
}

/// Whether [`apply_gravity`] can be called on these entities.
pub fn gravity_fits(entities: &Vec<Entity>, gravity: &Vec3, dt: u32) -> (ok: bool)
    ensures
        ok == gravity_in_range(models(entities@), gravity@, dt as nat),
{
    let n = entities.len();
    let mut i: usize = 0;
    while i < n
        invariant
            i <= n,
            n == entities.len(),
            forall|k: int|
                0 <= k < i ==> (#[trigger] models(entities@)[k]).gravity_in_range(
                    gravity@,
                    dt as nat,
                ),
        decreases n - i,
    {
        if let Some(body) = entities[i].body {
            if !body.gravity_fits(gravity, dt) {
                assert(!models(entities@)[i as int].gravity_in_range(gravity@, dt as nat));
                return false;
            }
        }
        i = i + 1;
    }
    true
}

/// The gravity step: every body takes the impulse `gravity * mass * dt`. A
/// fixed body keeps its velocity.
pub fn apply_gravity(entities: &mut Vec<Entity>, gravity: Vec3, dt: u32)
    requires
        gravity_in_range(models(old(entities)@), gravity@, dt as nat),
    ensures
        final(entities).len() == old(entities).len(),
        models(final(entities)@) == after_gravity(models(old(entities)@), gravity@, dt as nat),
        forall|k: int|
            0 <= k < old(entities).len() && has_fixed_body(
                #[trigger] models(old(entities)@)[k],
            ) ==> models(final(entities)@)[k] == models(old(entities)@)[k],
        forall|k: int|
            0 <= k < old(entities).len() && has_free_body(#[trigger] models(old(entities)@)[k])
                ==> models(final(entities)@)[k].body.unwrap().velocity == models(
                old(entities)@,
            )[k].body.unwrap().velocity.plus(gravity@.times(dt as int)),
{
    let ghost world = models(entities@);
    let n = entities.len();
    let mut i: usize = 0;
    while i < n
        invariant
            i <= n,
            n == entities.len(),
            n == world.len(),
            gravity_in_range(world, gravity@, dt as nat),
            forall|k: int|
                0 <= k < i ==> #[trigger] entities[k]@ == world[k].after_gravity(
                    gravity@,
                    dt as nat,
                ),
            forall|k: int| i <= k < n ==> #[trigger] entities[k]@ == world[k],
        decreases n - i,
    {
        let entity = entities[i];
        assert(entity@ == world[i as int]);
        assert(world[i as int].gravity_in_range(gravity@, dt as nat));
        if let Some(body) = entity.body {
            let mut body = body;
            match body.gravity_impulse(&gravity, dt) {
                Some(impulse) => {
                    body.apply_impulse_linear(impulse);
                    entities.set(
                        i,
                        Entity { body: Some(body), shape: entity.shape, position: entity.position },
                    );
                },
                None => {},
            }
        }
        i = i + 1;
    }
    assert(models(entities@) =~= after_gravity(world, gravity@, dt as nat));
    assert forall|k: int| 0 <= k < n && has_free_body(#[trigger] world[k]) implies models(
        entities@,
    )[k].body.unwrap().velocity == world[k].body.unwrap().velocity.plus(
        gravity@.times(dt as int),
    ) by {
        gravity_accumulates_independent_of_mass(world[k].body.unwrap(), gravity@, dt as nat);
    }
}

/// Whether [`integrate`] can be called on these entities.
pub fn integration_fits(entities: &Vec<Entity>, dt: u32, scaling: IntegrationScaling) -> (ok:
    bool)
    ensures
        ok == integration_in_range(models(entities@), dt as nat, scaling),
{
    let n = entities.len();
    let mut i: usize = 0;
    while i < n
        invariant
            i <= n,
            n == entities.len(),
            forall|k: int|
                0 <= k < i ==> (#[trigger] models(entities@)[k]).integration_in_range(
                    dt as nat,
                    scaling,
                ),
        decreases n - i,
    {
        let entity = entities[i];
        match (entity.body, entity.position) {
            (Some(body), Some(position)) => {
                if body.displaced(&position, dt, scaling).is_none() {
                    assert(!models(entities@)[i as int].integration_in_range(dt as nat, scaling));
                    return false;
                }
            },
            _ => {},
        }
        i = i + 1;
    }
    true
}

/// The integration step: every entity with a body and a position moves by its
/// body's displacement over `dt`. A fixed body stays where it is.
pub fn integrate(entities: &mut Vec<Entity>, dt: u32, scaling: IntegrationScaling)
    requires
        integration_in_range(models(old(entities)@), dt as nat, scaling),
    ensures
        final(entities).len() == old(entities).len(),
        models(final(entities)@) == after_integration(
            models(old(entities)@),
            dt as nat,
            scaling,
        ),
        forall|k: int|
            0 <= k < old(entities).len() && has_fixed_body(
                #[trigger] models(old(entities)@)[k],
            ) ==> models(final(entities)@)[k] == models(old(entities)@)[k],
{
    let ghost world = models(entities@);
    let n = entities.len();
    let mut i: usize = 0;
    while i < n
        invariant
            i <= n,
            n == entities.len(),
            n == world.len(),
            integration_in_range(world, dt as nat, scaling),
            forall|k: int|
                0 <= k < i ==> #[trigger] entities[k]@ == world[k].after_integration(
                    dt as nat,
                    scaling,
                ),
            forall|k: int| i <= k < n ==> #[trigger] entities[k]@ == world[k],
        decreases n - i,
    {
        let entity = entities[i];
        assert(entity@ == world[i as int]);
        assert(world[i as int].integration_in_range(dt as nat, scaling));
        match (entity.body, entity.position) {
            (Some(body), Some(position)) => {
                match body.displaced(&position, dt, scaling) {
                    Some((place, drift)) => {
                        let mut body = body;
                        body.drift = drift;
                        entities.set(
                            i,
                            Entity { body: Some(body), shape: entity.shape, position: Some(place) },
                        );
                    },
                    None => {},
                }
            },
            _ => {},
        }
        i = i + 1;
    }
    assert(models(entities@) =~= after_integration(world, dt as nat, scaling));
    assert forall|k: int| 0 <= k < n && has_fixed_body(#[trigger] world[k]) implies models(
        entities@,
    )[k] == world[k] by {
        if world[k].position.is_some() {
            assert(world[k].position.unwrap().plus(IntVec3::zero()) == world[k].position.unwrap());
        }
    }
}

/// One tick of the simulation: the gravity step, the collision step and the
/// integration step, in that order.
pub fn tick(entities: &mut Vec<Entity>, gravity: Vec3, dt: u32, scaling: IntegrationScaling)
    requires
        tick_in_range(models(old(entities)@), gravity@, dt as nat, scaling),
    ensures
        final(entities).len() == old(entities).len(),
        models(final(entities)@) == after_tick(
            models(old(entities)@),
            gravity@,
            dt as nat,
            scaling,
        ),
        forall|k: int|
            0 <= k < old(entities).len() && has_fixed_body(
                #[trigger] models(old(entities)@)[k],
            ) ==> models(final(entities)@)[k].position == models(old(entities)@)[k].position,
{
    proof {
        let world = models(entities@);
        assert forall|k: int| 0 <= k < world.len() && has_fixed_body(
            #[trigger] world[k],
        ) implies after_tick(world, gravity@, dt as nat, scaling)[k].position
            == world[k].position by {
            tick_keeps_fixed_bodies_in_place(world, gravity@, dt as nat, scaling, k);
        }
    }
    apply_gravity(entities, gravity, dt);
    collide(entities);
    integrate(entities, dt, scaling);
}

/// One tick, where it can be taken: where a step could not store what it
/// computes, the entities are left as they were and the answer is `false`.
pub fn try_tick(
    entities: &mut Vec<Entity>,
    gravity: Vec3,
    dt: u32,
    scaling: IntegrationScaling,
) -> (done: bool)
    ensures
        final(entities).len() == old(entities).len(),
        done == tick_in_range(models(old(entities)@), gravity@, dt as nat, scaling),
        done ==> models(final(entities)@) == after_tick(
            models(old(entities)@),
            gravity@,
            dt as nat,
            scaling,
        ),
        !done ==> final(entities)@ == old(entities)@,
        forall|k: int|
            0 <= k < old(entities).len() && has_fixed_body(
                #[trigger] models(old(entities)@)[k],
            ) ==> models(final(entities)@)[k].position == models(old(entities)@)[k].position,
{
    proof {
        let world = models(entities@);
        assert forall|k: int| 0 <= k < world.len() && has_fixed_body(
            #[trigger] world[k],
        ) implies after_tick(world, gravity@, dt as nat, scaling)[k].position
            == world[k].position by {
            tick_keeps_fixed_bodies_in_place(world, gravity@, dt as nat, scaling, k);
        }
    }
    if !gravity_fits(entities, &gravity, dt) {
        return false;
    }
    let mut next = copy_of(entities);
    assert(models(next@) =~= models(entities@));
    apply_gravity(&mut next, gravity, dt);
    collide(&mut next);
    if !integration_fits(&next, dt, scaling) {
        return false;
    }
    integrate(&mut next, dt, scaling);
    *entities = next;
    true
}

/// A copy of the entities.
fn copy_of(entities: &Vec<Entity>) -> (copy: Vec<Entity>)
    ensures
        copy@ == entities@,
{
    let n = entities.len();
    let mut copy: Vec<Entity> = Vec::new();
    let mut i: usize = 0;
    while i < n
        invariant
            i <= n,
            n == entities.len(),
            copy@ == entities@.take(i as int),
        decreases n - i,
    {
        copy.push(entities[i]);
        assert(copy@ =~= entities@.take(i + 1));
        i = i + 1;
    }
    assert(copy@ =~= entities@);
    copy
}

} // verus!
