use crate::body::{Body, BodyModel};
use crate::entity::{models, Entity, EntityModel};
use crate::pairs::{all_pairs, all_pairs_enumerates_each_pair_once, pair_index, Pairs};
use crate::response::{CollisionResponsePolicy, ZeroVelocity};
use crate::shape::{sphere_meets_sphere, spheres_intersect, Shape, SphereShape};
use crate::vector::Vec3;
use vstd::prelude::*;

verus! {

/// Whether some other entity of the world touches entity `k`.
pub open spec fn struck(world: Seq<EntityModel>, k: int) -> bool {
    exists|j: int| 0 <= j < world.len() && j != k && #[trigger] world[k].touches(world[j])
}

/// The world after the collision step: every entity that another one touches
/// has come to rest, and nothing else has changed.
pub open spec fn after_collision(world: Seq<EntityModel>) -> Seq<EntityModel> {
    Seq::new(
        world.len(),
        |k: int|
            if struck(world, k) {
                world[k].stopped()
            } else {
                world[k]
            },
    )
}

/// Whether the pair that the broad phase visits at `idx` holds entity `k` and
/// is a pair of touching entities.
spec fn strikes_at(world: Seq<EntityModel>, idx: int, k: int) -> bool {
    let p = all_pairs(world.len())[idx];
    (p.0 == k || p.1 == k) && world[p.0].touches(world[p.1])
}

/// Whether one of the first `upto` pairs of the broad phase strikes entity `k`.
spec fn struck_within(world: Seq<EntityModel>, upto: int, k: int) -> bool {
    exists|idx: int| 0 <= idx < upto && #[trigger] strikes_at(world, idx, k)
}

/// Which of two entities is named first does not decide whether they touch.
proof fn lemma_touches_symmetric(a: EntityModel, b: EntityModel)
    ensures
        a.touches(b) == b.touches(a),
{
    if a.collidable() && b.collidable() {
        let d = b.position.unwrap().minus(a.position.unwrap());
        let e = a.position.unwrap().minus(b.position.unwrap());
        assert(d.length_squared() == e.length_squared()) by (nonlinear_arith)
            requires
                d.x == -e.x,
                d.y == -e.y,
                d.z == -e.z,
        ;
        match (a.shape.unwrap(), b.shape.unwrap()) {
            (Shape::Sphere(s), Shape::Sphere(t)) => {
                assert((s.radius as nat + t.radius as nat) * (s.radius as nat + t.radius as nat)
                    == (t.radius as nat + s.radius as nat) * (t.radius as nat
                    + s.radius as nat));
            },
        }
    }
}

/// Once the broad phase has visited all its pairs, it has struck exactly the
/// entities that another one touches.
proof fn lemma_struck_within_all(world: Seq<EntityModel>, k: int)
    requires
        0 <= k < world.len(),
    ensures
        struck_within(world, all_pairs(world.len()).len() as int, k) == struck(world, k),
{
    let n = world.len();
    all_pairs_enumerates_each_pair_once(n);
    if struck(world, k) {
        let j = choose|j: int| 0 <= j < world.len() && j != k && #[trigger] world[k].touches(
            world[j],
        );
        lemma_touches_symmetric(world[k], world[j]);
        let idx = if k < j {
            pair_index(k, j, n)
        } else {
            pair_index(j, k, n)
        };
        assert(strikes_at(world, idx, k));
    }
    if struck_within(world, all_pairs(n).len() as int, k) {
        let idx = choose|idx: int|
            0 <= idx < all_pairs(n).len() && #[trigger] strikes_at(world, idx, k);
        let p = all_pairs(n)[idx];
        lemma_touches_symmetric(world[p.0], world[p.1]);
        if p.0 == k {
            assert(world[k].touches(world[p.1]));
        } else {
            assert(world[k].touches(world[p.0]));
        }
    }
}

/// The entity with `body` in place of its own.
pub open spec fn with_body(entity: EntityModel, body: BodyModel) -> EntityModel {
    EntityModel { body: Some(body), shape: entity.shape, position: entity.position }
}

/// The world after the collision step has visited the first `upto` pairs of
/// the broad phase, responding to each touching pair as `policy` says.
pub open spec fn after_pairs<P: CollisionResponsePolicy>(
    policy: P,
    world: Seq<EntityModel>,
    upto: nat,
) -> Seq<EntityModel>
    decreases upto,
{
    if upto == 0 {
        world
    } else {
        let before = after_pairs(policy, world, (upto - 1) as nat);
        let (i, j) = all_pairs(world.len())[upto - 1];
        if before[i].touches(before[j]) {
            let after = policy.response(before[i].body.unwrap(), before[j].body.unwrap());
            before.update(i, with_body(before[i], after.0)).update(j, with_body(before[j], after.1))
        } else {
            before
        }
    }
}

/// The world after the collision step under `policy`: every pair of the broad
/// phase has been visited, in its order.
pub open spec fn after_collision_with<P: CollisionResponsePolicy>(
    policy: P,
    world: Seq<EntityModel>,
) -> Seq<EntityModel> {
    after_pairs(policy, world, all_pairs(world.len()).len())
}

/// Visiting pairs neither adds nor removes an entity.
proof fn lemma_after_pairs_len<P: CollisionResponsePolicy>(
    policy: P,
    world: Seq<EntityModel>,
    upto: nat,
)
    requires
        upto <= all_pairs(world.len()).len(),
    ensures
        after_pairs(policy, world, upto).len() == world.len(),
    decreases upto,
{
    if upto > 0 {
        lemma_after_pairs_len(policy, world, (upto - 1) as nat);
        all_pairs_enumerates_each_pair_once(world.len());
    }
}

/// Under the response that stops both bodies, the order of the visits does
/// not show: after the first `upto` pairs, exactly the entities that one of
/// those pairs struck have come to rest.
proof fn lemma_zero_velocity_pairs(world: Seq<EntityModel>, upto: nat, k: int)
    requires
        upto <= all_pairs(world.len()).len(),
        0 <= k < world.len(),
    ensures
        after_pairs(ZeroVelocity, world, upto).len() == world.len(),
        after_pairs(ZeroVelocity, world, upto)[k] == if struck_within(world, upto as int, k) {
            world[k].stopped()
        } else {
            world[k]
        },
    decreases upto,
{
    lemma_after_pairs_len(ZeroVelocity, world, upto);
    if upto > 0 {
        let at = upto - 1;
        let (i, j) = all_pairs(world.len())[at];
        all_pairs_enumerates_each_pair_once(world.len());
        lemma_zero_velocity_pairs(world, at as nat, k);
        lemma_zero_velocity_pairs(world, at as nat, i);
        lemma_zero_velocity_pairs(world, at as nat, j);
        let before = after_pairs(ZeroVelocity, world, at as nat);
        assert(before[i].touches(before[j]) == world[i].touches(world[j]));
        assert(struck_within(world, upto as int, k) <==> (struck_within(world, at, k)
            || strikes_at(world, at, k))) by {
            if struck_within(world, upto as int, k) {
                let idx = choose|idx: int| 0 <= idx < upto && #[trigger] strikes_at(world, idx, k);
                if idx < at {
                    assert(struck_within(world, at, k));
                }
            }
            if struck_within(world, at, k) {
                let idx = choose|idx: int| 0 <= idx < at && #[trigger] strikes_at(world, idx, k);
                assert(strikes_at(world, idx, k));
            }
        }
    }
}

/// Under the response that stops both bodies, the collision step brings to
/// rest exactly the entities that another one touches.
pub proof fn zero_velocity_stops_what_is_struck(world: Seq<EntityModel>)
    ensures
        after_collision_with(ZeroVelocity, world) == after_collision(world),
{
    let n = all_pairs(world.len()).len();
    lemma_after_pairs_len(ZeroVelocity, world, n);
    assert forall|k: int| 0 <= k < world.len() implies after_collision_with(
        ZeroVelocity,
        world,
    )[k] == after_collision(world)[k] by {
        lemma_zero_velocity_pairs(world, n, k);
        lemma_struck_within_all(world, k);
    }
    assert(after_collision_with(ZeroVelocity, world) =~= after_collision(world));
}

/// The narrow phase and the response for two spheres: where they meet, the
/// policy decides what becomes of the two bodies; where they do not, neither
/// changes.
pub fn sphere_sphere_collision<P: CollisionResponsePolicy>(
    s1: &SphereShape,
    c1: &Vec3,
    b1: &mut Body,
    s2: &SphereShape,
    c2: &Vec3,
    b2: &mut Body,
    policy: &P,
)
    ensures
        final(b1)@ == if spheres_intersect(c1@, s1.radius as nat, c2@, s2.radius as nat) {
            policy.response(old(b1)@, old(b2)@).0
        } else {
            old(b1)@
        },
        final(b2)@ == if spheres_intersect(c1@, s1.radius as nat, c2@, s2.radius as nat) {
            policy.response(old(b1)@, old(b2)@).1
        } else {
            old(b2)@
        },
{
    let intersects = sphere_meets_sphere(s1, c1, s2, c2);
    if !intersects {
        return ;
    }
    policy.respond(b1, b2);
}

/// The collision step under a response policy: visits every unordered pair of
/// entities in the order of the broad phase and, where both entities have a
/// body, a shape and a position and their shapes meet, lets `policy` respond.
pub fn collide_with<P: CollisionResponsePolicy>(entities: &mut Vec<Entity>, policy: &P)
    ensures
        final(entities).len() == old(entities).len(),
        models(final(entities)@) == after_collision_with(*policy, models(old(entities)@)),
{
    let ghost world = models(entities@);
    let n = entities.len();
    let mut pairs = Pairs::new(n);
    proof {
        pairs.position_in_bounds();
    }
    loop
        invariant
            entities.len() == n,
            world.len() == n,
            pairs.well_formed(),
            pairs.count() == n,
            pairs.position() <= all_pairs(n as nat).len(),
            models(entities@) == after_pairs(*policy, world, pairs.position()),
        ensures
            pairs.position() == all_pairs(n as nat).len(),
        decreases all_pairs(n as nat).len() - pairs.position(),
    {
        let ghost at = pairs.position();
        let ghost before = models(entities@);
        let (i, j) = match pairs.next() {
            Some(p) => p,
            None => {
                break ;
            },
        };
        proof {
            pairs.position_in_bounds();
            assert(all_pairs(n as nat)[at as int] == (i as int, j as int));
        }
        let e1 = entities[i];
        let e2 = entities[j];
        assert(e1@ == before[i as int] && e2@ == before[j as int]);
        match (e1.body, e1.shape, e1.position, e2.body, e2.shape, e2.position) {
            (Some(b1), Some(s1), Some(c1), Some(b2), Some(s2), Some(c2)) => {
                let mut b1 = b1;
                let mut b2 = b2;
                match (s1, s2) {
                    (Shape::Sphere(s1), Shape::Sphere(s2)) => {
                        sphere_sphere_collision(&s1, &c1, &mut b1, &s2, &c2, &mut b2, policy)
                    },
                }
                entities.set(i, Entity { body: Some(b1), shape: e1.shape, position: e1.position });
                entities.set(j, Entity { body: Some(b2), shape: e2.shape, position: e2.position });
            },
            _ => {},
        }
        proof {
            assert(models(entities@) =~= after_pairs(*policy, world, (at + 1) as nat));
        }
    }
}

/// The collision step: tests every unordered pair of entities that have a
/// body, a shape and a position, and brings both bodies of a touching pair to
/// rest.
pub fn collide(entities: &mut Vec<Entity>)
    ensures
        final(entities).len() == old(entities).len(),
        models(final(entities)@) == after_collision(models(old(entities)@)),
{
    proof {
        zero_velocity_stops_what_is_struck(models(entities@));
    }
    collide_with(entities, &ZeroVelocity);
}

} // verus!
