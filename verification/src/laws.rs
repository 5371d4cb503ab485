use crate::body::BodyModel;
use crate::entity::EntityModel;
use crate::motion::IntegrationScaling;
use crate::shape::spheres_intersect;
use crate::collision::after_collision;
use crate::sim::{after_gravity, after_integration, after_tick};
use crate::vector::IntVec3;
use vstd::arithmetic::div_mod::{lemma_fundamental_div_mod, lemma_fundamental_div_mod_converse};
use vstd::prelude::*;

verus! {

/// The world after one gravity step for each of the time steps `dts`.
pub open spec fn after_gravity_steps(
    world: Seq<EntityModel>,
    gravity: IntVec3,
    dts: Seq<nat>,
) -> Seq<EntityModel>
    decreases dts.len(),
{
    if dts.len() == 0 {
        world
    } else {
        after_gravity(after_gravity_steps(world, gravity, dts.drop_last()), gravity, dts.last())
    }
}

/// The world after one integration step for each of the time steps `dts`.
pub open spec fn after_integration_steps(
    world: Seq<EntityModel>,
    dts: Seq<nat>,
    scaling: IntegrationScaling,
) -> Seq<EntityModel>
    decreases dts.len(),
{
    if dts.len() == 0 {
        world
    } else {
        after_integration(
            after_integration_steps(world, dts.drop_last(), scaling),
            dts.last(),
            scaling,
        )
    }
}

/// The world after one whole tick for each of the time steps `dts`.
pub open spec fn after_ticks(
    world: Seq<EntityModel>,
    gravity: IntVec3,
    dts: Seq<nat>,
    scaling: IntegrationScaling,
) -> Seq<EntityModel>
    decreases dts.len(),
{
    if dts.len() == 0 {
        world
    } else {
        after_tick(
            after_ticks(world, gravity, dts.drop_last(), scaling),
            gravity,
            dts.last(),
            scaling,
        )
    }
}

/// Whether the entity has a body, and that body is fixed.
pub open spec fn has_fixed_body(entity: EntityModel) -> bool {
    entity.body matches Some(b) && b.is_fixed()
}

/// Whether the entity has a body, and that body is free and well formed.
pub open spec fn has_free_body(entity: EntityModel) -> bool {
    entity.body matches Some(b) && !b.is_fixed() && b.well_formed()
}

/// What a division by `d` leaves, put back on the quotient times `d`, is the
/// number that was divided.
proof fn lemma_divided_and_left(p: IntVec3, d: int)
    requires
        d > 0,
    ensures
        p.divided_by(d).times(d).plus(p.modulo(d)) == p,
        p.modulo(d).below(d),
{
    lemma_fundamental_div_mod(p.x, d);
    lemma_fundamental_div_mod(p.y, d);
    lemma_fundamental_div_mod(p.z, d);
    assert((p.x / d) * d == d * (p.x / d) && (p.y / d) * d == d * (p.y / d) && (p.z / d) * d == d
        * (p.z / d)) by (nonlinear_arith);
}

/// A quotient times `d` with a remainder added divides into that quotient and
/// leaves that remainder.
proof fn lemma_rebuilt(q: IntVec3, r: IntVec3, d: int)
    requires
        d > 0,
        r.below(d),
    ensures
        q.times(d).plus(r).divided_by(d) == q,
        q.times(d).plus(r).modulo(d) == r,
{
    lemma_fundamental_div_mod_converse(q.x * d + r.x, d, q.x, r.x);
    lemma_fundamental_div_mod_converse(q.y * d + r.y, d, q.y, r.y);
    lemma_fundamental_div_mod_converse(q.z * d + r.z, d, q.z, r.z);
}

/// An impulse adds to the momentum of a free body, and to nothing else.
pub proof fn impulse_adds_to_momentum(body: BodyModel, impulse: IntVec3)
    requires
        !body.is_fixed(),
    ensures
        body.with_impulse(impulse).momentum() == body.momentum().plus(impulse),
        body.with_impulse(impulse).mass == body.mass,
        body.with_impulse(impulse).drift == body.drift,
        body.with_impulse(impulse).remainder.below(body.mass as int),
{
    lemma_divided_and_left(body.momentum().plus(impulse), body.mass as int);
}

/// Impulses add up: two impulses, one after the other, leave a body as their
/// sum leaves it, whatever the body and whatever the impulses.
pub proof fn impulses_add_up(body: BodyModel, first: IntVec3, second: IntVec3)
    ensures
        body.with_impulse(first).with_impulse(second) == body.with_impulse(first.plus(second)),
{
    if !body.is_fixed() {
        impulse_adds_to_momentum(body, first);
        assert(body.momentum().plus(first).plus(second) == body.momentum().plus(
            first.plus(second),
        ));
    }
}

/// An impulse and its opposite cancel: together they leave a well-formed body
/// as it was.
pub proof fn opposite_impulses_cancel(body: BodyModel, impulse: IntVec3)
    requires
        body.well_formed(),
    ensures
        body.with_impulse(impulse).with_impulse(impulse.negated()) == body,
{
    if !body.is_fixed() {
        impulses_add_up(body, impulse, impulse.negated());
        assert(body.momentum().plus(impulse.plus(impulse.negated())) == body.momentum());
        lemma_rebuilt(body.velocity, body.remainder, body.mass as int);
    }
}

/// Scaling by the inverse mass gives zero for every vector exactly when the
/// body is fixed.
pub proof fn inverse_mass_is_zero_only_for_fixed_bodies(body: BodyModel)
    ensures
        body.is_fixed() <==> forall|v: IntVec3|
            #[trigger] body.scaled_by_inverse_mass(v) == IntVec3::zero(),
{
    if !body.is_fixed() {
        let v = IntVec3 { x: body.mass as int, y: 0, z: 0 };
        lemma_fundamental_div_mod_converse(body.mass as int, body.mass as int, 1, 0);
        assert(body.scaled_by_inverse_mass(v).x == 1);
    }
}

/// Gravity does not change a fixed body: however many gravity steps are taken,
/// and whatever time each of them covers, an entity with a fixed body is
/// afterwards what it was, its velocity included.
pub proof fn gravity_leaves_fixed_bodies_alone(
    world: Seq<EntityModel>,
    gravity: IntVec3,
    dts: Seq<nat>,
    k: int,
)
    requires
        0 <= k < world.len(),
        has_fixed_body(world[k]),
    ensures
        after_gravity_steps(world, gravity, dts).len() == world.len(),
        after_gravity_steps(world, gravity, dts)[k] == world[k],
    decreases dts.len(),
{
    if dts.len() > 0 {
        gravity_leaves_fixed_bodies_alone(world, gravity, dts.drop_last(), k);
    }
}

/// Gravity accumulates without regard to mass: one gravity step over the time
/// `t` adds `gravity * t` to the velocity of a well-formed free body, whatever
/// its mass, and leaves its remainder as it was. A body at rest has afterwards
/// the velocity `gravity * t`; under an acceleration of ten units downward
/// that is `-10 * t` along `y`.
pub proof fn gravity_accumulates_independent_of_mass(body: BodyModel, gravity: IntVec3, t: nat)
    requires
        body.mass > 0,
        body.well_formed(),
    ensures
        body.after_gravity(gravity, t).velocity == body.velocity.plus(gravity.times(t as int)),
        body.after_gravity(gravity, t).remainder == body.remainder,
        body.after_gravity(gravity, t).mass == body.mass,
        body.after_gravity(gravity, t).drift == body.drift,
        body.after_gravity(gravity, t).well_formed(),
        body.velocity == IntVec3::zero() ==> body.after_gravity(gravity, t).velocity
            == gravity.times(t as int),
        body.velocity == IntVec3::zero() && gravity == (IntVec3 { x: 0, y: -10, z: 0 })
            ==> body.after_gravity(gravity, t).velocity.y == -10 * t,
{
    let m = body.mass as int;
    let impulse = body.gravity_impulse(gravity, t);
    let faster = body.velocity.plus(gravity.times(t as int));
    assert(body.momentum().plus(impulse) == faster.times(m).plus(body.remainder)) by {
        assert(body.velocity.x * m + body.remainder.x + gravity.x * (m * t) == (body.velocity.x
            + gravity.x * t) * m + body.remainder.x) by (nonlinear_arith);
        assert(body.velocity.y * m + body.remainder.y + gravity.y * (m * t) == (body.velocity.y
            + gravity.y * t) * m + body.remainder.y) by (nonlinear_arith);
        assert(body.velocity.z * m + body.remainder.z + gravity.z * (m * t) == (body.velocity.z
            + gravity.z * t) * m + body.remainder.z) by (nonlinear_arith);
    }
    lemma_rebuilt(faster, body.remainder, m);
}

/// Integration steps add up: two steps, one after the other, move a body as
/// far as one step over the sum of their times, and leave the same drift.
pub proof fn integration_steps_add_up(
    body: BodyModel,
    first: nat,
    second: nat,
    scaling: IntegrationScaling,
)
    ensures
        body.after_integration(first, scaling).after_integration(second, scaling)
            == body.after_integration(first + second, scaling),
        body.displacement(first, scaling).plus(
            body.after_integration(first, scaling).displacement(second, scaling),
        ) == body.displacement(first + second, scaling),
{
    if !body.is_fixed() {
        let m = body.mass as int;
        let d = m * m;
        assert(d > 0) by (nonlinear_arith)
            requires
                m > 0,
                d == m * m,
        ;
        let p = body.momentum();
        let t1 = body.travel(first, scaling);
        let then = body.after_integration(first, scaling);
        let t2 = then.travel(second, scaling);
        let t12 = body.travel(first + second, scaling);
        lemma_divided_and_left(t1, d);
        lemma_divided_and_left(t2, d);
        let q = t1.divided_by(d).plus(t2.divided_by(d));
        assert(then.momentum() == p);
        assert(t12 == q.times(d).plus(t2.modulo(d))) by {
            let (k1, k2, k12) = match scaling {
                IntegrationScaling::InverseMass => (
                    first as int,
                    second as int,
                    (first + second) as int,
                ),
                IntegrationScaling::Unscaled => (
                    (first * body.mass) as int,
                    (second * body.mass) as int,
                    ((first + second) * body.mass) as int,
                ),
            };
            assert(k12 == k1 + k2) by {
                assert((first + second) * m == first * m + second * m) by (nonlinear_arith);
            }
            assert(t1 == body.drift.plus(p.times(k1)));
            assert(t2 == t1.modulo(d).plus(p.times(k2)));
            assert(t12 == body.drift.plus(p.times(k12)));
            let a = t1.divided_by(d);
            let b = t2.divided_by(d);
            assert(t12.x == (a.x + b.x) * d + t2.modulo(d).x) by (nonlinear_arith)
                requires
                    t12.x == body.drift.x + p.x * (k1 + k2),
                    t1.x == body.drift.x + p.x * k1,
                    t2.x == t1.modulo(d).x + p.x * k2,
                    a.x * d + t1.modulo(d).x == t1.x,
                    b.x * d + t2.modulo(d).x == t2.x,
            ;
            assert(t12.y == (a.y + b.y) * d + t2.modulo(d).y) by (nonlinear_arith)
                requires
                    t12.y == body.drift.y + p.y * (k1 + k2),
                    t1.y == body.drift.y + p.y * k1,
                    t2.y == t1.modulo(d).y + p.y * k2,
                    a.y * d + t1.modulo(d).y == t1.y,
                    b.y * d + t2.modulo(d).y == t2.y,
            ;
            assert(t12.z == (a.z + b.z) * d + t2.modulo(d).z) by (nonlinear_arith)
                requires
                    t12.z == body.drift.z + p.z * (k1 + k2),
                    t1.z == body.drift.z + p.z * k1,
                    t2.z == t1.modulo(d).z + p.z * k2,
                    a.z * d + t1.modulo(d).z == t1.z,
                    b.z * d + t2.modulo(d).z == t2.z,
            ;
        }
        lemma_rebuilt(q, t2.modulo(d), d);
    }
}

/// The sphere test is exact at the boundary: two spheres whose centers are
/// `distance` apart meet exactly when `distance` is at most the sum of their
/// radii. At a distance of just that sum they meet; at any greater distance
/// they do not.
pub proof fn spheres_meet_up_to_combined_radius(
    c1: IntVec3,
    r1: nat,
    c2: IntVec3,
    r2: nat,
    distance: nat,
)
    requires
        c2.minus(c1).length_squared() == distance * distance,
    ensures
        spheres_intersect(c1, r1, c2, r2) <==> distance <= r1 + r2,
{
    let s = r1 + r2;
    assert(distance <= s ==> distance * distance <= s * s) by (nonlinear_arith);
    assert(distance > s ==> distance * distance > s * s) by (nonlinear_arith);
}

/// A fixed body does not move: however many integration steps are taken,
/// whatever time each of them covers and however the distance is scaled, an
/// entity with a fixed body is afterwards where it was, whatever its velocity.
pub proof fn integration_leaves_fixed_bodies_in_place(
    world: Seq<EntityModel>,
    dts: Seq<nat>,
    scaling: IntegrationScaling,
    k: int,
)
    requires
        0 <= k < world.len(),
        has_fixed_body(world[k]),
    ensures
        after_integration_steps(world, dts, scaling).len() == world.len(),
        after_integration_steps(world, dts, scaling)[k] == world[k],
    decreases dts.len(),
{
    if dts.len() > 0 {
        integration_leaves_fixed_bodies_in_place(world, dts.drop_last(), scaling, k);
        let p = world[k].position;
        if p.is_some() {
            assert(p.unwrap().plus(IntVec3::zero()) == p.unwrap());
        }
    }
}

/// Over whole ticks a fixed body keeps its place and its mass, and an entity
/// keeps its shape and whether it has each component: a tick changes
/// velocities and the positions of free bodies, and nothing else.
pub proof fn ticks_keep_fixed_bodies_in_place(
    world: Seq<EntityModel>,
    gravity: IntVec3,
    dts: Seq<nat>,
    scaling: IntegrationScaling,
    k: int,
)
    requires
        0 <= k < world.len(),
    ensures
        after_ticks(world, gravity, dts, scaling).len() == world.len(),
        after_ticks(world, gravity, dts, scaling)[k].shape == world[k].shape,
        after_ticks(world, gravity, dts, scaling)[k].body.is_some() == world[k].body.is_some(),
        after_ticks(world, gravity, dts, scaling)[k].position.is_some()
            == world[k].position.is_some(),
        world[k].body matches Some(b) ==> after_ticks(
            world,
            gravity,
            dts,
            scaling,
        )[k].body.unwrap().mass == b.mass,
        has_fixed_body(world[k]) ==> after_ticks(world, gravity, dts, scaling)[k].position
            == world[k].position,
    decreases dts.len(),
{
    if dts.len() > 0 {
        ticks_keep_fixed_bodies_in_place(world, gravity, dts.drop_last(), scaling, k);
        let before = after_ticks(world, gravity, dts.drop_last(), scaling);
        let pulled = after_gravity(before, gravity, dts.last());
        let settled = after_collision(pulled);
        assert(pulled[k] == before[k].after_gravity(gravity, dts.last()));
        assert(settled[k] == pulled[k] || settled[k] == pulled[k].stopped());
        let p = world[k].position;
        if p.is_some() {
            assert(p.unwrap().plus(IntVec3::zero()) == p.unwrap());
        }
    }
}

/// One tick leaves an entity with a fixed body where it was.
pub proof fn tick_keeps_fixed_bodies_in_place(
    world: Seq<EntityModel>,
    gravity: IntVec3,
    dt: nat,
    scaling: IntegrationScaling,
    k: int,
)
    requires
        0 <= k < world.len(),
        has_fixed_body(world[k]),
    ensures
        after_tick(world, gravity, dt, scaling).len() == world.len(),
        after_tick(world, gravity, dt, scaling)[k].position == world[k].position,
        has_fixed_body(after_tick(world, gravity, dt, scaling)[k]),
{
    let dts = seq![dt];
    assert(dts.drop_last() =~= Seq::<nat>::empty());
    assert(after_ticks(world, gravity, dts.drop_last(), scaling) == world);
    assert(after_ticks(world, gravity, dts, scaling) == after_tick(world, gravity, dt, scaling));
    ticks_keep_fixed_bodies_in_place(world, gravity, dts, scaling, k);
}

} // verus!
