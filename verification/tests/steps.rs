use rigid_sim::body::Body;
use rigid_sim::entity::Entity;
use rigid_sim::motion::IntegrationScaling;
use rigid_sim::shape::{Shape, SphereShape};
use rigid_sim::response::{CollisionResponsePolicy, ExchangeVelocities, ZeroVelocity};
use rigid_sim::collision::{collide, collide_with, sphere_sphere_collision};
use rigid_sim::sim::{
    apply_gravity, gravity_fits, integrate, integration_fits, standard_gravity, tick, try_tick,
};
use rigid_sim::vector::{Drift, Remainder, Vec3};

fn moving(mass: u32, velocity: Vec3) -> Body {
    let mut b = Body::new(mass);
    b.velocity = velocity;
    b
}

fn ball(mass: u32, velocity: Vec3, radius: u32, at: Vec3) -> Entity {
    Entity::new(moving(mass, velocity), Shape::sphere(radius), at)
}

#[test]
fn standard_gravity_is_ten_down() {
    assert_eq!(standard_gravity(), Vec3::new(0, -10, 0));
}

#[test]
fn gravity_gives_every_free_body_the_same_velocity() {
    let mut world = vec![
        ball(1, Vec3::zero(), 1, Vec3::new(0, 0, 0)),
        ball(3, Vec3::zero(), 1, Vec3::new(10, 0, 0)),
        ball(1000, Vec3::zero(), 1, Vec3::new(20, 0, 0)),
        ball(u32::MAX, Vec3::zero(), 1, Vec3::new(30, 0, 0)),
    ];
    assert!(gravity_fits(&world, &standard_gravity(), 7));
    apply_gravity(&mut world, standard_gravity(), 7);
    for e in &world {
        assert_eq!(e.body.unwrap().velocity, Vec3::new(0, -70, 0));
    }
    assert_eq!(world[1].body.unwrap().mass, 3);
    assert_eq!(world[1].position, Some(Vec3::new(10, 0, 0)));
    assert_eq!(world[1].shape, Some(Shape::sphere(1)));
}

#[test]
fn gravity_adds_to_the_velocity_a_body_has() {
    let mut world = vec![ball(2, Vec3::new(4, 5, 6), 1, Vec3::zero())];
    apply_gravity(&mut world, Vec3::new(1, -10, 3), 2);
    assert_eq!(world[0].body.unwrap().velocity, Vec3::new(6, -15, 12));
    apply_gravity(&mut world, Vec3::new(1, -10, 3), 2);
    assert_eq!(world[0].body.unwrap().velocity, Vec3::new(8, -35, 18));
}

#[test]
fn gravity_over_no_time_changes_nothing() {
    let before = vec![ball(2, Vec3::new(4, 5, 6), 1, Vec3::zero()), ball(0, Vec3::zero(), 1, Vec3::zero())];
    let mut world = before.clone();
    apply_gravity(&mut world, standard_gravity(), 0);
    assert_eq!(world, before);
}

#[test]
fn gravity_leaves_fixed_bodies_alone() {
    let before = vec![
        ball(0, Vec3::zero(), 100, Vec3::new(0, -100, 0)),
        ball(0, Vec3::new(1, 2, 3), 1, Vec3::new(50, 0, 0)),
    ];
    let mut world = before.clone();
    for dt in [0u32, 1, 16, 1000, u32::MAX] {
        assert!(gravity_fits(&world, &standard_gravity(), dt));
        apply_gravity(&mut world, standard_gravity(), dt);
        assert_eq!(world, before);
    }
}

#[test]
fn gravity_passes_over_entities_without_a_body() {
    let bare = Entity { body: None, shape: Some(Shape::sphere(1)), position: Some(Vec3::new(1, 2, 3)) };
    let only_body = Entity { body: Some(Body::new(5)), shape: None, position: None };
    let mut world = vec![bare, only_body];
    apply_gravity(&mut world, standard_gravity(), 3);
    assert_eq!(world[0], bare);
    assert_eq!(world[1].body.unwrap().velocity, Vec3::new(0, -30, 0));
    assert_eq!(world[1].shape, None);
    assert_eq!(world[1].position, None);
}

#[test]
fn gravity_fits_refuses_what_cannot_be_stored() {
    let world = vec![
        ball(1, Vec3::zero(), 1, Vec3::zero()),
        ball(1, Vec3::new(0, i64::MIN + 9, 0), 1, Vec3::zero()),
    ];
    assert!(!gravity_fits(&world, &standard_gravity(), 1));
    assert!(gravity_fits(&world, &Vec3::new(0, -9, 0), 1));
    assert!(gravity_fits(&world, &standard_gravity(), 0));
    assert!(!gravity_fits(&vec![ball(2, Vec3::zero(), 1, Vec3::zero())], &Vec3::new(i64::MAX, 0, 0), 1));
    assert!(gravity_fits(&vec![], &Vec3::new(i64::MAX, 0, 0), u32::MAX));
}

#[test]
fn touching_spheres_both_come_to_rest() {
    let mut world = vec![
        ball(1, Vec3::new(0, -50, 0), 2, Vec3::new(0, 5, 0)),
        ball(4, Vec3::new(7, 8, 9), 3, Vec3::new(0, 0, 0)),
    ];
    collide(&mut world);
    assert_eq!(world[0], ball(1, Vec3::zero(), 2, Vec3::new(0, 5, 0)));
    assert_eq!(world[1], ball(4, Vec3::zero(), 3, Vec3::new(0, 0, 0)));
}

#[test]
fn spheres_apart_keep_their_velocities() {
    let before = vec![
        ball(1, Vec3::new(0, -50, 0), 2, Vec3::new(0, 6, 0)),
        ball(4, Vec3::new(7, 8, 9), 3, Vec3::new(0, 0, 0)),
    ];
    let mut world = before.clone();
    collide(&mut world);
    assert_eq!(world, before);
}

#[test]
fn collision_stops_a_fixed_body_too() {
    let mut world = vec![
        ball(0, Vec3::new(1, 1, 1), 2, Vec3::new(0, 0, 0)),
        ball(1, Vec3::new(0, -1, 0), 2, Vec3::new(0, 3, 0)),
    ];
    collide(&mut world);
    assert_eq!(world[0].body.unwrap().velocity, Vec3::zero());
    assert_eq!(world[1].body.unwrap().velocity, Vec3::zero());
    assert_eq!(world[0].body.unwrap().mass, 0);
}

#[test]
fn collision_looks_at_every_pair() {
    let v = Vec3::new(1, 2, 3);
    // 0 and 3 touch, 1 and 4 touch, 2 touches nobody.
    let mut world = vec![
        ball(1, v, 1, Vec3::new(0, 0, 0)),
        ball(1, v, 1, Vec3::new(100, 0, 0)),
        ball(1, v, 1, Vec3::new(200, 0, 0)),
        ball(1, v, 1, Vec3::new(0, 2, 0)),
        ball(1, v, 1, Vec3::new(100, 0, -2)),
    ];
    collide(&mut world);
    let stopped: Vec<bool> = world.iter().map(|e| e.body.unwrap().velocity == Vec3::zero()).collect();
    assert_eq!(stopped, vec![true, true, false, true, true]);
    assert_eq!(world[2].body.unwrap().velocity, v);
    assert_eq!(world[3].position, Some(Vec3::new(0, 2, 0)));
}

#[test]
fn collision_stops_the_last_pair() {
    let v = Vec3::new(1, 2, 3);
    let mut world = vec![
        ball(1, v, 1, Vec3::new(0, 0, 0)),
        ball(1, v, 1, Vec3::new(100, 0, 0)),
        ball(1, v, 1, Vec3::new(101, 0, 0)),
    ];
    collide(&mut world);
    assert_eq!(world[0].body.unwrap().velocity, v);
    assert_eq!(world[1].body.unwrap().velocity, Vec3::zero());
    assert_eq!(world[2].body.unwrap().velocity, Vec3::zero());
}

#[test]
fn collision_passes_over_entities_that_lack_a_component() {
    let v = Vec3::new(1, 2, 3);
    let at = Vec3::new(0, 0, 0);
    let whole = ball(1, v, 5, at);
    let no_shape = Entity { body: Some(moving(1, v)), shape: None, position: Some(at) };
    let no_place = Entity { body: Some(moving(1, v)), shape: Some(Shape::sphere(5)), position: None };
    let no_body = Entity { body: None, shape: Some(Shape::sphere(5)), position: Some(at) };
    let before = vec![whole, no_shape, no_place, no_body];
    let mut world = before.clone();
    collide(&mut world);
    assert_eq!(world, before);
    world.push(whole);
    collide(&mut world);
    assert_eq!(world[0].body.unwrap().velocity, Vec3::zero());
    assert_eq!(world[4].body.unwrap().velocity, Vec3::zero());
    assert_eq!(&world[1..4], &before[1..4]);
}

#[test]
fn collision_of_an_empty_or_single_world_changes_nothing() {
    let mut none: Vec<Entity> = vec![];
    collide(&mut none);
    assert_eq!(none, vec![]);
    let one = ball(1, Vec3::new(1, 1, 1), 5, Vec3::zero());
    let mut world = vec![one];
    collide(&mut world);
    assert_eq!(world, vec![one]);
}

#[test]
fn sphere_pair_response_zeroes_both_or_neither() {
    let s1 = SphereShape { radius: 1 };
    let s2 = SphereShape { radius: 2 };
    let mut b1 = moving(1, Vec3::new(1, 0, 0));
    let mut b2 = moving(0, Vec3::new(0, 1, 0));
    sphere_sphere_collision(&s1, &Vec3::new(0, 0, 0), &mut b1, &s2, &Vec3::new(0, 0, 4), &mut b2, &ZeroVelocity);
    assert_eq!(b1, moving(1, Vec3::new(1, 0, 0)));
    assert_eq!(b2, moving(0, Vec3::new(0, 1, 0)));
    sphere_sphere_collision(&s1, &Vec3::new(0, 0, 0), &mut b1, &s2, &Vec3::new(0, 0, 3), &mut b2, &ZeroVelocity);
    assert_eq!(b1, Body::new(1));
    assert_eq!(b2, Body::new(0));
}

#[test]
fn integration_moves_by_velocity_times_time_over_mass() {
    let mut world = vec![
        ball(1, Vec3::new(3, -4, 5), 1, Vec3::new(10, 10, 10)),
        ball(2, Vec3::new(3, -4, 5), 1, Vec3::new(10, 10, 10)),
    ];
    assert!(integration_fits(&world, 3, IntegrationScaling::InverseMass));
    integrate(&mut world, 3, IntegrationScaling::InverseMass);
    assert_eq!(world[0].position, Some(Vec3::new(19, -2, 25)));
    assert_eq!(world[1].position, Some(Vec3::new(14, 4, 17)));
    let mut carried = moving(2, Vec3::new(3, -4, 5));
    carried.drift = Drift { x: 2, y: 0, z: 2 };
    assert_eq!(world[1].body, Some(carried));
}

#[test]
fn unscaled_integration_moves_by_velocity_times_time() {
    let mut world = vec![
        ball(1, Vec3::new(3, -4, 5), 1, Vec3::new(10, 10, 10)),
        ball(2, Vec3::new(3, -4, 5), 1, Vec3::new(10, 10, 10)),
    ];
    integrate(&mut world, 3, IntegrationScaling::Unscaled);
    assert_eq!(world[0].position, Some(Vec3::new(19, -2, 25)));
    assert_eq!(world[1].position, Some(Vec3::new(19, -2, 25)));
}

#[test]
fn integration_never_moves_a_fixed_body() {
    let before = vec![ball(0, Vec3::new(i64::MAX, -4, i64::MIN), 1, Vec3::new(10, i64::MAX, 10))];
    for scaling in [IntegrationScaling::InverseMass, IntegrationScaling::Unscaled] {
        let mut world = before.clone();
        for dt in [0u32, 1, 60, u32::MAX] {
            assert!(integration_fits(&world, dt, scaling));
            integrate(&mut world, dt, scaling);
            assert_eq!(world, before);
        }
    }
}

#[test]
fn integration_passes_over_entities_without_body_or_position() {
    let no_place = Entity { body: Some(moving(1, Vec3::new(1, 1, 1))), shape: None, position: None };
    let no_body = Entity { body: None, shape: None, position: Some(Vec3::new(1, 2, 3)) };
    let no_shape = Entity { body: Some(moving(1, Vec3::new(1, 1, 1))), shape: None, position: Some(Vec3::zero()) };
    let mut world = vec![no_place, no_body, no_shape];
    integrate(&mut world, 4, IntegrationScaling::InverseMass);
    assert_eq!(world[0], no_place);
    assert_eq!(world[1], no_body);
    assert_eq!(world[2].position, Some(Vec3::new(4, 4, 4)));
}

#[test]
fn integration_fits_refuses_what_cannot_be_stored() {
    let world = vec![ball(1, Vec3::new(0, 1, 0), 1, Vec3::new(0, i64::MAX - 1, 0))];
    assert!(integration_fits(&world, 1, IntegrationScaling::InverseMass));
    assert!(!integration_fits(&world, 2, IntegrationScaling::InverseMass));
    let heavy = vec![ball(2, Vec3::new(0, 1, 0), 1, Vec3::new(0, i64::MAX - 1, 0))];
    assert!(integration_fits(&heavy, 3, IntegrationScaling::InverseMass));
    assert!(!integration_fits(&heavy, 3, IntegrationScaling::Unscaled));
}

#[test]
fn tick_runs_gravity_then_collision_then_integration() {
    // Apart: gravity is felt by the same tick's integration.
    let mut world = vec![ball(1, Vec3::zero(), 1, Vec3::new(0, 100, 0))];
    tick(&mut world, standard_gravity(), 2, IntegrationScaling::InverseMass);
    assert_eq!(world[0].body.unwrap().velocity, Vec3::new(0, -20, 0));
    assert_eq!(world[0].position, Some(Vec3::new(0, 60, 0)));
    // Touching: the collision wipes out what gravity gave, so nothing moves.
    let mut pair = vec![
        ball(1, Vec3::zero(), 1, Vec3::new(0, 2, 0)),
        ball(0, Vec3::zero(), 1, Vec3::new(0, 0, 0)),
    ];
    let before = pair.clone();
    tick(&mut pair, standard_gravity(), 2, IntegrationScaling::InverseMass);
    assert_eq!(pair, before);
}

#[test]
fn try_tick_does_what_tick_does() {
    let start = vec![
        ball(3, Vec3::new(1, 0, 0), 1, Vec3::new(0, 50, 0)),
        ball(0, Vec3::zero(), 10, Vec3::new(0, 0, 0)),
        ball(2, Vec3::zero(), 1, Vec3::new(0, 11, 0)),
    ];
    let mut a = start.clone();
    let mut b = start.clone();
    tick(&mut a, standard_gravity(), 3, IntegrationScaling::Unscaled);
    assert!(try_tick(&mut b, standard_gravity(), 3, IntegrationScaling::Unscaled));
    assert_eq!(a, b);
    assert_eq!(a[0].position, Some(Vec3::new(3, -40, 0)));
    assert_eq!(a[2].body.unwrap().velocity, Vec3::zero());
    assert_eq!(a[2].position, Some(Vec3::new(0, 11, 0)));
}

#[test]
fn try_tick_leaves_the_world_alone_when_gravity_does_not_fit() {
    let start = vec![
        ball(1, Vec3::zero(), 1, Vec3::new(0, 50, 0)),
        ball(1, Vec3::new(0, i64::MIN, 0), 1, Vec3::new(500, 0, 0)),
    ];
    let mut world = start.clone();
    assert!(!try_tick(&mut world, standard_gravity(), 1, IntegrationScaling::InverseMass));
    assert_eq!(world, start);
}

#[test]
fn try_tick_leaves_the_world_alone_when_integration_does_not_fit() {
    let start = vec![
        ball(1, Vec3::zero(), 1, Vec3::new(0, 50, 0)),
        ball(1, Vec3::zero(), 1, Vec3::new(500, i64::MIN + 5, 0)),
    ];
    let mut world = start.clone();
    assert!(gravity_fits(&world, &standard_gravity(), 1));
    assert!(!try_tick(&mut world, standard_gravity(), 1, IntegrationScaling::InverseMass));
    assert_eq!(world, start);
    assert!(try_tick(&mut world, Vec3::new(0, -5, 0), 1, IntegrationScaling::InverseMass));
    assert_eq!(world[1].position, Some(Vec3::new(500, i64::MIN, 0)));
    assert_eq!(world[0].position, Some(Vec3::new(0, 45, 0)));
}

#[test]
fn zero_velocity_response_stops_both() {
    let mut a = moving(3, Vec3::new(1, 2, 3));
    let mut b = moving(0, Vec3::new(4, 5, 6));
    ZeroVelocity.respond(&mut a, &mut b);
    assert_eq!(a, Body::new(3));
    assert_eq!(b, Body::new(0));
}

#[test]
fn collide_with_zero_velocity_is_collide() {
    let v = Vec3::new(1, 2, 3);
    let start = vec![
        ball(1, v, 1, Vec3::new(0, 0, 0)),
        ball(1, v, 1, Vec3::new(100, 0, 0)),
        ball(1, v, 1, Vec3::new(0, 2, 0)),
        Entity { body: Some(moving(1, v)), shape: None, position: Some(Vec3::zero()) },
    ];
    let mut a = start.clone();
    let mut b = start.clone();
    collide(&mut a);
    collide_with(&mut b, &ZeroVelocity);
    assert_eq!(a, b);
    assert_eq!(a[0].body.unwrap().velocity, Vec3::zero());
    assert_eq!(a[1].body.unwrap().velocity, v);
    assert_eq!(a[3].body.unwrap().velocity, v);
}

#[test]
fn collide_with_hands_touching_pairs_to_the_policy_in_order() {
    // All three touch one another, so the pairs (0, 1), (0, 2), (1, 2) trade in turn.
    let a = Vec3::new(1, 0, 0);
    let b = Vec3::new(2, 0, 0);
    let c = Vec3::new(3, 0, 0);
    let mut world = vec![
        ball(1, a, 5, Vec3::new(0, 0, 0)),
        ball(1, b, 5, Vec3::new(1, 0, 0)),
        ball(1, c, 5, Vec3::new(2, 0, 0)),
        ball(1, Vec3::new(9, 9, 9), 5, Vec3::new(1000, 0, 0)),
    ];
    collide_with(&mut world, &ExchangeVelocities);
    let after: Vec<Vec3> = world.iter().map(|e| e.body.unwrap().velocity).collect();
    assert_eq!(after, vec![c, b, a, Vec3::new(9, 9, 9)]);
    assert_eq!(world[2].position, Some(Vec3::new(2, 0, 0)));
}

#[test]
fn collide_with_leaves_pairs_apart_to_themselves() {
    let before = vec![
        ball(1, Vec3::new(1, 0, 0), 5, Vec3::new(0, 0, 0)),
        ball(1, Vec3::new(2, 0, 0), 5, Vec3::new(11, 0, 0)),
    ];
    let mut world = before.clone();
    collide_with(&mut world, &ExchangeVelocities);
    assert_eq!(world, before);
    world[1].position = Some(Vec3::new(10, 0, 0));
    collide_with(&mut world, &ExchangeVelocities);
    assert_eq!(world[0].body.unwrap().velocity, Vec3::new(2, 0, 0));
    assert_eq!(world[1].body.unwrap().velocity, Vec3::new(1, 0, 0));
}

#[test]
fn exchange_response_trades_whole_velocities() {
    let mut a = Body::new(3);
    a.apply_impulse_linear(Vec3::new(7, 0, 0));
    let mut b = moving(0, Vec3::new(4, 5, 6));
    assert_eq!(a.velocity, Vec3::new(2, 0, 0));
    assert_eq!(a.remainder, Remainder { x: 1, y: 0, z: 0 });
    ExchangeVelocities.respond(&mut a, &mut b);
    assert_eq!(a, moving(3, Vec3::new(4, 5, 6)));
    assert_eq!(b, moving(0, Vec3::new(2, 0, 0)));
}

#[test]
fn collision_takes_the_leftover_momentum_too() {
    let mut slow = Body::new(5);
    slow.apply_impulse_linear(Vec3::new(3, 0, 0));
    assert_eq!(slow.remainder, Remainder { x: 3, y: 0, z: 0 });
    let mut world = vec![
        Entity::new(slow, Shape::sphere(1), Vec3::zero()),
        ball(1, Vec3::new(1, 1, 1), 1, Vec3::new(1, 0, 0)),
    ];
    collide(&mut world);
    assert_eq!(world[0].body, Some(Body::new(5)));
    assert_eq!(world[1].body, Some(Body::new(1)));
}

#[test]
fn gravity_adds_the_same_velocity_whatever_is_left_over() {
    let mut b = Body::new(3);
    b.apply_impulse_linear(Vec3::new(-2, 4, 5));
    assert_eq!(b.velocity, Vec3::new(-1, 1, 1));
    assert_eq!(b.remainder, Remainder { x: 1, y: 1, z: 2 });
    let mut world = vec![Entity::new(b, Shape::sphere(1), Vec3::zero())];
    for step in 1..=5i64 {
        apply_gravity(&mut world, standard_gravity(), 2);
        let after = world[0].body.unwrap();
        assert_eq!(after.velocity, Vec3::new(-1, 1 - 20 * step, 1));
        assert_eq!(after.remainder, Remainder { x: 1, y: 1, z: 2 });
    }
}

#[test]
fn a_slow_heavy_body_still_gets_somewhere() {
    // Velocity one, mass two: half a unit in a tick of one.
    let mut world = vec![ball(2, Vec3::new(1, 0, -1), 1, Vec3::zero())];
    let mut seen = vec![];
    for _ in 0..6 {
        integrate(&mut world, 1, IntegrationScaling::InverseMass);
        let at = world[0].position.unwrap();
        seen.push((at.x, at.z));
    }
    assert_eq!(seen, vec![(0, -1), (1, -1), (1, -2), (2, -2), (2, -3), (3, -3)]);
    assert_eq!(world[0].body.unwrap().drift, Drift::zero());
    assert_eq!(world[0].body.unwrap().velocity, Vec3::new(1, 0, -1));
}

#[test]
fn integration_steps_add_up() {
    let mut b = Body::new(7);
    b.apply_impulse_linear(Vec3::new(100, -33, 5));
    for scaling in [IntegrationScaling::InverseMass, IntegrationScaling::Unscaled] {
        let start = vec![Entity::new(b, Shape::sphere(1), Vec3::new(10, 20, 30))];
        let mut in_steps = start.clone();
        for dt in [1u32, 2, 3, 5, 8, 13] {
            integrate(&mut in_steps, dt, scaling);
        }
        let mut at_once = start.clone();
        integrate(&mut at_once, 32, scaling);
        assert_eq!(in_steps, at_once);
    }
    let start = vec![Entity::new(b, Shape::sphere(1), Vec3::zero())];
    let mut unscaled = start.clone();
    integrate(&mut unscaled, 49, IntegrationScaling::Unscaled);
    // Momentum (100, -33, 5) over mass 7 for 49 ticks, exactly.
    assert_eq!(unscaled[0].position, Some(Vec3::new(700, -231, 35)));
    let mut scaled = start.clone();
    integrate(&mut scaled, 49, IntegrationScaling::InverseMass);
    assert_eq!(scaled[0].position, Some(Vec3::new(100, -33, 5)));
}
