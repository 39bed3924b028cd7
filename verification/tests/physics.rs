use arena_physics::body::{Body, Platform, DEFAULT_MASS, SPECIAL_MOVE_MASS};
use arena_physics::fixed::{clamp, div_trunc, isqrt, LIMIT};
use arena_physics::forces::{drag, get_movement};
use arena_physics::systems::{
    apply_velocity, flip_sprite, friction_force, get_input, gravitation_force, jump,
    movement_force, special_move, PlayerInput,
};
use arena_physics::vec2::Vec2;

fn v(x: i64, y: i64) -> Vec2 {
    Vec2 { x, y }
}

fn player(x: i64, y: i64) -> Body {
    Body::new(1, v(x, y), v(50_000, 50_000), DEFAULT_MASS).unwrap()
}

fn idle() -> PlayerInput {
    PlayerInput { direction: v(0, 0), jump: false, special: false }
}

#[test]
fn clamp_keeps_values_in_range_and_cuts_the_rest() {
    assert_eq!(clamp(0), 0);
    assert_eq!(clamp(LIMIT), LIMIT);
    assert_eq!(clamp(LIMIT + 1), LIMIT);
    assert_eq!(clamp(-LIMIT - 1), -LIMIT);
    assert_eq!(clamp(-42), -42);
    assert_eq!(clamp(i64::MAX), LIMIT);
    assert_eq!(clamp(i64::MIN), -LIMIT);
}

#[test]
fn div_trunc_rounds_toward_zero() {
    assert_eq!(div_trunc(7, 2), 3);
    assert_eq!(div_trunc(-7, 2), -3);
    assert_eq!(div_trunc(-1, 2), 0);
    assert_eq!(div_trunc(0, 5), 0);
    assert_eq!(div_trunc(-10, 5), -2);
}

#[test]
fn isqrt_is_the_floor_of_the_root() {
    assert_eq!(isqrt(0), 0);
    assert_eq!(isqrt(1), 1);
    assert_eq!(isqrt(3), 1);
    assert_eq!(isqrt(4), 2);
    assert_eq!(isqrt(2_000_000), 1414);
    assert_eq!(isqrt(99), 9);
    assert_eq!(isqrt(100), 10);
    assert_eq!(isqrt(20_000_000_000_000_000), 141_421_356);
}

#[test]
fn vectors_add_and_saturate() {
    assert_eq!(v(1, 2).plus(v(3, -5)), v(4, -3));
    assert_eq!(v(LIMIT, -LIMIT).plus(v(1, -1)), v(LIMIT, -LIMIT));
    assert_eq!(v(1, 2).minus(v(3, -5)), v(-2, 7));
    assert_eq!(Vec2::new(LIMIT + 5, 3), v(LIMIT, 3));
    assert_eq!(Vec2::zero(), v(0, 0));
    assert_eq!(v(707, -707).times(v(2000, 0)), v(1414, 0));
}

#[test]
fn length_and_unit_vector() {
    assert_eq!(v(3000, 4000).length(), 5000);
    assert_eq!(v(0, 0).length(), 0);
    assert_eq!(v(3000, 4000).normalize_or_zero(), v(600, 800));
    assert_eq!(v(-3000, 4000).normalize_or_zero(), v(-600, 800));
    assert_eq!(v(1000, 1000).normalize_or_zero(), v(707, 707));
    assert_eq!(v(0, -5).normalize_or_zero(), v(0, -1000));
}

#[test]
fn zero_vector_normalizes_to_zero() {
    assert_eq!(v(0, 0).normalize_or_zero(), v(0, 0));
}

#[test]
fn get_movement_maps_keys_to_unit_directions() {
    assert_eq!(get_movement(false, false, false, false), v(0, 0));
    assert_eq!(get_movement(true, false, false, false), v(-1000, 0));
    assert_eq!(get_movement(false, true, false, false), v(1000, 0));
    assert_eq!(get_movement(true, true, false, false), v(0, 0));
    assert_eq!(get_movement(false, false, true, false), v(0, 1000));
    assert_eq!(get_movement(false, false, false, true), v(0, -1000));
    assert_eq!(get_movement(false, true, true, false), v(707, 707));
    assert_eq!(get_movement(true, false, false, true), v(-707, -707));
}

#[test]
fn drag_of_a_body_at_rest_is_zero() {
    assert_eq!(drag(v(0, 0)), v(0, 0));
}

#[test]
fn drag_has_the_stated_magnitude() {
    // |v| = 10: 0.005 * 100 + 0.05 * 10 = 1
    assert_eq!(drag(v(10_000, 0)), v(-1000, 0));
    assert_eq!(drag(v(0, -10_000)), v(0, 1000));
    // |v| = 5 along (3, 4): 0.005 * 25 + 0.05 * 5 = 0.375
    assert_eq!(drag(v(3000, 4000)), v(-225, -300));
}

#[test]
fn drag_opposes_every_velocity_tried() {
    let samples = [-LIMIT, -40_000, -1000, -20, -1, 0, 1, 10, 999, 5000, 123_456, LIMIT];
    for &x in samples.iter() {
        for &y in samples.iter() {
            let d = drag(v(x, y));
            assert_eq!(d.x.signum(), -x.signum(), "x of drag({}, {}) is {}", x, y, d.x);
            assert_eq!(d.y.signum(), -y.signum(), "y of drag({}, {}) is {}", x, y, d.y);
            if x != 0 || y != 0 {
                let dot = (d.x as i128) * (x as i128) + (d.y as i128) * (y as i128);
                assert!(dot < 0, "drag({}, {}) does not oppose", x, y);
            }
        }
    }
}

#[test]
fn slow_bodies_feel_drag_too() {
    assert_eq!(drag(v(1, 0)), v(-1, 0));
    assert_eq!(drag(v(10, 0)), v(-1, 0));
    assert_eq!(drag(v(0, -19)), v(0, 1));
    assert_eq!(drag(v(-1, 1)), v(1, -1));
    // 0.05 * 20 steps is one step exactly; a little more is rounded up
    assert_eq!(drag(v(20, 0)), v(-2, 0));
    assert_eq!(drag(v(19, 0)), v(-1, 0));
}

#[test]
fn drag_is_the_velocity_turned_round_and_scaled() {
    // |v| = 13 along (5, 12): factor 0.005 * 13 + 0.05 = 0.115
    assert_eq!(drag(v(5000, 12_000)), v(-575, -1380));
    assert_eq!(drag(v(-5000, 12_000)), v(575, -1380));
    // |v| = 100 along (60, 80): factor 0.55
    assert_eq!(drag(v(60_000, -80_000)), v(-33_000, 44_000));
}

#[test]
fn drag_grows_with_speed() {
    let mut last = 0;
    let mut x = 0;
    while x <= 400_000 {
        let d = -drag(v(x, 0)).x;
        assert!(d >= last, "drag at {} is {}", x, d);
        if x >= 20 {
            let slower = -drag(v(x - 20, 0)).x;
            assert!(d > slower, "drag at {} is {}, at {} it is {}", x, d, x - 20, slower);
        }
        last = d;
        x += 7;
    }
    // along one axis of a diagonal, too
    assert!(-drag(v(3020, 4000)).x > -drag(v(3000, 4000)).x);
    assert!(-drag(v(3000, 4020)).y > -drag(v(3000, 4000)).y);
    // at the edge of the range the drag stops growing
    assert_eq!(drag(v(LIMIT, 0)), v(-LIMIT, 0));
    assert_eq!(drag(v(LIMIT - 20, 0)), v(-LIMIT, 0));
}

#[test]
fn body_new_rejects_bad_mass_and_extent() {
    assert!(Body::new(1, v(0, 0), v(50_000, 50_000), 0).is_none());
    assert!(Body::new(1, v(0, 0), v(50_000, 50_000), -1000).is_none());
    assert!(Body::new(1, v(0, 0), v(0, 50_000), 1000).is_none());
    assert!(Body::new(1, v(0, 0), v(50_000, -1), 1000).is_none());
    assert!(Body::new(1, v(0, 0), v(1, 50_000), 1000).is_none());
    assert!(Body::new(1, v(0, 0), v(50_000, 1), 1000).is_none());
    assert!(Body::new(1, v(0, 0), v(2, 2), 1000).is_some());
    assert!(Platform::new(v(0, 0), v(1, 1)).is_none());
    assert!(Platform::new(v(0, 0), v(2, 2)).is_some());
    assert!(Body::new(1, v(LIMIT + 1, 0), v(50_000, 50_000), 1000).is_none());
    assert!(Body::new(1, v(0, 0), v(50_000, 50_000), 1_000_001).is_none());
    assert!(Platform::new(v(0, 0), v(0, 1)).is_none());
    assert!(Platform::new(v(0, -LIMIT - 1), v(2, 2)).is_none());
    assert_eq!(
        Platform::new(v(1, 2), v(3, 4)),
        Some(Platform { position: v(1, 2), size: v(3, 4) })
    );
}

#[test]
fn body_new_starts_at_rest_and_charged() {
    let b = Body::new(7, v(1000, -2000), v(50_000, 30_000), 2000).unwrap();
    assert_eq!(b.player, 7);
    assert_eq!(b.position, v(1000, -2000));
    assert_eq!(b.size, v(50_000, 30_000));
    assert_eq!(b.velocity, v(0, 0));
    assert_eq!(b.acceleration, v(0, 0));
    assert_eq!(b.mass, 2000);
    assert_eq!(b.force_ground, v(2000, 0));
    assert_eq!(b.force_air, v(1500, 0));
    assert_eq!(b.gravitation, v(0, -1000));
    assert!(!b.on_platform);
    assert!(b.cooldown.charge);
    assert_eq!(b.cooldown.elapsed, 0);
    assert_eq!(b.score, 0);
    assert!(!b.tinted);
}

#[test]
fn default_body_is_player_one_of_unit_size() {
    let b = Body::default();
    assert_eq!(b.player, 1);
    assert_eq!(b.position, v(0, 0));
    assert_eq!(b.size, v(1000, 1000));
    assert_eq!(b.mass, DEFAULT_MASS);
    assert!(b.cooldown.charge);
    assert_eq!(b.score, 0);
}

#[test]
fn movement_is_stronger_on_the_ground_than_in_the_air() {
    let mut b = player(0, 0);
    b.on_platform = true;
    assert_eq!(b.movement_force(v(1000, 0)).acceleration, v(2000, 0));
    assert_eq!(b.movement_force(v(-1000, 0)).acceleration, v(-2000, 0));
    b.on_platform = false;
    assert_eq!(b.movement_force(v(1000, 0)).acceleration, v(1500, 0));
    assert_eq!(b.movement_force(v(707, 707)).acceleration, v(1060, 0));
    assert_eq!(b.movement_force(v(0, 0)).acceleration, v(0, 0));
}

#[test]
fn movement_takes_the_direction_only() {
    let mut b = player(0, 0);
    b.on_platform = true;
    assert_eq!(b.movement_force(v(5000, 0)).acceleration, v(2000, 0));
}

#[test]
fn gravity_and_drag_add_to_the_acceleration() {
    let mut b = player(0, 0);
    b.velocity = v(10_000, 0);
    let b = b.gravitation_force().friction_force();
    assert_eq!(b.acceleration, v(-1000, -1000));
    assert_eq!(b.velocity, v(10_000, 0));
}

#[test]
fn jump_needs_ground_and_a_press() {
    let mut b = player(0, 0);
    b.velocity = v(3000, -1000);
    assert_eq!(b.jump(true).velocity, v(3000, -1000));
    b.on_platform = true;
    assert_eq!(b.jump(false).velocity, v(3000, -1000));
    assert_eq!(b.jump(true).velocity, v(3000, 39_000));
    assert_eq!(b.jump(true).acceleration, v(0, 0));
}

#[test]
fn integration_moves_by_the_new_velocity_and_clears_acceleration() {
    let mut b = player(1000, 2000);
    b.velocity = v(500, -500);
    b.acceleration = v(100, -1000);
    let b = b.apply_velocity();
    assert_eq!(b.velocity, v(600, -1500));
    assert_eq!(b.position, v(1600, 500));
    assert_eq!(b.acceleration, v(0, 0));
}

#[test]
fn integration_saturates_at_the_edge_of_the_range() {
    let mut b = player(LIMIT, 0);
    b.velocity = v(LIMIT, 0);
    b.acceleration = v(LIMIT, 0);
    let b = b.apply_velocity();
    assert_eq!(b.velocity, v(LIMIT, 0));
    assert_eq!(b.position, v(LIMIT, 0));
}

#[test]
fn sprite_turns_only_at_speed() {
    let mut b = player(0, 0);
    b.velocity = v(4999, 0);
    assert!(!b.flip_sprite().flip_x);
    b.velocity = v(5000, 0);
    assert!(b.flip_sprite().flip_x);
    b.flip_x = true;
    b.velocity = v(-4999, 0);
    assert!(b.flip_sprite().flip_x);
    b.velocity = v(-5000, 0);
    assert!(!b.flip_sprite().flip_x);
}

#[test]
fn special_move_without_charge_leaves_velocity_alone() {
    let mut b = player(0, 0);
    b.velocity = v(1000, 2000);
    b.cooldown.charge = false;
    b.cooldown.elapsed = 100_000;
    let r = b.special_move(v(1000, 0), true, 15_625);
    assert_eq!(r.velocity, v(1000, 2000));
    assert!(!r.cooldown.charge);
    assert_eq!(r.cooldown.elapsed, 115_625);
}

#[test]
fn special_move_with_charge_boosts_once() {
    let mut b = player(0, 0);
    b.velocity = v(1000, 2000);
    let r = b.special_move(v(1000, 0), true, 15_625);
    assert_eq!(r.velocity, v(51_000, 2000));
    assert!(!r.cooldown.charge);
    assert_eq!(r.cooldown.elapsed, 0);
    assert_eq!(r.mass, SPECIAL_MOVE_MASS);
    assert!(r.tinted);
    let again = r.special_move(v(1000, 0), true, 15_625);
    assert_eq!(again.velocity, v(51_000, 2000));
    assert!(!again.cooldown.charge);
}

#[test]
fn special_move_without_direction_boosts_along_the_velocity() {
    let mut b = player(0, 0);
    b.velocity = v(3000, -4000);
    let r = b.special_move(v(0, 0), true, 15_625);
    assert_eq!(r.velocity, v(3000 + 30_000, -4000 - 40_000));
    let mut still = player(0, 0);
    still.velocity = v(0, 0);
    let r = still.special_move(v(0, 0), true, 15_625);
    assert_eq!(r.velocity, v(0, 0));
    assert!(!r.cooldown.charge);
}

#[test]
fn special_move_not_asked_for_keeps_the_charge() {
    let b = player(0, 0);
    let r = b.special_move(v(1000, 0), false, 15_625);
    assert_eq!(r, b);
}

#[test]
fn recovery_makes_light_at_the_midpoint_and_charges_at_the_end() {
    let mut b = player(0, 0).special_move(v(0, 1000), true, 15_625);
    assert_eq!(b.mass, SPECIAL_MOVE_MASS);
    for tick in 1..=128u64 {
        b = b.special_move(v(0, 1000), false, 15_625);
        if tick < 32 {
            assert_eq!(b.mass, SPECIAL_MOVE_MASS, "tick {}", tick);
        } else {
            assert_eq!(b.mass, DEFAULT_MASS, "tick {}", tick);
        }
        if tick < 128 {
            assert!(!b.cooldown.charge, "tick {}", tick);
            assert!(b.tinted, "tick {}", tick);
            assert_eq!(b.cooldown.elapsed, tick * 15_625);
        }
    }
    assert!(b.cooldown.charge);
    assert!(!b.tinted);
    assert_eq!(b.cooldown.elapsed, 0);
}

#[test]
fn recovery_makes_light_when_a_tick_steps_over_the_midpoint() {
    let mut b = player(0, 0);
    b.cooldown.charge = false;
    b.cooldown.elapsed = 400_000;
    b.mass = SPECIAL_MOVE_MASS;
    b.tinted = true;
    let early = b.special_move(v(0, 0), false, 99_999);
    assert_eq!(early.mass, SPECIAL_MOVE_MASS);
    assert_eq!(early.cooldown.elapsed, 499_999);
    let r = b.special_move(v(0, 0), false, 200_000);
    assert_eq!(r.mass, DEFAULT_MASS);
    assert_eq!(r.cooldown.elapsed, 600_000);
    assert!(!r.cooldown.charge);
    assert!(r.tinted);
    let r = r.special_move(v(0, 0), false, 1_400_000);
    assert_eq!(r.mass, DEFAULT_MASS);
    assert!(r.cooldown.charge);
    assert_eq!(r.cooldown.elapsed, 0);
    assert!(!r.tinted);
}

#[test]
fn recovery_in_one_long_tick_leaves_the_body_light_and_charged() {
    let b = player(0, 0).special_move(v(1000, 0), true, 15_625);
    assert_eq!(b.mass, SPECIAL_MOVE_MASS);
    let r = b.special_move(v(1000, 0), false, 5_000_000);
    assert_eq!(r.mass, DEFAULT_MASS);
    assert!(r.cooldown.charge);
    let uneven = b.special_move(v(0, 0), false, 300_000).special_move(v(0, 0), false, 300_000);
    assert_eq!(uneven.mass, DEFAULT_MASS);
    assert!(!uneven.cooldown.charge);
}

#[test]
fn charged_body_keeps_its_mass() {
    let b = Body::new(1, v(0, 0), v(50_000, 50_000), 2500).unwrap();
    let r = b.special_move(v(0, 0), false, 3_000_000);
    assert_eq!(r.mass, 2500);
    assert_eq!(r, b);
}

#[test]
fn recovery_that_ends_in_a_tick_allows_the_move_in_that_tick() {
    let mut b = player(0, 0);
    b.cooldown.charge = false;
    b.cooldown.elapsed = 1_990_000;
    let r = b.special_move(v(1000, 0), true, u64::MAX);
    assert_eq!(r.velocity, v(50_000, 0));
    assert!(!r.cooldown.charge);
    assert_eq!(r.cooldown.elapsed, 0);
}

#[test]
fn inputs_go_to_players_by_number() {
    let inputs = vec![
        PlayerInput { direction: v(1000, 0), jump: true, special: false },
        PlayerInput { direction: v(-1000, 0), jump: false, special: true },
    ];
    assert_eq!(get_input(&inputs, 1), inputs[0]);
    assert_eq!(get_input(&inputs, 2), inputs[1]);
    assert_eq!(get_input(&inputs, 0), idle());
    assert_eq!(get_input(&inputs, 3), idle());
}

#[test]
fn systems_act_on_every_player() {
    let mut a = player(0, 0);
    a.on_platform = true;
    let mut b = player(100_000, 0);
    b.player = 2;
    b.velocity = v(10_000, 0);
    let mut bodies = vec![a, b];
    let inputs = vec![
        PlayerInput { direction: v(1000, 0), jump: true, special: false },
        PlayerInput { direction: v(-1000, 0), jump: true, special: true },
    ];
    movement_force(&mut bodies, &inputs);
    assert_eq!(bodies[0].acceleration, v(2000, 0));
    assert_eq!(bodies[1].acceleration, v(-1500, 0));
    friction_force(&mut bodies);
    assert_eq!(bodies[0].acceleration, v(2000, 0));
    assert_eq!(bodies[1].acceleration, v(-2500, 0));
    gravitation_force(&mut bodies);
    assert_eq!(bodies[0].acceleration, v(2000, -1000));
    assert_eq!(bodies[1].acceleration, v(-2500, -1000));
    jump(&mut bodies, &inputs);
    assert_eq!(bodies[0].velocity, v(0, 40_000));
    assert_eq!(bodies[1].velocity, v(10_000, 0));
    special_move(&mut bodies, &inputs, 15_625);
    assert_eq!(bodies[0].velocity, v(0, 40_000));
    assert_eq!(bodies[1].velocity, v(-40_000, 0));
    assert!(bodies[0].cooldown.charge);
    assert!(!bodies[1].cooldown.charge);
    apply_velocity(&mut bodies);
    assert_eq!(bodies[0].velocity, v(2000, 39_000));
    assert_eq!(bodies[0].position, v(2000, 39_000));
    assert_eq!(bodies[1].velocity, v(-42_500, -1000));
    assert_eq!(bodies[1].position, v(57_500, -1000));
    assert_eq!(bodies[1].acceleration, v(0, 0));
    flip_sprite(&mut bodies);
    assert!(!bodies[0].flip_x);
    assert!(!bodies[1].flip_x);
}
