use circuit_sim::circuit::{
    corner_sensors, led_position, Circuit, BOTTOM_RAIL_Y, LED_ENTITY, LEFT_RAIL_X, RIGHT_RAIL_X,
    TOP_RAIL_Y,
};
use circuit_sim::heading::Heading;

#[test]
fn fresh_world_has_expected_state() {
    let c = Circuit::new(35);
    assert_eq!(c.particles.len(), 0);
    assert_eq!(c.resistors.len(), 1);
    assert_eq!(c.resistors[0].rid, 0);
    assert_eq!(c.resistors[0].x, 0);
    assert_eq!(c.resistors[0].y, 0);
    assert_eq!(c.power, None);
    assert!(c.is_on());
    assert_eq!(c.spawn_ticks, 0);
    assert_eq!(c.resistor_count, 0);
}

#[test]
fn corner_sensors_sit_on_the_loop_corners() {
    let corners = corner_sensors();
    assert_eq!(corners.len(), 4);
    assert_eq!(corners[0], (2, LEFT_RAIL_X, TOP_RAIL_Y));
    assert_eq!(corners[1], (3, RIGHT_RAIL_X, TOP_RAIL_Y));
    assert_eq!(corners[2], (4, LEFT_RAIL_X, BOTTOM_RAIL_Y));
    assert_eq!(corners[3], (5, RIGHT_RAIL_X, BOTTOM_RAIL_Y));
    assert_eq!(led_position(), (140000, 40000));
}

#[test]
fn spawn_cap_gates_spawns_but_counter_keeps_counting() {
    // population cap 20: after 25 spawn-cadence ticks with the switch always
    // on, exactly 20 particles exist while the counter reads 25
    let mut c = Circuit::new(20);
    for _ in 0..25 {
        c.spawn_tick_with_offset(0);
    }
    assert_eq!(c.particles.len(), 20);
    assert_eq!(c.spawn_ticks, 25);
}

#[test]
fn spawned_particle_enters_on_the_top_rail() {
    let mut c = Circuit::new(35);
    let spawned = c.spawn_tick_with_offset(-3);
    assert!(spawned);
    assert_eq!(c.particles.len(), 1);
    let p = &c.particles[0];
    // offset scales with the tick counter, which was still zero
    assert_eq!(p.x, 0);
    assert_eq!(p.y, TOP_RAIL_Y);
    assert_eq!(p.collisions, 0);
    assert_eq!(p.damping_steps(), 0);
    assert_eq!(p.heading(), Heading::West);
    let spawned_again = c.spawn_tick_with_offset(-3);
    assert!(spawned_again);
    // second spawn happened at tick 1: thirty thousandths to the left
    assert_eq!(c.particles[1].x, -30);
    assert_eq!(c.particles[1].y, TOP_RAIL_Y);
}

#[test]
fn random_spawn_offset_stays_in_its_band() {
    let mut c = Circuit::new(35);
    for tick in 0i64..10 {
        let spawned = c.spawn_tick();
        assert!(spawned);
        let p = &c.particles[c.particles.len() - 1];
        assert_eq!(p.y, TOP_RAIL_Y);
        assert!(p.x >= -100 * tick && p.x <= 90 * tick);
    }
}

#[test]
fn switch_off_blocks_spawning_but_not_the_counter() {
    let mut c = Circuit::new(5);
    c.switch_tick(true);
    assert!(!c.is_on());
    let spawned = c.spawn_tick_with_offset(0);
    assert!(!spawned);
    assert_eq!(c.particles.len(), 0);
    assert_eq!(c.spawn_ticks, 1);
}

#[test]
fn switch_off_freezes_positions_and_gates_power() {
    let mut c = Circuit::new(5);
    c.spawn_tick_with_offset(0);
    c.process_event(6, LED_ENTITY);
    assert_eq!(c.power, Some(0));
    assert_eq!(c.gated_power(), Some(0));
    // switch off: positions freeze, power renders as zero
    c.switch_tick(true);
    let (x0, y0) = (c.particles[0].x, c.particles[0].y);
    c.move_particles(1000);
    c.move_particles(1000);
    assert_eq!(c.particles[0].x, x0);
    assert_eq!(c.particles[0].y, y0);
    assert_eq!(c.gated_power(), None);
    assert_eq!(c.power, Some(0));
    // switch back on: motion resumes westward at full speed
    c.switch_tick(false);
    c.switch_tick(true);
    assert!(c.is_on());
    c.move_particles(1000);
    assert_eq!(c.particles[0].x, x0 - 1000);
    assert_eq!(c.particles[0].y, y0);
    assert_eq!(c.gated_power(), Some(0));
}

#[test]
fn headroom_probes_match_the_state_exactly() {
    let mut c = Circuit::new(5);
    c.spawn_tick_with_offset(0);
    assert!(c.motion_headroom(500));
    assert!(c.collision_headroom(10));
    // a particle at the coordinate rim has no room left to move
    c.particles[0].x = i64::MAX - 100;
    assert!(!c.motion_headroom(500));
    c.particles[0].x = 0;
    // a collision counter close to saturation only admits a small batch
    c.particles[0].collisions = u64::MAX - 2;
    assert!(!c.collision_headroom(3));
    assert!(c.collision_headroom(2));
}

#[test]
fn damped_particle_moves_slower() {
    let mut c = Circuit::new(5);
    c.spawn_tick_with_offset(0);
    // place a resistor on the left rail and let the particle hit it
    let placed = c.place_resistor(LEFT_RAIL_X + 1, 50000);
    assert_eq!(placed, Some(1));
    c.process_event(6, 7);
    assert_eq!(c.particles[0].damping_steps(), 1);
    // the resistor contact also turned the particle: count 1 heads North
    assert_eq!(c.particles[0].heading(), Heading::North);
    let y0 = c.particles[0].y;
    c.move_particles(1000);
    assert_eq!(c.particles[0].y, y0 + 800);
}
