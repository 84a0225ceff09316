use circuit_sim::circuit::{Circuit, BOTTOM_RAIL_Y, LED_ENTITY, LEFT_RAIL_X, RIGHT_RAIL_X};
use circuit_sim::damping::damping_fraction;
use circuit_sim::heading::Heading;

#[test]
fn first_resistor_contact_attenuates_then_never_again() {
    // a particle spawns with full damping, meets resistor #1 twice, then the
    // LED: damping falls to 0.8 once, and power reads exactly that value
    let mut c = Circuit::new(35);
    c.spawn_tick_with_offset(0);
    let placed = c.place_resistor(LEFT_RAIL_X, 30000);
    assert_eq!(placed, Some(1));
    // the particle is entity 6, the placed resistor's sensor entity 7
    c.process_event(6, 7);
    assert_eq!(c.particles[0].damping_steps(), 1);
    assert!(c.particles[0].has_visited(1));
    assert_eq!(c.particles[0].collisions, 1);
    // a second contact with the same resistor does not attenuate again
    c.process_event(6, 7);
    assert_eq!(c.particles[0].damping_steps(), 1);
    assert_eq!(c.particles[0].collisions, 1);
    // LED contact: power becomes the particle's damping, 0.8
    c.process_event(6, LED_ENTITY);
    assert_eq!(c.power, Some(1));
    assert_eq!(damping_fraction(1), (4, 5));
}

#[test]
fn distinct_resistors_compound_in_series() {
    let mut c = Circuit::new(35);
    c.spawn_tick_with_offset(0);
    assert_eq!(c.place_resistor(LEFT_RAIL_X, 30000), Some(1));
    assert_eq!(c.place_resistor(RIGHT_RAIL_X, -20000), Some(2));
    c.process_event(6, 7);
    c.process_event(6, 8);
    assert_eq!(c.particles[0].damping_steps(), 2);
    c.process_event(6, LED_ENTITY);
    assert_eq!(c.power, Some(2));
    assert_eq!(damping_fraction(2), (16, 25));
}

#[test]
fn corner_hits_turn_the_particle_through_the_cycle() {
    let mut c = Circuit::new(35);
    c.spawn_tick_with_offset(0);
    assert_eq!(c.particles[0].heading(), Heading::West);
    // the pair is unordered: the particle may come first or second
    c.process_event(2, 6);
    assert_eq!(c.particles[0].heading(), Heading::North);
    c.process_event(6, 3);
    assert_eq!(c.particles[0].heading(), Heading::East);
    c.process_event(4, 6);
    assert_eq!(c.particles[0].heading(), Heading::South);
    c.process_event(6, 5);
    assert_eq!(c.particles[0].heading(), Heading::West);
    assert_eq!(c.particles[0].collisions, 4);
    // corners never touch damping or power
    assert_eq!(c.particles[0].damping_steps(), 0);
    assert_eq!(c.power, None);
}

#[test]
fn power_changes_only_on_led_events() {
    let mut c = Circuit::new(35);
    c.spawn_tick_with_offset(0);
    c.spawn_tick_with_offset(0);
    assert_eq!(c.place_resistor(LEFT_RAIL_X, 30000), Some(1));
    // wall and resistor contacts leave power alone
    c.process_event(6, 2);
    c.process_event(6, 8);
    assert_eq!(c.power, None);
    // the damped particle writes 0.8
    c.process_event(6, LED_ENTITY);
    assert_eq!(c.power, Some(1));
    // the undamped particle overwrites with 1.0
    c.process_event(7, LED_ENTITY);
    assert_eq!(c.power, Some(0));
}

#[test]
fn stale_or_foreign_event_pairs_are_skipped() {
    let mut c = Circuit::new(35);
    c.spawn_tick_with_offset(0);
    c.spawn_tick_with_offset(0);
    let before_collisions = (c.particles[0].collisions, c.particles[1].collisions);
    // unknown entities, two particles, and two obstacles: all no-ops
    c.process_event(999, 998);
    c.process_event(6, 7);
    c.process_event(2, LED_ENTITY);
    assert_eq!(c.particles[0].collisions, before_collisions.0);
    assert_eq!(c.particles[1].collisions, before_collisions.1);
    assert_eq!(c.power, None);
    assert_eq!(c.particles.len(), 2);
}

#[test]
fn event_batch_drains_in_emission_order() {
    let mut c = Circuit::new(35);
    c.spawn_tick_with_offset(0);
    assert_eq!(c.place_resistor(LEFT_RAIL_X, 30000), Some(1));
    // resistor first, LED second: the LED must see the attenuated value
    let events = vec![(6u64, 7u64), (6u64, LED_ENTITY)];
    c.process_events(&events);
    assert_eq!(c.power, Some(1));
    assert_eq!(c.particles[0].collisions, 1);
}

#[test]
fn clicks_in_rail_bands_place_one_snapped_resistor() {
    let mut c = Circuit::new(35);
    // inside the left band: snapped to the left rail, height kept
    let placed = c.place_resistor(-139500, 50000);
    assert_eq!(placed, Some(1));
    assert_eq!(c.resistor_count, 1);
    assert_eq!(c.resistors.len(), 2);
    assert_eq!(c.resistors[1].x, LEFT_RAIL_X);
    assert_eq!(c.resistors[1].y, 50000);
    assert_eq!(c.resistors[1].rid, 1);
    // outside all three bands: nothing is placed
    assert_eq!(c.place_resistor(0, 0), None);
    assert_eq!(c.resistor_count, 1);
    assert_eq!(c.resistors.len(), 2);
    // right band: snapped to the right rail
    assert_eq!(c.place_resistor(136200, -64000), Some(2));
    assert_eq!(c.resistors[2].x, RIGHT_RAIL_X);
    assert_eq!(c.resistors[2].y, -64000);
    // bottom band: snapped to the bottom rail, easting kept
    assert_eq!(c.place_resistor(12000, -128000), Some(3));
    assert_eq!(c.resistors[3].x, 12000);
    assert_eq!(c.resistors[3].y, BOTTOM_RAIL_Y);
    assert_eq!(c.resistor_count, 3);
}

#[test]
fn band_edges_are_exclusive_and_left_band_wins_the_corner() {
    let mut c = Circuit::new(35);
    // exactly on a band edge: outside the open window
    assert_eq!(c.place_resistor(-145000, 0), None);
    assert_eq!(c.place_resistor(-135000, 0), None);
    assert_eq!(c.place_resistor(0, -121000), None);
    // a click where the left band overlaps the bottom band follows the
    // left rail
    assert_eq!(c.place_resistor(-139000, -126500), Some(1));
    assert_eq!(c.resistors[1].x, LEFT_RAIL_X);
    assert_eq!(c.resistors[1].y, -126500);
}

#[test]
fn seed_resistor_attenuates_like_any_other() {
    let mut c = Circuit::new(35);
    c.spawn_tick_with_offset(0);
    c.process_event(6, 0);
    assert_eq!(c.particles[0].damping_steps(), 1);
    assert!(c.particles[0].has_visited(0));
}
