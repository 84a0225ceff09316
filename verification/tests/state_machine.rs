use circuit_sim::circuit::led_brightness_fraction;
use circuit_sim::damping::{attenuate_speed, damping_fraction};
use circuit_sim::heading::{heading_for_count, Heading};
use circuit_sim::switch::SwitchController;

#[test]
fn heading_cycles_through_four_phases() {
    assert_eq!(heading_for_count(0), Heading::West);
    assert_eq!(heading_for_count(1), Heading::North);
    assert_eq!(heading_for_count(2), Heading::East);
    assert_eq!(heading_for_count(3), Heading::South);
    assert_eq!(heading_for_count(4), Heading::West);
    assert_eq!(heading_for_count(5), Heading::North);
    assert_eq!(heading_for_count(6), Heading::East);
    assert_eq!(heading_for_count(7), Heading::South);
}

#[test]
fn heading_depends_only_on_phase() {
    for c in 0u64..40 {
        assert_eq!(heading_for_count(c), heading_for_count(c % 4));
        assert_eq!(heading_for_count(c), heading_for_count(c + 4));
    }
}

#[test]
fn damping_fraction_is_exactly_four_fifths_per_contact() {
    assert_eq!(damping_fraction(0), (1, 1));
    assert_eq!(damping_fraction(1), (4, 5));
    assert_eq!(damping_fraction(2), (16, 25));
    assert_eq!(damping_fraction(3), (64, 125));
    let (num, den) = damping_fraction(1);
    assert_eq!(num as f64 / den as f64, 0.8);
    let (num2, den2) = damping_fraction(2);
    assert_eq!(num2 as f64 / den2 as f64, 0.64);
}

#[test]
fn damping_fraction_never_rises() {
    let mut previous: (u64, u64) = damping_fraction(0);
    for k in 1u64..=27 {
        let current = damping_fraction(k);
        // current <= previous as fractions, by cross-multiplication
        assert!((current.0 as u128) * (previous.1 as u128)
            <= (previous.0 as u128) * (current.1 as u128));
        previous = current;
    }
}

#[test]
fn led_brightness_scales_base_saturation_by_damping() {
    assert_eq!(led_brightness_fraction(0), (9, 10));
    let (num, den) = led_brightness_fraction(0);
    assert_eq!(num as f64 / den as f64, 0.9);
    assert_eq!(led_brightness_fraction(1), (36, 50));
    let (num1, den1) = led_brightness_fraction(1);
    assert_eq!(num1 as f64 / den1 as f64, 0.72);
}

#[test]
fn damping_fraction_works_at_its_largest_exponent() {
    let (num, den) = damping_fraction(27);
    assert_eq!(num, 18014398509481984);
    assert_eq!(den, 7450580596923828125);
}

#[test]
fn attenuate_speed_scales_down_stepwise() {
    assert_eq!(attenuate_speed(1000, 0), 1000);
    assert_eq!(attenuate_speed(1000, 1), 800);
    assert_eq!(attenuate_speed(1000, 2), 640);
    assert_eq!(attenuate_speed(1000, 3), 512);
    assert_eq!(attenuate_speed(0, 5), 0);
}

#[test]
fn switch_toggles_once_per_press_however_long_held() {
    let mut s = SwitchController::new();
    assert!(s.on);
    s.step(true);
    assert!(!s.on);
    // holding the input down must not retrigger
    s.step(true);
    s.step(true);
    s.step(true);
    assert!(!s.on);
    // releasing re-arms without toggling
    s.step(false);
    assert!(!s.on);
    // a second press toggles again, once
    s.step(true);
    assert!(s.on);
    s.step(true);
    assert!(s.on);
}
