use planet_surface::planet_lod::{next_planet_level, RingReadings};

fn r(inside: [bool; 3], outside: [bool; 3]) -> RingReadings {
    RingReadings { inside, outside }
}

#[test]
fn levels_step_out_and_in_across_rings() {
    assert_eq!(next_planet_level(5, &r([false; 3], [true, false, false])), 4);
    assert_eq!(next_planet_level(4, &r([true, false, false], [false; 3])), 5);
    assert_eq!(next_planet_level(4, &r([false; 3], [true, true, false])), 3);
    assert_eq!(next_planet_level(3, &r([false, true, false], [false; 3])), 4);
    assert_eq!(next_planet_level(3, &r([false; 3], [true, true, true])), 2);
    assert_eq!(next_planet_level(2, &r([false, false, true], [false; 3])), 3);
}

#[test]
fn margins_hold_the_level() {
    for level in 2..=5u32 {
        assert_eq!(next_planet_level(level, &r([false; 3], [false; 3])), level);
    }
    assert_eq!(next_planet_level(2, &r([false; 3], [true; 3])), 2);
}

#[test]
fn out_of_range_levels() {
    assert_eq!(next_planet_level(9, &r([false; 3], [false; 3])), 5);
    assert_eq!(next_planet_level(9, &r([false; 3], [true; 3])), 4);
    assert_eq!(next_planet_level(1, &r([true; 3], [true; 3])), 1);
}
