use planet_surface::context::PlanetContextLayer;
use planet_surface::dev_input::{
    context_line, edit_buffer, layer_label, marks_dirty, reroll_seed, seed_buffer, submit_seed, sweep_seeds,
    EditOutcome, NumericKeys, ParameterKind,
};

fn keys() -> NumericKeys {
    NumericKeys { digits: Vec::new(), decimal: false, minus: false, backspace: false, escape: false, enter: false }
}

fn text(v: &[char]) -> String {
    v.iter().collect()
}

#[test]
fn digits_point_and_sign_edit_the_buffer() {
    let mut b: Vec<char> = "12".chars().collect();
    let out = edit_buffer(&mut b, &NumericKeys { digits: vec!['3', '4'], decimal: true, ..keys() });
    assert_eq!(out, EditOutcome::Editing);
    assert_eq!(text(&b), "1234.");
    edit_buffer(&mut b, &NumericKeys { decimal: true, digits: vec!['5'], ..keys() });
    assert_eq!(text(&b), "1234.5");
    edit_buffer(&mut b, &NumericKeys { minus: true, ..keys() });
    assert_eq!(text(&b), "-1234.5");
    edit_buffer(&mut b, &NumericKeys { minus: true, backspace: true, ..keys() });
    assert_eq!(text(&b), "1234.");
}

#[test]
fn backspace_on_empty_buffer_does_nothing() {
    let mut b: Vec<char> = Vec::new();
    edit_buffer(&mut b, &NumericKeys { backspace: true, ..keys() });
    assert!(b.is_empty());
}

#[test]
fn escape_wins_over_enter() {
    let mut b: Vec<char> = "7".chars().collect();
    assert_eq!(edit_buffer(&mut b, &NumericKeys { escape: true, enter: true, ..keys() }), EditOutcome::Cancelled);
    assert_eq!(edit_buffer(&mut b, &NumericKeys { enter: true, ..keys() }), EditOutcome::Submitted);
}

#[test]
fn submitted_seed_changes_only_on_a_new_number() {
    let v = |s: &str| s.chars().collect::<Vec<char>>();
    assert_eq!(submit_seed(5, &v("42")), (42, true));
    assert_eq!(submit_seed(42, &v("42")), (42, false));
    assert_eq!(submit_seed(5, &v("-1")), (5, false));
    assert_eq!(submit_seed(5, &v("4.2")), (5, false));
    assert_eq!(submit_seed(5, &v("18446744073709551616")), (5, false));
}

#[test]
fn untouched_seed_field_changes_nothing() {
    for seed in [0u64, 9, 31337, u64::MAX] {
        let b = seed_buffer(seed);
        assert_eq!(text(&b), seed.to_string());
        assert_eq!(submit_seed(seed, &b), (seed, false));
    }
}

#[test]
fn reroll_and_sweep_wrap_around() {
    assert_eq!(reroll_seed(7), 8);
    assert_eq!(reroll_seed(u64::MAX), 0);
    assert_eq!(sweep_seeds(u64::MAX - 1, 4), vec![u64::MAX - 1, u64::MAX, 0, 1]);
    assert!(sweep_seeds(3, 0).is_empty());
}

#[test]
fn level_of_detail_thresholds_do_not_rebuild_the_planet() {
    assert!(!marks_dirty(ParameterKind::LodSurfaceError));
    assert!(!marks_dirty(ParameterKind::LodApproachError));
    assert!(marks_dirty(ParameterKind::WaterLevel));
    assert!(marks_dirty(ParameterKind::SunBrightness));
}

#[test]
fn context_line_names_layer_and_patch_counts() {
    assert_eq!(context_line(PlanetContextLayer::Approach, 12, 40), "Context: Approach | Surface patches: 12 / 40");
    assert_eq!(context_line(PlanetContextLayer::Orbit, 0, 0), "Context: Orbit | Surface patches: 0 / 0");
    assert_eq!(layer_label(PlanetContextLayer::Surface), "Surface");
}
