use planet_surface::starfield::{star_pattern, star_texel_offset};

#[test]
fn stars_wrap_horizontally_and_clamp_vertically() {
    assert_eq!(star_texel_offset(4, 3, 1, 1), Some(4 * (1 * 4 + 1)));
    assert_eq!(star_texel_offset(4, 3, -1, 0), Some(4 * 3));
    assert_eq!(star_texel_offset(4, 3, 4, 0), Some(0));
    assert_eq!(star_texel_offset(4, 3, -8, 0), Some(0));
    assert_eq!(star_texel_offset(4, 3, 2, -5), Some(4 * 2));
    assert_eq!(star_texel_offset(4, 3, 2, 7), Some(4 * (2 * 4 + 2)));
}

#[test]
fn empty_images_have_no_texels() {
    assert_eq!(star_texel_offset(0, 3, 0, 0), None);
    assert_eq!(star_texel_offset(5, 0, 0, 0), None);
}

#[test]
fn star_covers_its_centre_and_four_neighbours() {
    let p = star_pattern();
    assert_eq!(p[0], (0, 0, 100));
    assert_eq!(p.iter().filter(|(_, _, w)| *w == 30).count(), 4);
}
