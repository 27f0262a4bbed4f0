use planet_surface::text::{chars_of, contains, decimal_digits, lower_all, parse_u64, parse_u8, starts_with};

fn v(s: &str) -> Vec<char> {
    s.chars().collect()
}

#[test]
fn u8_parsing_follows_std() {
    assert_eq!(parse_u8(&v("255")), Some(255));
    assert_eq!(parse_u8(&v("+7")), Some(7));
    assert_eq!(parse_u8(&v("007")), Some(7));
    assert_eq!(parse_u8(&v("256")), None);
    assert_eq!(parse_u8(&v("")), None);
    assert_eq!(parse_u8(&v("+")), None);
    assert_eq!(parse_u8(&v("-1")), None);
    for s in ["0", "12", "+200", "1a", " 1"] {
        assert_eq!(parse_u8(&v(s)), s.parse::<u8>().ok(), "{}", s);
    }
}

#[test]
fn u64_parsing_follows_std() {
    for s in ["18446744073709551615", "18446744073709551616", "0", "+42", "", "-3", "4.5", "99999999999999999999999"] {
        assert_eq!(parse_u64(&v(s)), s.parse::<u64>().ok(), "{}", s);
    }
}

#[test]
fn decimal_rendering_matches_to_string() {
    for n in [0u64, 7, 10, 1234567890, u64::MAX] {
        assert_eq!(decimal_digits(n), v(&n.to_string()));
    }
}

#[test]
fn char_helpers() {
    assert_eq!(chars_of("héllo"), v("héllo"));
    assert_eq!(lower_all(&v("LoD_3 É")), v("lod_3 É"));
    assert!(starts_with(&v("palette:lush"), &v("palette:")));
    assert!(!starts_with(&v("pal"), &v("palette:")));
    assert!(contains(&v("big_tower_2"), &v("tower")));
    assert!(contains(&v("x"), &v("")));
    assert!(!contains(&v("tow"), &v("tower")));
}
