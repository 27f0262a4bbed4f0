use planet_surface::hashing::{hash3_u32, hash_kind, hash_u32, next_seed, Lcg, FNV_OFFSET, SEED_SALT};

#[test]
fn lattice_hashes_match_the_mixer() {
    assert_eq!(hash_u32(0, 0, 0), 0);
    assert_eq!(hash_u32(42, 1, -1), 1977806575);
    assert_eq!(hash3_u32(7, 1, 2, 3), 1879383582);
    assert_eq!(hash3_u32(0, -5, 0, 9), 2920302830);
}

#[test]
fn reroll_with_the_same_time_twice_restores_the_seed() {
    let s = 123_456_789u64;
    let t = 987_654_321_000u64;
    let once = next_seed(s, t);
    assert_eq!(once, s ^ t ^ SEED_SALT);
    assert_eq!(next_seed(once, t), s);
}

#[test]
fn fnv_hash_of_prop_kinds() {
    assert_eq!(hash_kind(b""), FNV_OFFSET);
    assert_eq!(hash_kind(b"rock"), 974867124);
    assert_eq!(hash_kind("Crystal".as_bytes()), 112414825);
}

#[test]
fn lcg_steps_and_returns_high_bits() {
    let mut g = Lcg::new(5);
    assert_eq!(g.next_u32(), 3113862370);
    assert_eq!(g.state, 13373937045524413410);
}
