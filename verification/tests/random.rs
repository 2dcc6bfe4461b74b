use rebound_rs::{rand_r, reb_hash, reb_tools_rand_seed_from, REB_RAND_MAX};

fn lcg(seed: u32) -> u32 {
    seed.wrapping_mul(1103515245).wrapping_add(12345)
}

#[test]
fn rand_r_seed_one_matches_glibc() {
    let mut seed: u32 = 1;
    assert_eq!(rand_r(&mut seed), 476707713);
    assert_eq!(seed, 662824084);
}

#[test]
fn rand_r_seed_zero() {
    let mut seed: u32 = 0;
    assert_eq!(rand_r(&mut seed), 1012484);
    assert_eq!(seed, 2802067423);
}

#[test]
fn rand_r_sequence_from_42() {
    let mut seed: u32 = 42;
    assert_eq!(rand_r(&mut seed), 681191333);
    assert_eq!(rand_r(&mut seed), 928546885);
    assert_eq!(rand_r(&mut seed), 1457394273);
    assert_eq!(seed, 1314989459);
}

#[test]
fn rand_r_largest_seed_wraps() {
    let mut seed: u32 = u32::MAX;
    assert_eq!(rand_r(&mut seed), 1670702726);
    assert_eq!(seed, 646343466);
}

#[test]
fn rand_r_advances_the_seed_three_steps_and_stays_in_range() {
    let mut seed: u32 = 123456789;
    for _ in 0..10000 {
        let before = seed;
        let value = rand_r(&mut seed);
        assert!(value >= 0 && value <= REB_RAND_MAX);
        assert_eq!(seed, lcg(lcg(lcg(before))));
    }
}

#[test]
fn rand_r_same_seed_same_value() {
    let mut a: u32 = 777;
    let mut b: u32 = 777;
    assert_eq!(rand_r(&mut a), rand_r(&mut b));
    assert_eq!(a, b);
}

#[test]
fn reb_hash_of_empty_string_is_5381() {
    assert_eq!(reb_hash(""), 5381);
}

#[test]
fn reb_hash_known_values() {
    assert_eq!(reb_hash("a"), 177670);
    assert_eq!(reb_hash("hello"), 261238937);
    assert_eq!(reb_hash("whfast"), 621311634);
    assert_eq!(reb_hash("ias15"), 262286728);
}

#[test]
fn reb_hash_wraps_on_long_strings() {
    assert_eq!(reb_hash("The quick brown fox jumps over the lazy dog"), 885799134);
}

#[test]
fn reb_hash_uses_utf8_bytes() {
    assert_eq!(reb_hash("é"), 5866513);
}

#[test]
fn reb_hash_extends_by_one_byte() {
    let h = reb_hash("abc");
    assert_eq!(reb_hash("abcd"), h.wrapping_mul(33).wrapping_add(b'd' as u32));
}

#[test]
fn rand_seed_from_adds_and_wraps() {
    assert_eq!(reb_tools_rand_seed_from(500000, 1234), 501234);
    assert_eq!(reb_tools_rand_seed_from(u32::MAX, 2), 1);
}

#[test]
fn particle_counts_match_only_when_equal() {
    let mut a = rebound_rs::reb_simulation::new(0);
    let mut b = rebound_rs::reb_simulation::new(0);
    a.N = 3;
    b.N = 3;
    assert_eq!(rebound_rs::reb_simulation_particle_counts_match(&a, &b), 0);
    b.N = 4;
    assert_eq!(rebound_rs::reb_simulation_particle_counts_match(&a, &b), -1);
}
