use minecraft_world::noise::NoiseGenerator;

#[test]
fn same_seed_gives_same_draw_sequence() {
    let mut a = NoiseGenerator::new(987654321);
    let mut b = NoiseGenerator::new(987654321);
    for _ in 0..100 {
        assert_eq!(a.random_int(-50, 50), b.random_int(-50, 50));
    }
}

#[test]
fn random_int_stays_in_the_inclusive_range() {
    let mut g = NoiseGenerator::new(-3);
    for _ in 0..200 {
        let v = g.random_int(4, 6);
        assert!(v >= 4 && v <= 6);
    }
    assert_eq!(g.random_int(9, 9), 9);
}

#[test]
fn random_bool_follows_certain_probabilities() {
    let mut g = NoiseGenerator::new(11);
    for _ in 0..50 {
        assert!(!g.random_bool(0));
        assert!(g.random_bool(1000));
    }
}

#[test]
fn random_milli_is_a_fraction_in_thousandths() {
    let mut g = NoiseGenerator::new(5);
    for _ in 0..200 {
        assert!(g.random_milli() < 1000);
    }
}

#[test]
fn coherent_noise_is_deterministic_and_bounded() {
    let a = NoiseGenerator::new(77);
    let b = NoiseGenerator::new(77);
    for i in 0..50i64 {
        let x = i * 137 - 3000;
        let z = i * 59 + 400;
        let va = a.noise_2d(x, z);
        assert_eq!(va, b.noise_2d(x, z));
        assert!(va >= -1000 && va <= 1000);
        let v3 = a.noise_3d(x, z, x - z);
        assert_eq!(v3, b.noise_3d(x, z, x - z));
        assert!(v3 >= -1000 && v3 <= 1000);
        let vf = a.fbm_2d(x, z);
        assert_eq!(vf, b.fbm_2d(x, z));
        assert!(vf >= -1000 && vf <= 1000);
        let vf3 = a.fbm_3d(x, z, z - x);
        assert_eq!(vf3, b.fbm_3d(x, z, z - x));
        assert!(vf3 >= -1000 && vf3 <= 1000);
    }
}

#[test]
fn different_seeds_give_different_fields() {
    let a = NoiseGenerator::new(1);
    let b = NoiseGenerator::new(2);
    let mut same = 0;
    for i in 0..40i64 {
        if a.noise_2d(i * 997, i * 313) == b.noise_2d(i * 997, i * 313) {
            same += 1;
        }
    }
    assert!(same < 40);
}

#[test]
fn heightmap_shape_and_bounds() {
    let g = NoiseGenerator::new(4242);
    let hm = g.generate_heightmap(3, -7, 1000);
    assert_eq!(hm.len(), 256);
    for &h in hm.iter() {
        assert!(h >= 64 && h <= 124);
    }
    let again = g.generate_heightmap(3, -7, 1000);
    assert_eq!(hm, again);
}

#[test]
fn cave_noise_shape_and_bounds() {
    let g = NoiseGenerator::new(4242);
    let grid = g.generate_3d_noise(0, 5, 0, 1000);
    assert_eq!(grid.len(), 4096);
    for &v in grid.iter() {
        assert!(v >= -1000 && v <= 1000);
    }
}

#[test]
fn generator_records_its_seed() {
    let g = NoiseGenerator::new(-12345);
    assert_eq!(g.seed, -12345);
}
