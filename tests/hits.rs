use pathtracer::hit::{distance_key, nearest_hit};

fn key(d: f32) -> u32 {
    distance_key(d.to_bits())
}

#[test]
fn keys_order_as_distances() {
    let ds = [-3.5f32, -1.0, -0.0, 0.0, 1e-6, 0.5, 1.0, 4.0, 6.0, 1e30];
    for w in ds.windows(2) {
        assert!(key(w[0]) < key(w[1]), "{} before {}", w[0], w[1]);
    }
}

#[test]
fn key_of_one_is_exact() {
    // 1.0 is 0x3f80_0000; non-negative patterns move above the negative ones.
    assert_eq!(key(1.0), 0xbf80_0000);
    assert_eq!(key(-1.0), 0x407f_ffff);
}

#[test]
fn nearest_of_two_overlapping_spheres() {
    // spheres of radius 1 at z = -5 and z = -6, seen from the origin along -z
    let candidates = vec![Some(key(5.0)), Some(key(4.0))];
    assert_eq!(nearest_hit(&candidates), Some(1));
    let candidates = vec![Some(key(4.0)), Some(key(5.0))];
    assert_eq!(nearest_hit(&candidates), Some(0));
}

#[test]
fn nearest_skips_misses() {
    let candidates = vec![None, Some(key(7.25)), None, Some(key(3.0)), None];
    assert_eq!(nearest_hit(&candidates), Some(3));
}

#[test]
fn nearest_of_no_hits_is_none() {
    assert_eq!(nearest_hit(&vec![None, None]), None);
    assert_eq!(nearest_hit(&Vec::new()), None);
}

#[test]
fn nearest_tie_goes_to_first() {
    let candidates = vec![None, Some(key(2.0)), Some(key(2.0)), Some(key(9.0))];
    assert_eq!(nearest_hit(&candidates), Some(1));
}
