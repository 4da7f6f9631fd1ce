use pathtracer::accumulation::Accumulation;
use pathtracer::integrator::SINGLE_SHOT_SAMPLES;

#[test]
fn new_buffer_is_empty() {
    let a = Accumulation::new(640, 480);
    assert_eq!(a.width(), 640);
    assert_eq!(a.height(), 480);
    assert_eq!(a.samples(), 0);
    assert_eq!(a.pixel_count(), 307_200);
}

#[test]
fn largest_buffer_counts_its_pixels() {
    let a = Accumulation::new(u32::MAX, u32::MAX);
    assert_eq!(a.pixel_count(), 0xffff_fffe_0000_0001);
    assert_eq!(a.pixel_index(u32::MAX - 1, u32::MAX - 1), 0xffff_fffe_0000_0000);
}

#[test]
fn pixels_are_row_major() {
    let a = Accumulation::new(4, 3);
    assert_eq!(a.pixel_index(0, 0), 0);
    assert_eq!(a.pixel_index(3, 0), 3);
    assert_eq!(a.pixel_index(0, 1), 4);
    assert_eq!(a.pixel_index(3, 2), 11);
}

#[test]
fn batches_add_samples_and_set_weights() {
    let mut a = Accumulation::new(2, 2);
    assert_eq!(a.blend_weights(), (0, 32));
    a.record_batch();
    assert_eq!(a.samples(), SINGLE_SHOT_SAMPLES);
    assert_eq!(a.blend_weights(), (32, 64));
    a.record_batch();
    assert_eq!(a.blend_weights(), (64, 96));
}

#[test]
fn resize_discards_samples() {
    let mut a = Accumulation::new(2, 2);
    a.record_batch();
    a.resize(8, 5);
    assert_eq!((a.width(), a.height(), a.samples()), (8, 5, 0));
}

#[test]
fn reset_keeps_resolution() {
    let mut a = Accumulation::new(3, 7);
    a.record_batch();
    a.reset();
    assert_eq!((a.width(), a.height(), a.samples()), (3, 7, 0));
}

#[test]
fn pixel_seeds_differ_per_pixel_and_batch() {
    let mut a = Accumulation::new(3, 2);
    assert_eq!(a.pixel_seed(2, 1), (0, 5));
    assert_eq!(a.pixel_seed(0, 1), (0, 3));
    a.record_batch();
    assert_eq!(a.pixel_seed(2, 1), (32, 5));
    let mut streams: Vec<u128> = Vec::new();
    for y in 0..2 {
        for x in 0..3 {
            streams.push(a.pixel_seed(x, y).1);
        }
    }
    streams.sort();
    streams.dedup();
    assert_eq!(streams.len(), 6);
}

fn blend(old: f64, batch: f64, w: (u64, u64)) -> f64 {
    old * (w.0 as f64 / w.1 as f64) + batch * ((w.1 - w.0) as f64 / w.1 as f64)
}

#[test]
fn progressive_batches_match_one_large_batch() {
    // a fixed stream of samples, as from a seeded emissive + diffuse scene
    let samples: Vec<f64> = (0..4 * 32).map(|i| ((i * 37 % 101) as f64) / 100.0).collect();
    let mut a = Accumulation::new(1, 1);
    let mut value = 0.0;
    for batch in samples.chunks(32) {
        let avg = batch.iter().sum::<f64>() / batch.len() as f64;
        value = blend(value, avg, a.blend_weights());
        a.record_batch();
    }
    let mean = samples.iter().sum::<f64>() / samples.len() as f64;
    assert_eq!(a.samples(), 128);
    assert!((value - mean).abs() < 1e-12, "{} vs {}", value, mean);
}
