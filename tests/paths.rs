use pathtracer::integrator::{Bounce, Path, Step, MAX_DEPTH, SINGLE_SHOT_SAMPLES};

#[test]
fn primary_vertex_is_at_depth_zero() {
    let p = Path::primary();
    assert_eq!(p.depth(), 0);
    assert!(!p.exhausted());
}

#[test]
fn each_bounce_gives_its_step() {
    let p = Path::primary();
    assert_eq!(p.step(Bounce::Absorbed), Step::Black);
    assert_eq!(p.step(Bounce::Escaped), Step::Background);
    assert_eq!(p.step(Bounce::Hit), Step::Continue(Path { depth: 1 }));
}

#[test]
fn mirrors_facing_each_other_stop_at_the_bound() {
    let mut p = Path::primary();
    let mut scatterings = 0u32;
    loop {
        match p.step(Bounce::Hit) {
            Step::Continue(q) => {
                scatterings += 1;
                p = q;
            }
            Step::Ambient => break,
            other => panic!("unexpected step {:?}", other),
        }
        assert!(scatterings <= 1000);
    }
    assert_eq!(scatterings, 32);
    assert_eq!(p.depth(), MAX_DEPTH);
    assert!(p.exhausted());
}

#[test]
fn exhausted_vertex_takes_the_ambient_term() {
    let p = Path { depth: MAX_DEPTH };
    assert_eq!(p.step(Bounce::Hit), Step::Ambient);
    assert_eq!(p.step(Bounce::Absorbed), Step::Ambient);
}

#[test]
fn bounds_are_small() {
    assert_eq!(MAX_DEPTH, 32);
    assert_eq!(SINGLE_SHOT_SAMPLES, 32);
}
