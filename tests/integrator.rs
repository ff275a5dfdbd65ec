use raytrace::integrator::{advance, start, Outcome, Step};

#[test]
fn no_depth_left_is_black() {
    assert_eq!(start(0), Step::Black);
}

#[test]
fn depth_left_traces() {
    assert_eq!(start(1), Step::Trace { depth: 1 });
    assert_eq!(start(50), Step::Trace { depth: 50 });
}

#[test]
fn miss_shows_background() {
    assert_eq!(advance(1, Outcome::Miss), Step::Background);
    assert_eq!(advance(50, Outcome::Miss), Step::Background);
}

#[test]
fn absorbed_ray_is_black() {
    assert_eq!(advance(7, Outcome::Absorbed), Step::Black);
}

#[test]
fn scattered_ray_loses_one_bounce() {
    assert_eq!(advance(7, Outcome::Scattered), Step::Trace { depth: 6 });
    assert_eq!(advance(1, Outcome::Scattered), Step::Black);
}

#[test]
fn mirrors_end_after_the_budget() {
    let mut step = start(5);
    let mut queries = 0;
    while let Step::Trace { depth } = step {
        queries += 1;
        step = advance(depth, Outcome::Scattered);
    }
    assert_eq!(queries, 5);
    assert_eq!(step, Step::Black);
}
