use raymarch::march::{ray_march, Probe, MAX_STEPS};

const EPSILON: f32 = 0.00001;

fn norm(p: [f32; 3]) -> f32 {
    (p[0] * p[0] + p[1] * p[1] + p[2] * p[2]).sqrt()
}

fn along(origin: [f32; 3], dir: [f32; 3], t: f32) -> [f32; 3] {
    [origin[0] + dir[0] * t, origin[1] + dir[1] * t, origin[2] + dir[2] * t]
}

fn sphere_probe(radius: f32, origin: [f32; 3], dir: [f32; 3]) -> impl Fn(&f32) -> Probe<f32> {
    move |t: &f32| {
        let d = norm(along(origin, dir, *t)) - radius;
        if d < EPSILON {
            Probe::Surface
        } else {
            Probe::Advance(*t + d)
        }
    }
}

#[test]
fn ray_away_from_the_sphere_misses() {
    let k = 1.0 / 3f32.sqrt();
    let probe = sphere_probe(0.2, [10.0, 10.0, 10.0], [k, k, k]);
    assert_eq!(ray_march(MAX_STEPS, 0.0, probe), (MAX_STEPS, None));
}

#[test]
fn ray_through_the_centre_hits() {
    let origin = [0.0, 0.0, -2.0];
    let dir = [0.0, 0.0, 1.0];
    let (steps, hit) = ray_march(MAX_STEPS, 0.0, sphere_probe(0.5, origin, dir));
    assert!(steps < MAX_STEPS);
    let t = hit.unwrap();
    let p = along(origin, dir, t);
    assert!((norm(p) - 0.5).abs() < EPSILON);
    assert_eq!(steps, 1);
}

#[test]
fn start_on_the_surface_takes_no_step() {
    let (steps, hit) = ray_march(MAX_STEPS, 0.0, sphere_probe(1.0, [1.0, 0.0, 0.0], [1.0, 0.0, 0.0]));
    assert_eq!((steps, hit), (0, Some(0.0)));
}

#[test]
fn no_budget_means_a_miss() {
    let (steps, hit) = ray_march(0, 0.0, sphere_probe(1.0, [0.0, 0.0, 0.0], [1.0, 0.0, 0.0]));
    assert_eq!((steps, hit), (0, None));
}

#[test]
fn steps_never_exceed_the_budget() {
    for budget in [1usize, 2, 5, 64, 500] {
        let (steps, hit) = ray_march(budget, 0u64, |t: &u64| Probe::Advance(*t + 1));
        assert_eq!((steps, hit), (budget, None));
    }
}

#[test]
fn surface_is_met_at_the_first_position_that_reports_it() {
    let probe = |t: &u64| if *t >= 7 { Probe::Surface } else { Probe::Advance(*t + 2) };
    assert_eq!(ray_march(10, 0u64, probe), (4, Some(8)));
    assert_eq!(ray_march(4, 0u64, probe), (4, None));
    assert_eq!(ray_march(5, 0u64, probe), (4, Some(8)));
}
