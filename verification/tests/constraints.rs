use newton_core::constraints::box_bounds::BoxBounds;
use newton_core::constraints::collision::CollisionConstraint;
use newton_core::constraints::discrete::DiscreteConstraint;
use newton_core::constraints::linear::LinearConstraint;
use newton_core::constraints::{
    all_convex, all_satisfied, max_violation, Constraint, ConstraintProfile, ConstraintRef,
};
use newton_core::linalg::Vector;
use newton_core::primitives::Bounds;
use newton_core::projection::relaxation::{
    convex_positions, convex_relaxation, count_nonconvex, is_all_convex,
};

fn v(xs: &[f64]) -> Vector {
    let bits: Vec<u64> = xs.iter().map(|x| x.to_bits()).collect();
    Vector::from_slice(&bits)
}

fn b(xs: &[f64]) -> Vec<u64> {
    xs.iter().map(|x| x.to_bits()).collect()
}

fn f(v: &Vector) -> Vec<f64> {
    v.as_slice().iter().map(|b| f64::from_bits(*b)).collect()
}

fn rows(points: &[Vector]) -> Vec<Vec<f64>> {
    points.iter().map(f).collect()
}

/// A small deterministic generator of test values.
struct Lcg(u64);

impl Lcg {
    fn next(&mut self) -> f64 {
        self.0 = self.0.wrapping_mul(6364136223846793005).wrapping_add(1442695040888963407);
        ((self.0 >> 11) as f64) / ((1u64 << 53) as f64)
    }

    fn between(&mut self, lo: f64, hi: f64) -> f64 {
        lo + self.next() * (hi - lo)
    }
}

fn random_box(rng: &mut Lcg, dim: usize) -> (Vec<f64>, Vec<f64>) {
    let min: Vec<f64> = (0..dim).map(|_| rng.between(-100.0, 0.0)).collect();
    let max: Vec<f64> = (0..dim).map(|_| rng.between(0.0, 100.0)).collect();
    (min, max)
}

#[test]
fn box_projection_clamps_each_coordinate() {
    let bounds = BoxBounds::new(v(&[0.0, 0.0]), v(&[100.0, 100.0]));
    assert_eq!(bounds.project(&v(&[50.0, 50.0])), v(&[50.0, 50.0]));
    assert_eq!(bounds.project(&v(&[150.0, 50.0])), v(&[100.0, 50.0]));
    assert_eq!(bounds.project(&v(&[150.0, 150.0])), v(&[100.0, 100.0]));
    assert_eq!(bounds.project(&v(&[-3.0, 100.5])), v(&[0.0, 100.0]));
    assert_eq!(bounds.project(&v(&[-0.0, 7.0])), v(&[-0.0, 7.0]));
    assert!(bounds.project(&v(&[f64::NAN, 7.0])).has_nan());
}

#[test]
fn box_accessors() {
    let bounds = BoxBounds::new(v(&[0.0, 1.0, 2.0]), v(&[3.0, 4.0, 5.0]));
    assert_eq!(bounds.min(), &v(&[0.0, 1.0, 2.0]));
    assert_eq!(bounds.max(), &v(&[3.0, 4.0, 5.0]));
    assert_eq!(bounds.dimension(), 3);
    assert_eq!(bounds.dim(), 3);
    assert!(bounds.is_convex());
    assert!(bounds.encloses(&v(&[3.0, 1.0, 2.5])));
    assert!(!bounds.encloses(&v(&[3.5, 1.0, 2.5])));
}

#[test]
fn unit_cube_and_centered_boxes() {
    let cube = BoxBounds::unit_cube(3);
    assert_eq!(cube.min(), &v(&[0.0, 0.0, 0.0]));
    assert_eq!(cube.max(), &v(&[1.0, 1.0, 1.0]));
    let centered = BoxBounds::centered(v(&[2.0, 0.0, 5.5]));
    assert_eq!(centered.min(), &v(&[-2.0, -0.0, -5.5]));
    assert_eq!(centered.max(), &v(&[2.0, 0.0, 5.5]));
}

#[test]
fn projection_lands_in_the_box_on_many_points() {
    let mut rng = Lcg(1);
    for case in 0..5000 {
        let dim = 2 + case % 6;
        let (min, max) = random_box(&mut rng, dim);
        let point: Vec<f64> = (0..dim).map(|_| rng.between(-1000.0, 1000.0)).collect();
        let bounds = BoxBounds::new(v(&min), v(&max));
        let projected = bounds.project(&v(&point));
        assert!(bounds.encloses(&projected), "{point:?} in [{min:?}, {max:?}]");
        for (i, x) in f(&projected).iter().enumerate() {
            assert!(min[i] <= *x && *x <= max[i]);
        }
    }
}

#[test]
fn projection_is_nearest_in_every_coordinate_and_in_distance() {
    let mut rng = Lcg(2);
    for case in 0..2000 {
        let dim = 2 + case % 4;
        let (min, max) = random_box(&mut rng, dim);
        let point: Vec<f64> = (0..dim).map(|_| rng.between(-1000.0, 1000.0)).collect();
        let bounds = BoxBounds::new(v(&min), v(&max));
        let projected = f(&bounds.project(&v(&point)));
        let to_projection: f64 =
            (0..dim).map(|i| (point[i] - projected[i]).powi(2)).sum::<f64>().sqrt();
        for _ in 0..10 {
            let sample: Vec<f64> =
                (0..dim).map(|i| min[i] + rng.next() * (max[i] - min[i])).collect();
            for i in 0..dim {
                let (p, m, s) = (point[i], projected[i], sample[i]);
                assert!((p <= m && m <= s) || (s <= m && m <= p));
            }
            let to_sample: f64 =
                (0..dim).map(|i| (point[i] - sample[i]).powi(2)).sum::<f64>().sqrt();
            assert!(to_projection <= to_sample + 1e-8);
        }
    }
}

#[test]
fn projecting_twice_changes_no_bit() {
    let mut rng = Lcg(3);
    for case in 0..5000 {
        let dim = 2 + case % 6;
        let (min, max) = random_box(&mut rng, dim);
        let point: Vec<f64> = (0..dim).map(|_| rng.between(-1000.0, 1000.0)).collect();
        let bounds = BoxBounds::new(v(&min), v(&max));
        let once = bounds.project(&v(&point));
        let twice = bounds.project(&once);
        assert!(once.same_bits(&twice));
    }
}

#[test]
fn points_of_the_box_stay_where_they_are() {
    let mut rng = Lcg(4);
    for case in 0..5000 {
        let dim = 2 + case % 6;
        let (min, max) = random_box(&mut rng, dim);
        let inside: Vec<f64> =
            (0..dim).map(|i| min[i] + rng.between(0.1, 0.9) * (max[i] - min[i])).collect();
        let bounds = BoxBounds::new(v(&min), v(&max));
        assert!(bounds.project(&v(&inside)).same_bits(&v(&inside)));
        assert!(bounds.project(&v(&min)).same_bits(&v(&min)));
        assert!(bounds.project(&v(&max)).same_bits(&v(&max)));
    }
}

#[test]
fn repeated_projection_gives_identical_bits() {
    let mut rng = Lcg(5);
    for case in 0..2000 {
        let dim = 2 + case % 6;
        let (min, max) = random_box(&mut rng, dim);
        let point: Vec<f64> = (0..dim).map(|_| rng.between(-1000.0, 1000.0)).collect();
        let first = BoxBounds::new(v(&min), v(&max)).project(&v(&point));
        let second = BoxBounds::new(v(&min), v(&max)).project(&v(&point));
        assert_eq!(first.as_slice(), second.as_slice());
    }
}

#[test]
fn walking_the_dimensions_backwards_gives_the_same_projection() {
    let mut rng = Lcg(6);
    for case in 0..5000 {
        let dim = 2 + case % 6;
        let (min, max) = random_box(&mut rng, dim);
        let point: Vec<f64> = (0..dim).map(|_| rng.between(-1000.0, 1000.0)).collect();
        let forward = BoxBounds::new(v(&min), v(&max)).project(&v(&point));
        let backward = BoxBounds::new_reversed(v(&min), v(&max)).project(&v(&point));
        assert!(forward.same_bits(&backward));
    }
    let forward = BoxBounds::new(v(&[0.0, 0.0, 0.0]), v(&[100.0, 100.0, 100.0]));
    let backward = BoxBounds::new_reversed(v(&[0.0, 0.0, 0.0]), v(&[100.0, 100.0, 100.0]));
    let point = v(&[150.0, -50.0, 200.0]);
    assert_eq!(forward.project(&point), v(&[100.0, 0.0, 100.0]));
    assert_eq!(backward.project(&point), v(&[100.0, 0.0, 100.0]));
}

#[test]
fn halfspace_constructors() {
    let upper = LinearConstraint::upper_bound(0, 2, 10.0f64.to_bits());
    assert_eq!(upper.normal(), &v(&[1.0, 0.0]));
    assert_eq!(f64::from_bits(upper.bound()), 10.0);
    assert_eq!(f64::from_bits(upper.normal_norm_sq()), 1.0);
    let lower = LinearConstraint::lower_bound(1, 2, 3.0f64.to_bits());
    assert_eq!(lower.normal(), &v(&[-0.0, -1.0]));
    assert_eq!(f64::from_bits(lower.bound()), -3.0);
    assert_eq!(f64::from_bits(lower.normal_norm_sq()), 1.0);
    let outside = LinearConstraint::upper_bound(5, 2, 1.0f64.to_bits());
    assert_eq!(outside.normal(), &v(&[0.0, 0.0]));
    assert!(outside.is_degenerate());
    let (le, ge) =
        LinearConstraint::equality(v(&[1.0, -2.0]), 4.0f64.to_bits(), 5.0f64.to_bits());
    assert_eq!(le.normal(), &v(&[1.0, -2.0]));
    assert_eq!(ge.normal(), &v(&[-1.0, 2.0]));
    assert_eq!(f64::from_bits(le.bound()), 4.0);
    assert_eq!(f64::from_bits(ge.bound()), -4.0);
    assert_eq!(f64::from_bits(ge.normal_norm_sq()), 5.0);
    assert!(le.is_convex());
    assert_eq!(le.dim(), 2);
}

#[test]
fn halfspace_is_satisfied_up_to_epsilon() {
    let c = LinearConstraint::new(v(&[1.0, 0.0]), 5.0f64.to_bits(), 1.0f64.to_bits());
    assert!(c.satisfied((-2.0f64).to_bits()));
    assert!(c.satisfied(0.0f64.to_bits()));
    assert!(c.satisfied(1e-10f64.to_bits()));
    assert!(!c.satisfied(1.1e-10f64.to_bits()));
    assert!(!c.satisfied(1.0f64.to_bits()));
    assert!(!c.satisfied(f64::NAN.to_bits()));
}

#[test]
fn degenerate_halfspace_is_vacuous() {
    let open = LinearConstraint::new(v(&[1e-15, 0.0]), 100.0f64.to_bits(), 1e-30f64.to_bits());
    assert!(open.is_degenerate());
    assert!(open.satisfied(1e9f64.to_bits()));
    assert_eq!(f64::from_bits(open.distance(3.0f64.to_bits())), f64::NEG_INFINITY);
    let zero = LinearConstraint::new(v(&[0.0, 0.0]), 0.0f64.to_bits(), 0.0f64.to_bits());
    assert!(zero.satisfied(1e9f64.to_bits()));
    let closed = LinearConstraint::new(v(&[0.0, 0.0]), (-1.0f64).to_bits(), 0.0f64.to_bits());
    assert!(!closed.satisfied((-1e9f64).to_bits()));
    assert_eq!(f64::from_bits(closed.distance(3.0f64.to_bits())), f64::INFINITY);
    let point = v(&[1000.0, 1000.0]);
    assert_eq!(open.project(&point, 1e9f64.to_bits(), &v(&[0.0, 0.0])), point);
    let proper = LinearConstraint::new(v(&[3.0, 4.0]), 1.0f64.to_bits(), 25.0f64.to_bits());
    assert!(!proper.is_degenerate());
    assert_eq!(f64::from_bits(proper.distance(3.0f64.to_bits())), 3.0);
}

#[test]
fn halfspace_projection_moves_only_violating_points() {
    let c = LinearConstraint::new(v(&[1.0, 0.0]), 5.0f64.to_bits(), 1.0f64.to_bits());
    let landing = v(&[5.0, 10.0]);
    assert_eq!(c.project(&v(&[8.0, 10.0]), 3.0f64.to_bits(), &landing), landing);
    assert_eq!(c.project(&v(&[3.0, 10.0]), (-2.0f64).to_bits(), &landing), v(&[3.0, 10.0]));
    assert_eq!(c.project(&v(&[5.0, 10.0]), 1e-10f64.to_bits(), &landing), v(&[5.0, 10.0]));
    assert_eq!(c.project(&v(&[5.1, 10.0]), 2e-10f64.to_bits(), &landing), landing);
}

fn obstacle() -> Bounds {
    Bounds::new(v(&[40.0, 40.0]), v(&[60.0, 60.0]))
}

#[test]
fn collision_effective_obstacle_depends_on_separation() {
    let wide = Bounds::new(v(&[35.0, 35.0]), v(&[65.0, 65.0]));
    let with = CollisionConstraint::new(obstacle(), 5.0f64.to_bits(), wide.copy());
    assert_eq!(with.effective(), &wide);
    assert_eq!(with.widened(), Some(&wide));
    assert_eq!(with.obstacle(), &obstacle());
    assert_eq!(f64::from_bits(with.separation()), 5.0);
    let without = CollisionConstraint::new(obstacle(), 0.0f64.to_bits(), wide.copy());
    assert_eq!(without.effective(), &obstacle());
    assert_eq!(without.widened(), None);
    let negative = CollisionConstraint::new(obstacle(), (-1.0f64).to_bits(), wide.copy());
    assert_eq!(negative.effective(), &obstacle());
    let nan = CollisionConstraint::new(obstacle(), f64::NAN.to_bits(), wide);
    assert_eq!(nan.effective(), &obstacle());
    assert!(!with.is_convex());
    assert_eq!(with.dim(), 2);
}

#[test]
fn the_escape_margin_is_a_hundred_epsilon() {
    assert_eq!(
        f64::from_bits(newton_core::constraints::collision::ESCAPE_MARGIN),
        1e-10 * 100.0
    );
}

#[test]
fn escape_candidates_in_two_dimensions() {
    let c = CollisionConstraint::new(obstacle(), 0.0f64.to_bits(), obstacle());
    let got = c.escape_candidates(&v(&[50.0, 45.0]), &v(&[39.0, 38.0]), &v(&[61.0, 62.0]));
    assert_eq!(
        rows(&got),
        vec![
            vec![39.0, 45.0],
            vec![61.0, 45.0],
            vec![50.0, 38.0],
            vec![50.0, 62.0],
            vec![39.0, 38.0],
            vec![39.0, 62.0],
            vec![61.0, 38.0],
            vec![61.0, 62.0],
        ]
    );
}

#[test]
fn escape_candidates_in_three_dimensions_have_no_corners() {
    let box3 = Bounds::new(v(&[0.0, 0.0, 0.0]), v(&[1.0, 1.0, 1.0]));
    let c = CollisionConstraint::new(box3.copy(), 0.0f64.to_bits(), box3);
    let got = c.escape_candidates(
        &v(&[0.5, 0.6, 0.7]),
        &v(&[-1.0, -2.0, -3.0]),
        &v(&[2.0, 3.0, 4.0]),
    );
    assert_eq!(
        rows(&got),
        vec![
            vec![-1.0, 0.6, 0.7],
            vec![2.0, 0.6, 0.7],
            vec![0.5, -2.0, 0.7],
            vec![0.5, 3.0, 0.7],
            vec![0.5, 0.6, -3.0],
            vec![0.5, 0.6, 4.0],
        ]
    );
}

#[test]
fn nearest_escape_takes_the_first_of_the_nearest() {
    assert_eq!(CollisionConstraint::nearest_escape(&b(&[10.0, 10.0, 5.0, 15.0])), Some(2));
    assert_eq!(CollisionConstraint::nearest_escape(&b(&[5.0, 10.0, 5.0, 15.0])), Some(0));
    assert_eq!(CollisionConstraint::nearest_escape(&b(&[f64::NAN, 10.0, 10.0])), Some(1));
    assert_eq!(CollisionConstraint::nearest_escape(&b(&[f64::INFINITY, f64::NAN])), None);
    assert_eq!(CollisionConstraint::nearest_escape(&[].to_vec()), None);
}

#[test]
fn collision_projection_pushes_through_the_nearest_face() {
    let c = CollisionConstraint::new(obstacle(), 0.0f64.to_bits(), obstacle());
    let point = v(&[50.0, 45.0]);
    let faces = c.escape_faces(&point, &v(&[39.0, 38.0]), &v(&[61.0, 62.0]));
    assert_eq!(faces.len(), 4);
    let distances = b(&[11.0, 11.0, 7.0, 17.0]);
    assert_eq!(c.project(&point, false, &faces, &distances), v(&[50.0, 38.0]));
    assert_eq!(c.project(&point, true, &faces, &distances), point);
    let none = b(&[f64::NAN, f64::NAN, f64::INFINITY, f64::NAN]);
    assert_eq!(c.project(&point, false, &faces, &none), point);
}

#[test]
fn penetration_is_the_least_gap_but_at_least_epsilon() {
    assert_eq!(f64::from_bits(CollisionConstraint::penetration(&b(&[10.0, 10.0, 5.0, 15.0]))), 5.0);
    assert_eq!(f64::from_bits(CollisionConstraint::penetration(&b(&[10.0, 0.0]))), 1e-10);
    assert_eq!(f64::from_bits(CollisionConstraint::penetration(&b(&[10.0, -3.0]))), 1e-10);
    assert_eq!(f64::from_bits(CollisionConstraint::penetration(&b(&[]))), f64::INFINITY);
    let gaps = b(&[10.0, 10.0, 5.0, 15.0]);
    assert_eq!(f64::from_bits(CollisionConstraint::distance(false, 3.0f64.to_bits(), &gaps)), 5.0);
    assert_eq!(f64::from_bits(CollisionConstraint::distance(true, 3.0f64.to_bits(), &gaps)), -3.0);
    let zero = CollisionConstraint::distance(true, 0.0f64.to_bits(), &gaps);
    assert_eq!(zero, (-0.0f64).to_bits());
}

#[test]
fn discrete_constraint_from_points_and_scalars() {
    let c = DiscreteConstraint::from_scalars(&b(&[0.0, 5.0, 10.0]));
    assert_eq!(rows(c.allowed()), vec![vec![0.0], vec![5.0], vec![10.0]]);
    assert_eq!(c.dim(), 1);
    assert!(!c.is_convex());
    let d = DiscreteConstraint::new(vec![v(&[0.0, 0.0]), v(&[10.0, 0.0])]);
    assert_eq!(d.dim(), 2);
    assert_eq!(rows(d.allowed()), vec![vec![0.0, 0.0], vec![10.0, 0.0]]);
}

#[test]
fn grid_is_the_product_of_its_axes_in_lexicographic_order() {
    let axes = vec![b(&[0.0, 10.0, 20.0]), b(&[1.0, 2.0])];
    let c = DiscreteConstraint::grid(2, &axes);
    assert_eq!(
        rows(c.allowed()),
        vec![
            vec![0.0, 1.0],
            vec![0.0, 2.0],
            vec![10.0, 1.0],
            vec![10.0, 2.0],
            vec![20.0, 1.0],
            vec![20.0, 2.0],
        ]
    );
    assert_eq!(c.dim(), 2);
    let empty = DiscreteConstraint::grid(2, &vec![b(&[0.0, 1.0]), b(&[])]);
    assert!(empty.allowed().is_empty());
    let none = DiscreteConstraint::grid(0, &Vec::new());
    assert_eq!(rows(none.allowed()), vec![Vec::<f64>::new()]);
}

#[test]
fn nearest_allowed_point_and_ties() {
    let c = DiscreteConstraint::from_scalars(&b(&[0.0, 5.0, 10.0]));
    assert_eq!(c.nearest_index(&b(&[2.0, 3.0, 8.0])), 0);
    assert_eq!(c.nearest_index(&b(&[3.0, 2.0, 7.0])), 1);
    assert_eq!(c.nearest_index(&b(&[8.0, 3.0, 2.0])), 2);
    assert_eq!(c.nearest_index(&b(&[2.5, 2.5, 7.5])), 0);
    assert_eq!(c.nearest_index(&b(&[7.5, 2.5, 2.5])), 1);
    assert_eq!(c.nearest_index(&b(&[f64::NAN, 2.5, 1.0])), 0);
    assert_eq!(c.nearest_index(&b(&[4.0, f64::NAN, 1.0])), 2);
    assert_eq!(c.nearest(&b(&[3.0, 2.0, 7.0])), &v(&[5.0]));
    assert_eq!(c.project(&b(&[8.0, 3.0, 2.0])), v(&[10.0]));
}

#[test]
fn discrete_satisfaction_and_distance() {
    let c = DiscreteConstraint::from_scalars(&b(&[0.0, 5.0, 10.0]));
    assert!(c.satisfied(&b(&[5.0, 0.0, 5.0])));
    assert!(c.satisfied(&b(&[5.0, 9e-9, 5.0])));
    assert!(!c.satisfied(&b(&[5.0, 1e-8, 5.0])));
    assert!(!c.satisfied(&b(&[3.0, 2.0, 7.0])));
    assert_eq!(f64::from_bits(c.distance(&b(&[3.0, 2.0, 7.0]))), 2.0);
    assert_eq!(f64::from_bits(c.distance(&b(&[5.0, 0.0, 5.0]))), f64::NEG_INFINITY);
    assert_eq!(f64::from_bits(c.distance(&b(&[5.0, 9e-11, 5.0]))), f64::NEG_INFINITY);
    assert_eq!(f64::from_bits(c.distance(&b(&[5.0, 1e-10, 5.0]))), 1e-10);
}

fn mixed() -> Vec<ConstraintRef> {
    let wide = Bounds::new(v(&[35.0, 35.0]), v(&[65.0, 65.0]));
    vec![
        ConstraintRef::Bounds(BoxBounds::new(v(&[0.0, 0.0]), v(&[100.0, 100.0]))),
        ConstraintRef::Collision(CollisionConstraint::new(obstacle(), 5.0f64.to_bits(), wide)),
        ConstraintRef::Halfspace(LinearConstraint::upper_bound(0, 2, 10.0f64.to_bits())),
        ConstraintRef::Discrete(DiscreteConstraint::new(vec![v(&[0.0, 0.0])])),
    ]
}

#[test]
fn closed_sum_dispatches_to_the_variant() {
    let all = mixed();
    let convex: Vec<bool> = all.iter().map(|c| c.is_convex()).collect();
    assert_eq!(convex, vec![true, false, true, false]);
    assert!(all.iter().all(|c| c.dim() == 2));
}

#[test]
fn relaxation_keeps_the_convex_constraints_in_order() {
    let all = mixed();
    assert!(!all_convex(&all));
    assert!(!is_all_convex(&all));
    assert_eq!(count_nonconvex(&all), 2);
    assert_eq!(convex_positions(&all), vec![0, 2]);
    let relaxed = convex_relaxation(&all);
    assert_eq!(relaxed.len(), 2);
    assert!(matches!(relaxed[0], ConstraintRef::Bounds(_)));
    assert!(matches!(relaxed[1], ConstraintRef::Halfspace(_)));
    let convex_only = vec![all[0].clone(), all[2].clone()];
    assert!(all_convex(&convex_only));
    assert!(is_all_convex(&convex_only));
    assert_eq!(count_nonconvex(&convex_only), 0);
    assert_eq!(convex_relaxation(&convex_only).len(), 2);
    let none: Vec<ConstraintRef> = Vec::new();
    assert!(all_convex(&none));
    assert!(convex_relaxation(&none).is_empty());
}

#[test]
fn profiles_stand_for_constraints_of_any_kind() {
    let list = vec![
        ConstraintProfile { convex: false, dim: 3 },
        ConstraintProfile { convex: true, dim: 3 },
        ConstraintProfile { convex: false, dim: 3 },
    ];
    assert_eq!(convex_positions(&list), vec![1]);
    assert_eq!(count_nonconvex(&list), 2);
    assert!(!all_convex(&list));
    assert_eq!(list[0].dim(), 3);
}

#[test]
fn checks_over_answers() {
    assert!(all_satisfied(&vec![true, true, true]));
    assert!(!all_satisfied(&vec![true, false, true]));
    assert!(all_satisfied(&Vec::new()));
    assert_eq!(f64::from_bits(max_violation(&b(&[-3.0, 2.0, 0.5]))), 2.0);
    assert_eq!(f64::from_bits(max_violation(&b(&[-3.0, -1.0]))), 0.0);
    assert_eq!(f64::from_bits(max_violation(&b(&[]))), 0.0);
    assert_eq!(f64::from_bits(max_violation(&b(&[f64::NAN, 1.5]))), 1.5);
    assert_eq!(f64::from_bits(max_violation(&b(&[f64::NEG_INFINITY, f64::INFINITY]))), f64::INFINITY);
}
