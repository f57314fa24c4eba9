use rascaline::error::Error;
use rascaline::refinement::SplineRefinement;
use rascaline::scalar::Real;
use rascaline::spline::{
    check_points, locate, Placement, SoapRadialIntegralSpline, SoapRadialIntegralSplineParameters,
    SplinePoint,
};
use rascaline::table::Table;

fn rl(x: f64) -> Real {
    Real::from_bits(x.to_bits())
}

fn as_float(x: Real) -> f64 {
    f64::from_bits(x.to_bits())
}

fn node(position: f64) -> SplinePoint {
    shaped_node(position, 2, 3)
}

fn shaped_node(position: f64, rows: usize, cols: usize) -> SplinePoint {
    SplinePoint {
        position: rl(position),
        values: Table::zeros(rows, cols).unwrap(),
        gradients: Table::zeros(rows, cols).unwrap(),
    }
}

fn nodes(positions: &[f64]) -> Vec<SplinePoint> {
    positions.iter().map(|&p| node(p)).collect()
}

fn spline_parameters() -> SoapRadialIntegralSplineParameters {
    SoapRadialIntegralSplineParameters { max_radial: 3, max_angular: 1, cutoff: rl(4.0) }
}

fn positions_of(points: &[SplinePoint]) -> Vec<f64> {
    points.iter().map(|p| as_float(p.position)).collect()
}

#[test]
fn points_are_checked() {
    assert_eq!(check_points(&nodes(&[0.0, 1.0, 2.0]), 2, 3), Ok(()));
    assert_eq!(check_points(&nodes(&[-1.0, 1.0]), 2, 3), Ok(()));
    assert_eq!(check_points(&nodes(&[]), 2, 3), Err(Error::TooFewPoints));
    assert_eq!(check_points(&nodes(&[1.0]), 2, 3), Err(Error::TooFewPoints));
    assert_eq!(check_points(&nodes(&[0.0, 1.0, 2.0]), 3, 3), Err(Error::PointShapeMismatch));
    assert_eq!(check_points(&nodes(&[0.0, 1.0, 2.0]), 2, 2), Err(Error::PointShapeMismatch));
    assert_eq!(check_points(&nodes(&[2.0, 1.0]), 3, 3), Err(Error::PointShapeMismatch));
    assert_eq!(check_points(&nodes(&[0.0, 2.0, 1.0]), 2, 3), Err(Error::PointsNotSorted));
    assert_eq!(check_points(&nodes(&[0.0, 1.0, 1.0]), 2, 3), Err(Error::PointsNotSorted));
    assert_eq!(check_points(&nodes(&[0.0, -0.0]), 2, 3), Err(Error::PointsNotSorted));
    assert_eq!(check_points(&nodes(&[0.0, f64::NAN, 2.0]), 2, 3), Err(Error::PointsNotSorted));
    assert_eq!(check_points(&nodes(&[f64::NAN, 1.0]), 2, 3), Err(Error::PointsNotSorted));
    assert_eq!(check_points(&nodes(&[0.0, f64::INFINITY]), 2, 3), Err(Error::PointsNotSorted));
    assert_eq!(check_points(&nodes(&[f64::NEG_INFINITY, 0.0]), 2, 3), Err(Error::PointsNotSorted));
    let mut mixed = nodes(&[0.0, 1.0, 2.0]);
    mixed[2].gradients = Table::zeros(2, 4).unwrap();
    assert_eq!(check_points(&mixed, 2, 3), Err(Error::PointShapeMismatch));
}

#[test]
fn distances_are_located_between_their_nodes() {
    let points = nodes(&[0.0, 0.5, 1.0, 2.0, 4.0]);
    assert_eq!(locate(&points, rl(0.0)), Placement::Within(0));
    assert_eq!(locate(&points, rl(-0.0)), Placement::Within(0));
    assert_eq!(locate(&points, rl(0.25)), Placement::Within(0));
    assert_eq!(locate(&points, rl(0.5)), Placement::Within(1));
    assert_eq!(locate(&points, rl(0.75)), Placement::Within(1));
    assert_eq!(locate(&points, rl(1.0)), Placement::Within(2));
    assert_eq!(locate(&points, rl(1.999)), Placement::Within(2));
    assert_eq!(locate(&points, rl(2.0)), Placement::Within(3));
    assert_eq!(locate(&points, rl(3.0)), Placement::Within(3));
    assert_eq!(locate(&points, rl(4.0)), Placement::Within(3));
    assert_eq!(locate(&points, rl(4.000001)), Placement::Above);
    assert_eq!(locate(&points, rl(f64::INFINITY)), Placement::Above);
    assert_eq!(locate(&points, rl(-1e-300)), Placement::Below);
    assert_eq!(locate(&points, rl(f64::NEG_INFINITY)), Placement::Below);
    assert_eq!(locate(&points, rl(f64::NAN)), Placement::Undefined);

    let two = nodes(&[1.0, 2.0]);
    assert_eq!(locate(&two, rl(1.0)), Placement::Within(0));
    assert_eq!(locate(&two, rl(1.5)), Placement::Within(0));
    assert_eq!(locate(&two, rl(2.0)), Placement::Within(0));
    assert_eq!(locate(&two, rl(0.5)), Placement::Below);
    assert_eq!(locate(&two, rl(2.5)), Placement::Above);
}

#[test]
fn locating_agrees_with_a_scan() {
    let positions: Vec<f64> = (0..37).map(|k| 0.1 * (k * k) as f64).collect();
    let points = nodes(&positions);
    for step in 0..1400 {
        let x = -1.0 + 0.1 * step as f64;
        let expected = if x < positions[0] {
            Placement::Below
        } else if x > positions[36] {
            Placement::Above
        } else {
            let mut k = 0;
            while k + 2 < positions.len() && positions[k + 1] <= x {
                k += 1;
            }
            Placement::Within(k)
        };
        assert_eq!(locate(&points, rl(x)), expected, "at {}", x);
    }
}

#[test]
fn tabulated_points_become_the_nodes() {
    let spline =
        SoapRadialIntegralSpline::from_tabulated(spline_parameters(), nodes(&[0.0, 1.0, 4.0]))
            .unwrap();
    assert_eq!(spline.len(), 3);
    assert_eq!(positions_of(spline.points()), vec![0.0, 1.0, 4.0]);
    assert_eq!(spline.parameters().max_radial, 3);
    assert_eq!(spline.parameters().max_angular, 1);
    assert_eq!(as_float(spline.parameters().cutoff), 4.0);
    assert_eq!(spline.locate(rl(0.5)), Placement::Within(0));
    assert_eq!(spline.locate(rl(1.0)), Placement::Within(1));
    assert_eq!(spline.locate(rl(4.0)), Placement::Within(1));
    assert_eq!(spline.locate(rl(5.0)), Placement::Above);
    assert_eq!(spline.locate(rl(-5.0)), Placement::Below);
    assert_eq!(spline.locate(rl(f64::NAN)), Placement::Undefined);

    let fault = |p: SoapRadialIntegralSplineParameters, points: Vec<SplinePoint>| {
        SoapRadialIntegralSpline::from_tabulated(p, points).err().unwrap()
    };
    assert_eq!(fault(spline_parameters(), nodes(&[0.0])), Error::TooFewPoints);
    assert_eq!(fault(spline_parameters(), nodes(&[1.0, 0.0])), Error::PointsNotSorted);
    assert_eq!(
        fault(spline_parameters(), vec![shaped_node(0.0, 2, 3), shaped_node(1.0, 3, 2)]),
        Error::PointShapeMismatch
    );
    let mut bad = spline_parameters();
    bad.max_radial = 0;
    assert_eq!(fault(bad, nodes(&[1.0, 0.0])), Error::ZeroMaxRadial);
    let mut bad = spline_parameters();
    bad.cutoff = rl(0.0);
    assert_eq!(fault(bad, nodes(&[0.0, 1.0])), Error::InvalidCutoff);
    let mut bad = spline_parameters();
    bad.max_angular = usize::MAX;
    assert_eq!(fault(bad, nodes(&[0.0, 1.0])), Error::TableTooLarge);
}

#[test]
fn refinement_halves_until_every_interval_passes() {
    // the error of an interval is its width: intervals narrower than 1.5 pass
    let mut refinement =
        SplineRefinement::start(spline_parameters(), rl(1.5), 10, nodes(&[0.0, 4.0])).unwrap();
    let mut reports = 0;
    while !refinement.is_finished() {
        let (left, right) = {
            let (a, b) = refinement.pending().unwrap();
            (as_float(a.position), as_float(b.position))
        };
        refinement.report(node((left + right) / 2.0), rl(right - left)).unwrap();
        reports += 1;
        assert!(reports < 100);
    }
    assert!(refinement.pending().is_none());
    assert_eq!(reports, 7);
    let spline = refinement.finish().unwrap();
    assert_eq!(positions_of(spline.points()), vec![0.0, 1.0, 2.0, 3.0, 4.0]);
}

#[test]
fn refinement_goes_deeper_only_where_needed() {
    // only intervals that touch zero are inaccurate, down to a width of 0.5
    let mut refinement =
        SplineRefinement::start(spline_parameters(), rl(1e-3), 10, nodes(&[0.0, 2.0, 4.0])).unwrap();
    while !refinement.is_finished() {
        let (left, right) = {
            let (a, b) = refinement.pending().unwrap();
            (as_float(a.position), as_float(b.position))
        };
        let error = if left == 0.0 && right - left > 0.5 { 1.0 } else { 1e-4 };
        refinement.report(node((left + right) / 2.0), rl(error)).unwrap();
    }
    let spline = refinement.finish().unwrap();
    assert_eq!(positions_of(spline.points()), vec![0.0, 0.5, 1.0, 2.0, 4.0]);
}

#[test]
fn refinement_fails_where_the_depth_is_used_up() {
    let mut refinement =
        SplineRefinement::start(spline_parameters(), rl(1e-3), 2, nodes(&[0.0, 4.0])).unwrap();
    assert_eq!(refinement.report(node(2.0), rl(1.0)), Ok(()));
    assert_eq!(refinement.report(node(1.0), rl(1.0)), Ok(()));
    assert_eq!(refinement.report(node(0.5), rl(1.0)), Err(Error::AccuracyNotReached));
    assert_eq!(refinement.report(node(0.5), rl(f64::NAN)), Err(Error::AccuracyNotReached));
    assert!(!refinement.is_finished());
    assert!(refinement.finish().is_none());

    let mut shallow =
        SplineRefinement::start(spline_parameters(), rl(1e-3), 0, nodes(&[0.0, 4.0])).unwrap();
    assert_eq!(shallow.report(node(2.0), rl(1.0)), Err(Error::AccuracyNotReached));
    assert_eq!(shallow.report(node(2.0), rl(1e-3)), Ok(()));
    assert!(shallow.is_finished());
    assert_eq!(shallow.report(node(2.0), rl(0.0)), Err(Error::Internal));
    assert_eq!(positions_of(shallow.finish().unwrap().points()), vec![0.0, 4.0]);
}

#[test]
fn refinement_rejects_what_is_no_midpoint() {
    let mut refinement =
        SplineRefinement::start(spline_parameters(), rl(1e-3), 5, nodes(&[0.0, 4.0])).unwrap();
    assert_eq!(refinement.report(node(0.0), rl(1.0)), Err(Error::PointsNotSorted));
    assert_eq!(refinement.report(node(4.0), rl(1.0)), Err(Error::PointsNotSorted));
    assert_eq!(refinement.report(node(5.0), rl(1.0)), Err(Error::PointsNotSorted));
    assert_eq!(refinement.report(node(f64::NAN), rl(1.0)), Err(Error::PointsNotSorted));
    assert_eq!(refinement.report(shaped_node(2.0, 3, 3), rl(1.0)), Err(Error::PointShapeMismatch));
    // nothing of that changed the refinement
    let (left, right) = refinement.pending().unwrap();
    assert_eq!((as_float(left.position), as_float(right.position)), (0.0, 4.0));
    // an interval that passes needs no valid midpoint
    assert_eq!(refinement.report(node(5.0), rl(1e-4)), Ok(()));
    assert!(refinement.is_finished());
}

#[test]
fn refinement_checks_its_start() {
    let fault = |p: SoapRadialIntegralSplineParameters, accuracy: f64, points: Vec<SplinePoint>| {
        SplineRefinement::start(p, rl(accuracy), 8, points).err().unwrap()
    };
    assert_eq!(fault(spline_parameters(), -1.0, nodes(&[0.0, 4.0])), Error::InvalidAccuracy);
    assert_eq!(fault(spline_parameters(), f64::NAN, nodes(&[0.0, 4.0])), Error::InvalidAccuracy);
    assert_eq!(fault(spline_parameters(), 1e-3, nodes(&[0.0])), Error::TooFewPoints);
    assert_eq!(fault(spline_parameters(), 1e-3, nodes(&[4.0, 0.0])), Error::PointsNotSorted);
    let mut bad = spline_parameters();
    bad.max_radial = 0;
    assert_eq!(fault(bad, -1.0, nodes(&[0.0])), Error::ZeroMaxRadial);
    assert!(SplineRefinement::start(spline_parameters(), rl(0.0), 8, nodes(&[0.0, 4.0])).is_ok());
}

/// Value and gradient of `R_n(r) = r^n exp(-r^2 / (2 s_n^2))` with
/// `s_n = 4 max(sqrt(n), 1) / 3`, the same for every angular order.
fn reference(n: usize, r: f64) -> (f64, f64) {
    let sigma = 4.0 * (n as f64).sqrt().max(1.0) / 3.0;
    let b = 0.5 / (sigma * sigma);
    let gaussian = (-b * r * r).exp();
    let power = n as i32;
    let rising = if n == 0 { 0.0 } else { n as f64 * r.powi(power - 1) };
    (r.powi(power) * gaussian, (rising - 2.0 * b * r.powi(power + 1)) * gaussian)
}

fn reference_node(position: f64) -> SplinePoint {
    let mut point = node(position);
    for l in 0..2 {
        for n in 0..3 {
            let (value, gradient) = reference(n, position);
            assert!(point.values.set(l, n, rl(value)));
            assert!(point.gradients.set(l, n, rl(gradient)));
        }
    }
    point
}

fn interpolate(left: &SplinePoint, right: &SplinePoint, x: f64, l: usize, n: usize) -> (f64, f64) {
    let x0 = as_float(left.position);
    let h = as_float(right.position) - x0;
    let t = (x - x0) / h;
    let (t2, t3) = (t * t, t * t * t);
    let v0 = as_float(left.values.get(l, n).unwrap());
    let v1 = as_float(right.values.get(l, n).unwrap());
    let g0 = as_float(left.gradients.get(l, n).unwrap());
    let g1 = as_float(right.gradients.get(l, n).unwrap());
    let value = (2.0 * t3 - 3.0 * t2 + 1.0) * v0
        + (t3 - 2.0 * t2 + t) * h * g0
        + (-2.0 * t3 + 3.0 * t2) * v1
        + (t3 - t2) * h * g1;
    let gradient = (6.0 * t2 - 6.0 * t) * (v0 - v1) / h
        + (3.0 * t2 - 4.0 * t + 1.0) * g0
        + (3.0 * t2 - 2.0 * t) * g1;
    (value, gradient)
}

fn evaluate(spline: &SoapRadialIntegralSpline, x: f64, l: usize, n: usize) -> (f64, f64) {
    match spline.locate(rl(x)) {
        Placement::Within(k) => interpolate(&spline.points()[k], &spline.points()[k + 1], x, l, n),
        other => panic!("{} is {:?}", x, other),
    }
}

fn refined(accuracy: f64) -> SoapRadialIntegralSpline {
    let start: Vec<SplinePoint> = (0..=10).map(|k| reference_node(4.0 * k as f64 / 10.0)).collect();
    let mut refinement =
        SplineRefinement::start(spline_parameters(), rl(accuracy), 16, start).unwrap();
    loop {
        let (middle, error) = match refinement.pending() {
            None => break,
            Some((left, right)) => {
                let x = 0.5 * (as_float(left.position) + as_float(right.position));
                let mut error: f64 = 0.0;
                for n in 0..3 {
                    error = error.max((interpolate(left, right, x, 0, n).0 - reference(n, x).0).abs());
                }
                (reference_node(x), error)
            }
        };
        refinement.report(middle, rl(error)).unwrap();
    }
    refinement.finish().unwrap()
}

#[test]
fn refined_spline_is_within_its_accuracy() {
    let accuracy = 1e-6;
    let spline = refined(accuracy);
    assert!(spline.len() > 11);
    assert_eq!(as_float(spline.points()[0].position), 0.0);
    assert_eq!(as_float(spline.points()[spline.len() - 1].position), 4.0);
    let mut state: u64 = 0x2545_f491_4f6c_dd1d;
    for _ in 0..1000 {
        state = state.wrapping_mul(6364136223846793005).wrapping_add(1442695040888963407);
        let x = 4.0 * ((state >> 11) as f64 / (1u64 << 53) as f64);
        for l in 0..2 {
            for n in 0..3 {
                let error = (evaluate(&spline, x, l, n).0 - reference(n, x).0).abs();
                assert!(error <= 2.0 * accuracy, "error {} at {} in ({}, {})", error, x, l, n);
            }
        }
    }
}

#[test]
fn coarser_accuracy_needs_fewer_nodes() {
    let fine = refined(1e-8);
    let coarse = refined(1e-3);
    assert!(coarse.len() < fine.len());
    assert!(coarse.len() >= 11);
}

#[test]
fn tabulated_spline_reproduces_what_it_was_sampled_from() {
    let points: Vec<SplinePoint> = (0..=200).map(|k| reference_node(0.02 * k as f64)).collect();
    let spline = SoapRadialIntegralSpline::from_tabulated(spline_parameters(), points).unwrap();
    assert_eq!(spline.len(), 201);
    for k in 0..=200 {
        let x = 0.02 * k as f64;
        for n in 0..3 {
            let (value, gradient) = evaluate(&spline, x, 1, n);
            assert!((value - reference(n, x).0).abs() < 1e-14);
            assert!((gradient - reference(n, x).1).abs() < 1e-12);
        }
    }
    for k in 0..200 {
        let x = 0.02 * k as f64 + 0.01;
        for n in 0..3 {
            let (value, gradient) = evaluate(&spline, x, 1, n);
            assert!((value - reference(n, x).0).abs() < 1e-8);
            assert!((gradient - reference(n, x).1).abs() < 1e-6);
        }
    }
}

#[test]
fn spline_gradient_matches_the_finite_difference() {
    let spline = refined(1e-8);
    let step = 1e-6;
    for x in [0.3, 1.1, 2.0, 3.7] {
        for n in 0..3 {
            let above = evaluate(&spline, x + step, 0, n).0;
            let below = evaluate(&spline, x - step, 0, n).0;
            let gradient = evaluate(&spline, x, 0, n).1;
            assert!(((above - below) / (2.0 * step) - gradient).abs() < 1e-5);
        }
    }
}
