use polars_splines::control::create_spline;
use polars_splines::method::{interpolator_from_name, valid_method_names, validate_call, Method, SplineError};
use polars_splines::ordinal::{ordinal_of_bits, ordinals_of_bits};
use polars_splines::request::SampleRequest;
use polars_splines::sampler::{catmull_rom_indices, is_ordered, locate, sample_spline, Cell};

fn keys(xs: &[f64]) -> Vec<i64> {
    ordinals_of_bits(&xs.iter().map(|v| v.to_bits()).collect())
}

/// The value a cell stands for, with the spline formulas written out for checking.
fn value_of(cell: Cell, method: Method, xs: &[f64], ys: &[f64], q: f64, fill: Option<f64>) -> Option<f64> {
    match cell {
        Cell::Missing => None,
        Cell::Fill => fill,
        Cell::Knot(j) => Some(ys[j]),
        Cell::Between(k) => {
            let t = (q - xs[k]) / (xs[k + 1] - xs[k]);
            let e = match method {
                Method::Linear => t,
                Method::Cosine => (1.0 - (t * std::f64::consts::PI).cos()) / 2.0,
                Method::CatmullRom => panic!("not used in these checks"),
            };
            Some(ys[k] + e * (ys[k + 1] - ys[k]))
        }
    }
}

#[test]
fn scenario_linear() {
    let xs = [0.0, 1.0, 2.0];
    let ys = [0.0, 10.0, 20.0];
    let xi = [0.0, 0.5, 1.0, 1.5, 2.0, 3.0];
    let cells = sample_spline(&keys(&xs), &keys(&xi), false, false);
    assert_eq!(
        cells,
        vec![Cell::Knot(0), Cell::Between(0), Cell::Knot(1), Cell::Between(1), Cell::Knot(2), Cell::Missing]
    );
    let out: Vec<Option<f64>> =
        cells.iter().zip(xi.iter()).map(|(c, q)| value_of(*c, Method::Linear, &xs, &ys, *q, None)).collect();
    assert_eq!(out, vec![Some(0.0), Some(5.0), Some(10.0), Some(15.0), Some(20.0), None]);
}

#[test]
fn scenario_fill_value() {
    let xs = [0.0, 1.0, 2.0];
    let ys = [0.0, 10.0, 20.0];
    let xi = [-1.0, 3.0];
    let cells = sample_spline(&keys(&xs), &keys(&xi), true, false);
    assert_eq!(cells, vec![Cell::Fill, Cell::Fill]);
    let out: Vec<Option<f64>> =
        cells.iter().zip(xi.iter()).map(|(c, q)| value_of(*c, Method::Linear, &xs, &ys, *q, Some(-1.0))).collect();
    assert_eq!(out, vec![Some(-1.0), Some(-1.0)]);
}

#[test]
fn scenario_cosine_midpoint() {
    let xs = [0.0, 1.0];
    let ys = [0.0, 10.0];
    let xi = [0.5];
    let method = interpolator_from_name(Some("cosine")).unwrap();
    assert_eq!(method, Method::Cosine);
    let cells = sample_spline(&keys(&xs), &keys(&xi), false, false);
    assert_eq!(cells, vec![Cell::Between(0)]);
    let v = value_of(cells[0], method, &xs, &ys, 0.5, None).unwrap();
    assert!((v - 5.0).abs() < 1e-9);
}

#[test]
fn scenario_invalid_method() {
    let r = SampleRequest::new(1, Some("quadratic"), vec![0.0], None, false);
    assert_eq!(r.unwrap_err(), SplineError::InvalidMethod(Some("quadratic".to_string())));
}

#[test]
fn scenario_misaligned_nulls() {
    let x = vec![Some(0.0), None, Some(2.0), Some(3.0)];
    let y = vec![Some(0.0), Some(10.0), None, Some(30.0)];
    let points = create_spline(&x, &y);
    assert_eq!(points, vec![(0.0, 0.0), (3.0, 30.0)]);
}

#[test]
fn pairs_kept_in_column_order() {
    let x = vec![Some(1u8), Some(2), None, Some(4)];
    let y = vec![Some('a'), Some('b'), Some('c'), Some('d')];
    assert_eq!(create_spline(&x, &y), vec![(1, 'a'), (2, 'b'), (4, 'd')]);
    let empty: Vec<Option<u8>> = Vec::new();
    assert!(create_spline(&empty, &empty).is_empty());
}

#[test]
fn method_names_are_exact() {
    assert_eq!(interpolator_from_name(Some("linear")), Ok(Method::Linear));
    assert_eq!(interpolator_from_name(Some("cosine")), Ok(Method::Cosine));
    assert_eq!(interpolator_from_name(Some("catmullrom")), Ok(Method::CatmullRom));
    assert_eq!(interpolator_from_name(Some("Linear")), Err(SplineError::InvalidMethod(Some("Linear".to_string()))));
    assert_eq!(interpolator_from_name(Some("linear ")), Err(SplineError::InvalidMethod(Some("linear ".to_string()))));
    assert_eq!(interpolator_from_name(Some("")), Err(SplineError::InvalidMethod(Some(String::new()))));
    assert_eq!(interpolator_from_name(None), Err(SplineError::InvalidMethod(None)));
    assert_eq!(valid_method_names(), vec!["linear", "cosine", "catmullrom"]);
}

#[test]
fn arity_is_checked_before_method() {
    assert_eq!(validate_call(0, Some("linear")), Err(SplineError::InvalidArity(0)));
    assert_eq!(validate_call(2, Some("bogus")), Err(SplineError::InvalidArity(2)));
    assert_eq!(validate_call(1, None), Err(SplineError::InvalidMethod(None)));
    assert_eq!(validate_call(1, Some("catmullrom")), Ok(Method::CatmullRom));
}

#[test]
fn request_keeps_its_fields() {
    let r = SampleRequest::new(1, Some("linear"), vec![1.5, 2.5], Some(7.0), true).unwrap();
    assert_eq!(r.method, Method::Linear);
    assert_eq!(r.xi, vec![1.5, 2.5]);
    assert_eq!(r.fill_value, Some(7.0));
    assert!(r.snap_endpoints);
    assert!(matches!(
        SampleRequest::new(3, None, vec![1.0], None, false),
        Err(SplineError::InvalidArity(3))
    ));
}

#[test]
fn result_length_matches_queries() {
    let k = keys(&[0.0, 1.0]);
    assert!(sample_spline(&k, &Vec::new(), true, true).is_empty());
    let xi = keys(&[0.0, 0.5, 9.0]);
    assert_eq!(sample_spline(&Vec::new(), &xi, false, false), vec![Cell::Missing; 3]);
    assert_eq!(sample_spline(&Vec::new(), &xi, true, true), vec![Cell::Fill; 3]);
}

#[test]
fn out_of_domain_never_interpolates() {
    let k = keys(&[-2.0, 0.0, 5.0]);
    let xi = keys(&[-2.5, 5.5, f64::NEG_INFINITY, f64::INFINITY, f64::NAN]);
    assert_eq!(sample_spline(&k, &xi, false, true), vec![Cell::Missing; 5]);
    assert_eq!(sample_spline(&k, &xi, true, false), vec![Cell::Fill; 5]);
}

#[test]
fn queries_at_knots_give_their_point() {
    let k = keys(&[-3.0, -1.0, 0.25, 8.0]);
    let xi = keys(&[0.25, -3.0, 8.0, -1.0]);
    assert_eq!(
        sample_spline(&k, &xi, false, false),
        vec![Cell::Knot(2), Cell::Knot(0), Cell::Knot(3), Cell::Knot(1)]
    );
}

#[test]
fn repeated_x_takes_the_earlier_point() {
    let k = keys(&[0.0, 1.0, 1.0, 2.0]);
    assert_eq!(locate(&k, keys(&[1.0])[0]), Cell::Knot(1));
    assert_eq!(locate(&k, keys(&[1.5])[0]), Cell::Between(2));
    assert_eq!(locate(&k, keys(&[0.5])[0]), Cell::Between(0));
}

#[test]
fn snapping_forces_the_end_points() {
    let k = keys(&[0.0, 1.0, 1.0]);
    let xi = keys(&[0.0, 1.0]);
    assert_eq!(sample_spline(&k, &xi, false, false), vec![Cell::Knot(0), Cell::Knot(1)]);
    assert_eq!(sample_spline(&k, &xi, false, true), vec![Cell::Knot(0), Cell::Knot(2)]);
    let middle = keys(&[1.0, 0.5]);
    assert_eq!(sample_spline(&k, &middle, false, true), vec![Cell::Knot(1), Cell::Between(0)]);
}

#[test]
fn same_batch_twice_is_identical() {
    let k = keys(&[0.0, 1.0, 4.0, 9.0]);
    let xi = keys(&[-1.0, 0.0, 2.0, 4.0, 8.5, 9.0, 10.0]);
    assert_eq!(sample_spline(&k, &xi, true, true), sample_spline(&k, &xi, true, true));
}

#[test]
fn catmull_rom_neighbours_at_the_edges() {
    assert_eq!(catmull_rom_indices(2, 0), (0, 0, 1, 1));
    assert_eq!(catmull_rom_indices(4, 0), (0, 0, 1, 2));
    assert_eq!(catmull_rom_indices(4, 1), (0, 1, 2, 3));
    assert_eq!(catmull_rom_indices(4, 2), (1, 2, 3, 3));
}

#[test]
fn ordering_check() {
    assert!(is_ordered(&Vec::new()));
    assert!(is_ordered(&keys(&[-1.0, -0.0, 0.0, 0.0, 3.0])));
    assert!(!is_ordered(&keys(&[0.0, 2.0, 1.0])));
}

#[test]
fn ordinals_follow_numeric_order() {
    assert_eq!(ordinal_of_bits(0.0f64.to_bits()), 0);
    assert_eq!(ordinal_of_bits((-0.0f64).to_bits()), 0);
    assert_eq!(ordinal_of_bits(1.0f64.to_bits()), 0x3FF0_0000_0000_0000);
    assert_eq!(ordinal_of_bits((-1.0f64).to_bits()), -0x3FF0_0000_0000_0000);
    let vals = [f64::NEG_INFINITY, -1e300, -2.5, -1e-300, 0.0, 1e-300, 2.5, 1e300, f64::INFINITY];
    let ks = keys(&vals);
    for w in ks.windows(2) {
        assert!(w[0] < w[1]);
    }
}
