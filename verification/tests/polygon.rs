use geo::{Contains, Coord, LineString, Polygon};
use geo_scalars::eval::{Column, Scalar, Value, ValueRef};
use geo_scalars::polygon::point_in_polygon_fn;

fn line_string(ring: &Vec<(f64, f64)>) -> LineString {
    LineString(ring.iter().map(|c| Coord { x: c.0, y: c.1 }).collect())
}

fn contains(outer: &Vec<(f64, f64)>, holes: &Vec<Vec<(f64, f64)>>, p: (f64, f64)) -> bool {
    Polygon::new(line_string(outer), holes.iter().map(line_string).collect())
        .contains(&Coord { x: p.0, y: p.1 })
}

fn point(x: f64, y: f64) -> ValueRef<f64> {
    ValueRef::Scalar(Scalar::Tuple(vec![Scalar::Number(x), Scalar::Number(y)]))
}

fn points(xs: &[f64], ys: &[f64]) -> Column<f64> {
    Column::Tuple {
        fields: vec![Column::Number(xs.to_vec()), Column::Number(ys.to_vec())],
        len: xs.len(),
    }
}

fn ring(xs: &[f64], ys: &[f64]) -> ValueRef<f64> {
    ValueRef::Scalar(Scalar::Array(points(xs, ys)))
}

fn is_scalar(value: Value, expected: u8) -> bool {
    matches!(value, Value::Scalar(v) if v == expected)
}

#[test]
fn scalar_point() {
    let square = || ring(&[6.0, 8.0, 8.0, 0.0], &[0.0, 4.0, 0.0, 2.0]);
    assert!(is_scalar(point_in_polygon_fn(&[point(3.0, 3.0), square()], contains), 0));
    let square = || ring(&[0.0, 4.0, 4.0, 0.0], &[0.0, 0.0, 4.0, 4.0]);
    assert!(is_scalar(point_in_polygon_fn(&[point(3.0, 3.0), square()], contains), 1));
    assert!(is_scalar(point_in_polygon_fn(&[point(5.0, 3.0), square()], contains), 0));
    // the boundary belongs to the outside
    assert!(is_scalar(point_in_polygon_fn(&[point(0.0, 2.0), square()], contains), 0));
}

#[test]
fn column_of_points() {
    let args = [
        ValueRef::Column(points(&[3.0, 5.0, 1.0], &[3.0, 3.0, 1.0])),
        ring(&[0.0, 4.0, 4.0, 0.0], &[0.0, 0.0, 4.0, 4.0]),
    ];
    match point_in_polygon_fn(&args, contains) {
        Value::Column(values) => assert_eq!(values, vec![1, 0, 1]),
        Value::Scalar(_) => panic!("a scalar for a column of points"),
    }
}

#[test]
fn no_points() {
    let args = [
        ValueRef::Column(points(&[], &[])),
        ring(&[0.0, 4.0, 4.0, 0.0], &[0.0, 0.0, 4.0, 4.0]),
    ];
    match point_in_polygon_fn(&args, contains) {
        Value::Column(values) => assert!(values.is_empty()),
        Value::Scalar(_) => panic!("a scalar for a column of points"),
    }
}

#[test]
fn no_corners() {
    let args = [point(0.0, 0.0), ring(&[], &[])];
    assert!(is_scalar(point_in_polygon_fn(&args, contains), 0));
}

#[test]
fn only_the_first_two_fields_count() {
    let args = [
        ValueRef::Scalar(Scalar::Tuple(vec![
            Scalar::Number(3.0),
            Scalar::Number(1.0),
            Scalar::Number(99.0),
        ])),
        ring(&[0.0, 4.0, 4.0, 0.0], &[0.0, 0.0, 2.0, 2.0]),
    ];
    assert!(is_scalar(point_in_polygon_fn(&args, contains), 1));
    // x and y are not swapped
    let args = [point(1.0, 3.0), ring(&[0.0, 4.0, 4.0, 0.0], &[0.0, 0.0, 2.0, 2.0])];
    assert!(is_scalar(point_in_polygon_fn(&args, contains), 0));
}

fn outer() -> Column<f64> {
    points(&[0.0, 4.0, 4.0, 0.0], &[0.0, 0.0, 4.0, 4.0])
}

fn hole() -> Column<f64> {
    points(&[1.0, 3.0, 3.0, 1.0], &[1.0, 1.0, 3.0, 3.0])
}

fn array(column: Column<f64>) -> ValueRef<f64> {
    ValueRef::Scalar(Scalar::Array(column))
}

#[test]
fn holes_as_further_arguments() {
    let at = |x: f64, y: f64| {
        point_in_polygon_fn(&[point(x, y), array(outer()), array(hole())], contains)
    };
    // in the hole
    assert!(is_scalar(at(2.0, 2.0), 0));
    // between the rings
    assert!(is_scalar(at(0.5, 0.5), 1));
    // outside of both
    assert!(is_scalar(at(5.0, 2.0), 0));
    // two holes
    let other = || points(&[3.2, 3.8, 3.8, 3.2], &[3.2, 3.2, 3.8, 3.8]);
    let args = [point(3.5, 3.5), array(outer()), array(hole()), array(other())];
    assert!(is_scalar(point_in_polygon_fn(&args, contains), 0));
}

#[test]
fn holes_in_the_same_array() {
    let at = |x: f64, y: f64| {
        let list = Column::Array(vec![outer(), hole()]);
        point_in_polygon_fn(&[point(x, y), array(list)], contains)
    };
    assert!(is_scalar(at(0.5, 0.5), 1));
    assert!(is_scalar(at(2.0, 2.0), 0));
    assert!(is_scalar(at(5.0, 2.0), 0));
    // an outer ring alone
    let args = [point(2.0, 2.0), array(Column::Array(vec![outer()]))];
    assert!(is_scalar(point_in_polygon_fn(&args, contains), 1));
    // no ring at all
    let args = [point(2.0, 2.0), array(Column::Array(vec![]))];
    assert!(is_scalar(point_in_polygon_fn(&args, contains), 0));
}

#[test]
fn rows_are_independent() {
    let xs = [0.5, 2.0, 5.0, 3.5];
    let ys = [0.5, 2.0, 2.0, 0.5];
    let args = [ValueRef::Column(points(&xs, &ys)), array(outer()), array(hole())];
    match point_in_polygon_fn(&args, contains) {
        Value::Column(values) => {
            assert_eq!(values, vec![1, 0, 0, 1]);
            for i in 0..4 {
                let alone = [point(xs[i], ys[i]), array(outer()), array(hole())];
                assert!(is_scalar(point_in_polygon_fn(&alone, contains), values[i]));
            }
        }
        Value::Scalar(_) => panic!("a scalar for a column of points"),
    }
}

#[test]
fn rings_are_handed_on_in_order() {
    let rings = || {
        vec![
            points(&[1.0, 2.0, 3.0], &[4.0, 5.0, 6.0]),
            points(&[9.0], &[8.0]),
            points(&[], &[]),
        ]
    };
    let check = |corners: &Vec<(f64, f64)>, holes: &Vec<Vec<(f64, f64)>>, p: (f64, f64)| {
        assert_eq!(*corners, vec![(1.0, 4.0), (2.0, 5.0), (3.0, 6.0)]);
        assert_eq!(*holes, vec![vec![(9.0, 8.0)], vec![]]);
        assert_eq!(p, (7.0, 8.0));
        true
    };
    let mut args = vec![point(7.0, 8.0)];
    args.extend(rings().into_iter().map(array));
    assert!(is_scalar(point_in_polygon_fn(&args, check), 1));
    let args = [point(7.0, 8.0), array(Column::Array(rings()))];
    assert!(is_scalar(point_in_polygon_fn(&args, check), 1));
}
