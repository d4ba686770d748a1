use geo_scalars::ellipses::{is_point_in_ellipses, point_in_ellipses_fn, Ellipse};
use geo_scalars::eval::{Column, Scalar, Value, ValueRef};
use geo_scalars::numeric::Real;

#[derive(Clone, Copy, Debug, PartialEq)]
struct Double(f64);

impl Real for Double {
    fn whole(n: u64) -> Self {
        Double(n as f64)
    }
    fn pi() -> Self {
        Double(std::f64::consts::PI)
    }
    fn plus(self, other: Self) -> Self {
        Double(self.0 + other.0)
    }
    fn minus(self, other: Self) -> Self {
        Double(self.0 - other.0)
    }
    fn times(self, other: Self) -> Self {
        Double(self.0 * other.0)
    }
    fn over(self, other: Self) -> Self {
        Double(self.0 / other.0)
    }
    fn abs(self) -> Self {
        Double(self.0.abs())
    }
    fn squared(self) -> Self {
        Double(self.0.powi(2))
    }
    fn sqrt(self) -> Self {
        Double(self.0.sqrt())
    }
    fn cos(self) -> Self {
        Double(self.0.cos())
    }
    fn asin(self) -> Self {
        Double(self.0.asin())
    }
    fn less(self, other: Self) -> bool {
        self.0 < other.0
    }
    fn at_most(self, other: Self) -> bool {
        self.0 <= other.0
    }
    fn to_index(self) -> usize {
        self.0 as usize
    }
}

fn ellipse(x: f64, y: f64, a: f64, b: f64) -> Ellipse<Double> {
    Ellipse { x: Double(x), y: Double(y), a: Double(a), b: Double(b) }
}

fn scalar(v: f64) -> ValueRef<Double> {
    ValueRef::Scalar(Scalar::Number(Double(v)))
}

fn column(values: &[f64]) -> ValueRef<Double> {
    ValueRef::Column(Column::Number(values.iter().map(|v| Double(*v)).collect()))
}

fn scalar_result(args: &[ValueRef<Double>]) -> u8 {
    match point_in_ellipses_fn(args) {
        Value::Scalar(v) => v,
        Value::Column(_) => panic!("a column without a column among the arguments"),
    }
}

fn column_result(args: &[ValueRef<Double>]) -> Vec<u8> {
    match point_in_ellipses_fn(args) {
        Value::Scalar(_) => panic!("a scalar with a column among the arguments"),
        Value::Column(values) => values,
    }
}

#[test]
fn point_and_one_ellipse() {
    let el = ellipse(10.0, 10.0, 5.0, 2.0);
    assert!(el.contains(Double(10.0), Double(10.0)));
    assert!(el.contains(Double(15.0), Double(10.0)));
    assert!(el.contains(Double(5.0), Double(10.0)));
    assert!(el.contains(Double(10.0), Double(12.0)));
    assert!(el.contains(Double(10.0), Double(8.0)));
    // in the rectangle, not in the ellipse
    assert!(!el.contains(Double(14.9), Double(11.9)));
    // beyond each side of the rectangle
    assert!(!el.contains(Double(15.1), Double(10.0)));
    assert!(!el.contains(Double(4.9), Double(10.0)));
    assert!(!el.contains(Double(10.0), Double(12.1)));
    assert!(!el.contains(Double(10.0), Double(7.9)));
}

#[test]
fn an_ellipse_without_extent_contains_nothing() {
    // the quotients are no numbers, so no comparison holds
    assert!(!ellipse(1.0, 1.0, 0.0, 0.0).contains(Double(1.0), Double(1.0)));
}

#[test]
fn a_negative_half_axis_contains_nothing() {
    assert!(!ellipse(0.0, 0.0, -1.0, 1.0).contains(Double(0.0), Double(0.0)));
}

#[test]
fn the_ellipse_found_is_the_next_start() {
    let ellipses = [
        ellipse(0.0, 0.0, 1.0, 1.0),
        ellipse(10.0, 0.0, 1.0, 1.0),
        ellipse(20.0, 0.0, 1.0, 1.0),
    ];
    let mut start: usize = 0;
    assert!(is_point_in_ellipses(Double(20.0), Double(0.0), &ellipses, 3, &mut start));
    assert_eq!(start, 2);
    // goes on after the last one with the first
    assert!(is_point_in_ellipses(Double(10.5), Double(0.0), &ellipses, 3, &mut start));
    assert_eq!(start, 1);
    // nothing found: the start stays
    assert!(!is_point_in_ellipses(Double(5.0), Double(0.0), &ellipses, 3, &mut start));
    assert_eq!(start, 1);
    assert!(is_point_in_ellipses(Double(0.0), Double(0.0), &ellipses, 3, &mut start));
    assert_eq!(start, 0);
}

#[test]
fn only_the_counted_ellipses_are_tested() {
    let ellipses = [ellipse(0.0, 0.0, 1.0, 1.0), ellipse(10.0, 0.0, 1.0, 1.0)];
    let mut start: usize = 0;
    assert!(!is_point_in_ellipses(Double(10.0), Double(0.0), &ellipses, 1, &mut start));
    assert!(is_point_in_ellipses(Double(10.0), Double(0.0), &ellipses, 2, &mut start));
}

#[test]
fn no_ellipse_at_all() {
    let mut start: usize = 7;
    assert!(!is_point_in_ellipses(Double(0.0), Double(0.0), &[], 0, &mut start));
    assert_eq!(start, 7);
    assert_eq!(scalar_result(&[scalar(0.0), scalar(0.0)]), 0);
}

#[test]
fn every_start_finds_the_same() {
    let ellipses = [
        ellipse(0.0, 0.0, 1.0, 1.0),
        ellipse(0.5, 0.0, 1.0, 1.0),
        ellipse(20.0, 0.0, 3.0, 1.0),
    ];
    for x in [0.2, -0.9, 1.4, 5.0, 22.0] {
        let found: Vec<bool> = (0..3)
            .map(|s| {
                let mut start: usize = s;
                is_point_in_ellipses(Double(x), Double(0.0), &ellipses, 3, &mut start)
            })
            .collect();
        assert_eq!(found[0], found[1]);
        assert_eq!(found[1], found[2]);
    }
}

#[test]
fn scalar_arguments_give_a_scalar() {
    let args = [
        scalar(10.0),
        scalar(10.0),
        scalar(10.0),
        scalar(9.1),
        scalar(1.0),
        scalar(0.9999),
    ];
    assert_eq!(scalar_result(&args), 1);
    let args = [
        scalar(10.0),
        scalar(10.0),
        scalar(10.0),
        scalar(9.1),
        scalar(1.0),
        scalar(0.8),
    ];
    assert_eq!(scalar_result(&args), 0);
}

#[test]
fn column_arguments_give_a_column() {
    let args = [
        column(&[0.0, 10.0, 5.0, 0.5]),
        scalar(0.0),
        scalar(0.0),
        scalar(0.0),
        scalar(1.0),
        scalar(1.0),
        scalar(10.0),
        scalar(0.0),
        scalar(2.0),
        scalar(2.0),
    ];
    assert_eq!(column_result(&args), vec![1, 1, 0, 1]);
    let args = [
        scalar(0.5),
        column(&[0.0, 3.0]),
        scalar(0.0),
        scalar(0.0),
        scalar(1.0),
        scalar(1.0),
    ];
    assert_eq!(column_result(&args), vec![1, 0]);
}

#[test]
fn no_rows_give_an_empty_column() {
    let args = [
        column(&[]),
        column(&[]),
        scalar(0.0),
        scalar(0.0),
        scalar(1.0),
        scalar(1.0),
    ];
    assert_eq!(column_result(&args), Vec::<u8>::new());
}

#[test]
fn a_column_says_zero_of_an_ellipse() {
    // the center's first coordinate is read as zero
    let args = [
        scalar(0.5),
        scalar(0.0),
        column(&[100.0, 100.0]),
        scalar(0.0),
        scalar(1.0),
        scalar(1.0),
    ];
    assert_eq!(column_result(&args), vec![1, 1]);
}

#[test]
fn leftover_arguments_are_ignored() {
    let args = [
        scalar(10.0),
        scalar(0.0),
        scalar(0.0),
        scalar(0.0),
        scalar(1.0),
        scalar(1.0),
        scalar(10.0),
        scalar(0.0),
        scalar(1.0),
    ];
    assert_eq!(scalar_result(&args), 0);
}

#[test]
fn leftover_numbers_do_not_change_the_value() {
    let mut args = vec![
        column(&[0.0, 10.0, 5.0]),
        scalar(0.0),
        scalar(0.0),
        scalar(0.0),
        scalar(1.0),
        scalar(1.0),
    ];
    let expected = column_result(&args);
    assert_eq!(expected, vec![1, 0, 0]);
    for leftover in [10.0, 0.0, 1.0] {
        args.push(scalar(leftover));
        assert_eq!(column_result(&args), expected);
    }
}

#[test]
fn order_of_ellipses_does_not_matter() {
    let groups = [
        [0.0, 0.0, 1.0, 1.0],
        [0.5, 0.5, 2.0, 0.5],
        [10.0, 0.0, 3.0, 3.0],
    ];
    let xs = [0.0, 2.4, 11.0, 5.0, -0.9];
    let ys = [0.0, 0.5, 1.0, 5.0, 0.1];
    let value = |order: [usize; 3]| {
        let mut args = vec![column(&xs), column(&ys)];
        for e in order {
            args.extend(groups[e].iter().map(|v| scalar(*v)));
        }
        column_result(&args)
    };
    let expected = value([0, 1, 2]);
    assert_eq!(expected, vec![1, 1, 1, 0, 1]);
    for order in [[0, 2, 1], [1, 0, 2], [1, 2, 0], [2, 0, 1], [2, 1, 0]] {
        assert_eq!(value(order), expected);
    }
}

#[test]
fn values_follow_the_rows() {
    let xs = [0.0, 2.4, 11.0, 5.0];
    let ys = [0.0, 0.5, 1.0, 5.0];
    let value = |rows: &[usize]| {
        let x: Vec<f64> = rows.iter().map(|r| xs[*r]).collect();
        let y: Vec<f64> = rows.iter().map(|r| ys[*r]).collect();
        let mut args = vec![column(&x), column(&y)];
        args.extend([0.0, 0.0, 1.0, 1.0, 10.0, 0.0, 3.0, 3.0].iter().map(|v| scalar(*v)));
        column_result(&args)
    };
    let all = value(&[0, 1, 2, 3]);
    assert_eq!(all, vec![1, 0, 1, 0]);
    for rows in [vec![3, 2, 1, 0], vec![2, 0, 3, 1], vec![2], vec![1, 1, 2]] {
        let expected: Vec<u8> = rows.iter().map(|r| all[*r]).collect();
        assert_eq!(value(&rows), expected);
    }
}

#[test]
fn a_point_found_in_time_ends_the_test() {
    // one ellipse more is counted than there is
    let ellipses = [ellipse(0.0, 0.0, 1.0, 1.0), ellipse(10.0, 0.0, 1.0, 1.0)];
    let mut start: usize = 0;
    assert!(is_point_in_ellipses(Double(10.0), Double(0.0), &ellipses, 3, &mut start));
    assert_eq!(start, 1);
    // the test begins behind the counted ellipses
    let mut start: usize = 1;
    assert!(is_point_in_ellipses(Double(10.0), Double(0.0), &ellipses, 1, &mut start));
    assert_eq!(start, 1);
}
