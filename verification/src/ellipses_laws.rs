//! What the tests of ellipses mean in exact numbers.

use vstd::prelude::*;

use crate::ellipses::{
    any_inside_gives, are_ellipses, cell, conditions, ellipse_gives, in_ellipses_gives,
    inside_gives,
    is_point_in_ellipses, parameter_gives, point_in_ellipses_fn, probe, search_gives,
    Ellipse,
};
use crate::eval::{
    height, input_rows, law_rows_are_the_values, law_shape_is_that_of_the_arguments, value_at,
    value_count, Column, Scalar, Value, ValueRef,
};
use crate::exact::{
    is_exact, is_plain, law_exact_comparison, law_exact_quotient, lemma_distribute, lemma_positive,
    lemma_regroup, lemma_scale, lemma_square, lemma_square_of_product, lemma_squares_are_ordered,
    lemma_swap_factors, lemma_zero, means, size, Circle,
};
use crate::numeric::{Expr, Real};
use crate::registry::FunctionFactory;

verus! {

/// The point at the given distance from the center lies in the ellipse with the given
/// half axes: the squared distances, each relative to the half axis, make one at most.
/// Both sides are multiplied with the squared half axes.
pub open spec fn is_within(dx: real, dy: real, a: real, b: real) -> bool {
    dx * dx * (b * b) + dy * dy * (a * a) <= a * a * (b * b)
}

/// The point lies in the ellipse.
pub open spec fn holds_point<R>(value: spec_fn(R) -> real, el: Ellipse<R>, x: R, y: R) -> bool {
    is_within(value(x) - value(el.x), value(y) - value(el.y), value(el.a), value(el.b))
}

/// In exact numbers, a point is found in an ellipse exactly where it lies in it. An
/// ellipse with a negative half axis holds no point.
pub proof fn law_exact_contains<R: Real>(
    value: spec_fn(R) -> real,
    circle: Circle,
    el: Ellipse<R>,
    x: R,
    y: R,
    r: bool,
)
    requires
        is_exact(value, circle),
        value(el.a) != 0 as real,
        value(el.b) != 0 as real,
        call_ensures(Ellipse::<R>::contains, (&el, x, y), r),
    ensures
        value(el.a) > 0 as real && value(el.b) > 0 as real ==> r == is_within(
            value(x) - value(el.x),
            value(y) - value(el.y),
            value(el.a),
            value(el.b),
        ),
        value(el.a) < 0 as real || value(el.b) < 0 as real ==> !r,
{
    lemma_exact_inside(value, circle, el, x, y, r);
}

/// Mirroring the point at an axis of the ellipse does not change the answer.
pub proof fn law_exact_mirrored_points_agree<R: Real>(
    value: spec_fn(R) -> real,
    circle: Circle,
    el: Ellipse<R>,
    x: R,
    y: R,
    r: bool,
    mirrored_x: R,
    mirrored_y: R,
    mirrored_r: bool,
)
    requires
        is_exact(value, circle),
        value(el.a) != 0 as real,
        value(el.b) != 0 as real,
        value(mirrored_x) - value(el.x) == value(x) - value(el.x) || value(mirrored_x) - value(
            el.x,
        ) == value(el.x) - value(x),
        value(mirrored_y) - value(el.y) == value(y) - value(el.y) || value(mirrored_y) - value(
            el.y,
        ) == value(el.y) - value(y),
        call_ensures(Ellipse::<R>::contains, (&el, x, y), r),
        call_ensures(Ellipse::<R>::contains, (&el, mirrored_x, mirrored_y), mirrored_r),
    ensures
        mirrored_r == r,
{
    law_exact_contains(value, circle, el, x, y, r);
    law_exact_contains(value, circle, el, mirrored_x, mirrored_y, mirrored_r);
    lemma_square(value(x) - value(el.x));
    lemma_square(value(y) - value(el.y));
    assert(value(el.x) - value(x) == -(value(x) - value(el.x)));
    assert(value(el.y) - value(y) == -(value(y) - value(el.y)));
}

/// Where a point was found in an ellipse or not, so it lies.
proof fn lemma_exact_inside<R: Real>(
    value: spec_fn(R) -> real,
    circle: Circle,
    el: Ellipse<R>,
    x: R,
    y: R,
    r: bool,
)
    requires
        is_exact(value, circle),
        inside_gives(el, x, y, r),
        value(el.a) != 0 as real,
        value(el.b) != 0 as real,
    ensures
        value(el.a) > 0 as real && value(el.b) > 0 as real ==> r == holds_point(value, el, x, y),
        value(el.a) < 0 as real || value(el.b) < 0 as real ==> !r,
{
    reveal_with_fuel(means, 3);
    reveal_with_fuel(is_plain, 3);
    let c = conditions(el, x, y);
    let a = value(el.a);
    let b = value(el.b);
    let dx = value(x) - value(el.x);
    let dy = value(y) - value(el.y);
    law_exact_comparison(value, circle, c[0].0, c[0].1, r);
    law_exact_comparison(value, circle, c[1].0, c[1].1, r);
    law_exact_comparison(value, circle, c[2].0, c[2].1, r);
    law_exact_comparison(value, circle, c[3].0, c[3].1, r);
    if r {
        assert(c[0].0.at_most_gives(c[0].1, true));
        assert(c[1].0.at_most_gives(c[1].1, true));
        assert(c[2].0.at_most_gives(c[2].1, true));
        assert(c[3].0.at_most_gives(c[3].1, true));
        assert(c[4].0.at_most_gives(c[4].1, true));
        assert(-a <= dx <= a && -b <= dy <= b);
        lemma_exact_last_condition(value, circle, el, x, y, r);
    } else {
        let k = choose|k: int| 0 <= k < c.len() && (#[trigger] c[k]).0.at_most_gives(c[k].1, false);
        if k == 4 {
            lemma_exact_last_condition(value, circle, el, x, y, r);
        } else if a > 0 as real && b > 0 as real {
            assert(k == 0 || k == 1 || k == 2 || k == 3);
            if k < 2 {
                assert(dx > a || -dx > a);
                lemma_beyond(dx, dy, a, b);
            } else {
                assert(dy > b || -dy > b);
                lemma_beyond(dy, dx, b, a);
                lemma_swap_factors(a * a, b * b);
            }
        }
    }
}

/// The last condition, on the sum of squares, says whether the point lies in the ellipse.
proof fn lemma_exact_last_condition<R: Real>(
    value: spec_fn(R) -> real,
    circle: Circle,
    el: Ellipse<R>,
    x: R,
    y: R,
    r: bool,
)
    requires
        is_exact(value, circle),
        conditions(el, x, y)[4].0.at_most_gives(conditions(el, x, y)[4].1, r),
        value(el.a) != 0 as real,
        value(el.b) != 0 as real,
    ensures
        value(el.a) > 0 as real && value(el.b) > 0 as real ==> r == holds_point(value, el, x, y),
{
    reveal_with_fuel(means, 3);
    reveal_with_fuel(is_plain, 3);
    let a = value(el.a);
    let b = value(el.b);
    let dx = value(x) - value(el.x);
    let dy = value(y) - value(el.y);
    let p1 = Expr::Value(x).minus(Expr::Value(el.x)).over(Expr::Value(el.a));
    let p2 = Expr::Value(y).minus(Expr::Value(el.y)).over(Expr::Value(el.b));
    let sum = p1.times(p1).plus(p2.times(p2));
    let (u, v) = choose|u: R, v: R|
        sum.gives(u) && Expr::Whole(1).gives(v) && #[trigger] call_ensures(R::at_most, (u, v), r);
    let (s, t) = choose|s: R, t: R|
        p1.times(p1).gives(s) && p2.times(p2).gives(t) && #[trigger] call_ensures(
            R::plus,
            (s, t),
            u,
        );
    let (p, p0) = choose|p: R, p0: R|
        p1.gives(p) && p1.gives(p0) && #[trigger] call_ensures(R::times, (p, p0), s);
    let (q, q0) = choose|q: R, q0: R|
        p2.gives(q) && p2.gives(q0) && #[trigger] call_ensures(R::times, (q, q0), t);
    law_exact_quotient(value, circle, Expr::Value(x).minus(Expr::Value(el.x)), Expr::Value(el.a), p);
    law_exact_quotient(value, circle, Expr::Value(x).minus(Expr::Value(el.x)), Expr::Value(el.a), p0);
    law_exact_quotient(value, circle, Expr::Value(y).minus(Expr::Value(el.y)), Expr::Value(el.b), q);
    law_exact_quotient(value, circle, Expr::Value(y).minus(Expr::Value(el.y)), Expr::Value(el.b), q0);
    assert(value(p) == value(p0) && value(q) == value(q0));
    assert(value(u) == value(p) * value(p) + value(q) * value(q));
    if a > 0 as real && b > 0 as real {
        lemma_within(dx, dy, a, b, value(p), value(q));
    }
}

/// Beyond a half axis, the point does not lie in the ellipse.
proof fn lemma_beyond(dx: real, dy: real, a: real, b: real)
    requires
        a > 0 as real,
        b > 0 as real,
        dx > a || -dx > a,
    ensures
        !is_within(dx, dy, a, b),
{
    lemma_squares_are_ordered(a, size(dx));
    lemma_square(dx);
    lemma_square(dy);
    lemma_square(a);
    lemma_square(b);
    lemma_scale(a * a, dx * dx, b * b);
    lemma_scale(0 as real, dy * dy, a * a);
    lemma_zero(a * a);
}

/// The distances relative to the half axes say the same as the distances.
proof fn lemma_within(dx: real, dy: real, a: real, b: real, p: real, q: real)
    requires
        a > 0 as real,
        b > 0 as real,
        p * a == dx,
        q * b == dy,
    ensures
        is_within(dx, dy, a, b) == (p * p + q * q <= 1 as real),
{
    let t = p * p + q * q;
    let w = a * a * (b * b);
    lemma_square(a);
    lemma_square(b);
    lemma_positive(a * a, b * b);
    lemma_square_of_product(p, a);
    lemma_square_of_product(q, b);
    lemma_regroup(p * p, a * a, b * b);
    lemma_regroup(q * q, b * b, a * a);
    lemma_swap_factors(a * a, b * b);
    lemma_distribute(p * p, q * q, w);
    assert(dx * dx * (b * b) + dy * dy * (a * a) == t * w);
    lemma_scale(t, 1 as real, w);
    lemma_scale(1 as real, t, w);
    assert(1 as real * w == w);
}

/// The test finds the first ellipse that holds the point, beginning with that at the start
/// and going on after the last one with the first, and leaves it as the next start.
/// Where no ellipse holds the point, the start stays.
pub proof fn law_exact_first_ellipse_is_found<R: Real>(
    value: spec_fn(R) -> real,
    circle: Circle,
    x: R,
    y: R,
    ellipses: &[Ellipse<R>],
    count: usize,
    start: &mut usize,
    r: bool,
)
    requires
        is_exact(value, circle),
        call_ensures(is_point_in_ellipses::<R>, (x, y, ellipses, count, start), r),
        *start < count <= ellipses@.len(),
        forall|e: int|
            0 <= e < count ==> value(#[trigger] ellipses@[e].a) > 0 as real && value(
                ellipses@[e].b,
            ) > 0 as real,
    ensures
        r <==> exists|e: int|
            0 <= e < count && holds_point(value, #[trigger] ellipses@[e], x, y),
        !r ==> *final(start) == *old(start),
        r ==> *final(start) < count && holds_point(value, ellipses@[*final(start) as int], x, y),
        r && *old(start) <= *final(start) ==> forall|e: int|
            *old(start) <= e < *final(start) ==> !holds_point(value, #[trigger] ellipses@[e], x, y),
        r && *final(start) < *old(start) ==> forall|e: int|
            0 <= e < *final(start) || *old(start) <= e < count ==> !holds_point(
                value,
                #[trigger] ellipses@[e],
                x,
                y,
            ),
{
    let s = *start as int;
    let n = count as int;
    let t = *final(start) as int;
    assert(search_gives(ellipses@, x, y, n, s, t, r));
    assert forall|e: int, found: bool| 0 <= e < n && #[trigger] inside_gives(
        ellipses@[e],
        x,
        y,
        found,
    ) implies found == holds_point(value, ellipses@[e], x, y) by {
        assert(value(ellipses@[e].a) > 0 as real);
        lemma_exact_inside(value, circle, ellipses@[e], x, y, found);
    }
    assert forall|e: int| 0 <= e < n implies #[trigger] probe(s, n, turns(s, n, e)) == e by {
        lemma_turns(s, n, e);
    }
    if r {
        let k = choose|k: int|
            {
                &&& 0 <= k < n
                &&& t == #[trigger] probe(s, n, k)
                &&& inside_gives(ellipses@[t], x, y, true)
                &&& forall|j: int|
                    0 <= j < k ==> inside_gives(
                        ellipses@[#[trigger] probe(s, n, j)],
                        x,
                        y,
                        false,
                    )
            };
        lemma_probe(s, n, k);
        assert(k == turns(s, n, t));
        assert forall|e: int| 0 <= e < n && turns(s, n, e) < k implies !holds_point(
            value,
            #[trigger] ellipses@[e],
            x,
            y,
        ) by {
            assert(probe(s, n, turns(s, n, e)) == e);
        }
    } else {
        assert(s == *old(start));
        assert forall|j: int| 0 <= j < n implies inside_gives(
            ellipses@[#[trigger] probe(s, n, j)],
            x,
            y,
            false,
        ) by {
        }
        assert forall|e: int| 0 <= e < n implies !holds_point(
            value,
            #[trigger] ellipses@[e],
            x,
            y,
        ) by {
            assert(0 <= turns(s, n, e) < n);
            assert(inside_gives(ellipses@[probe(s, n, turns(s, n, e))], x, y, false));
            assert(inside_gives(ellipses@[e], x, y, false));
        }
    }
}

/// From a start behind the counted ellipses, as many ellipses are tested from there on,
/// and the first that holds the point is found and left as the next start.
pub proof fn law_exact_ellipse_behind_is_found<R: Real>(
    value: spec_fn(R) -> real,
    circle: Circle,
    x: R,
    y: R,
    ellipses: &[Ellipse<R>],
    count: usize,
    start: &mut usize,
    r: bool,
)
    requires
        is_exact(value, circle),
        call_ensures(is_point_in_ellipses::<R>, (x, y, ellipses, count, start), r),
        count <= *start,
        *start + count <= ellipses@.len(),
        forall|e: int|
            0 <= e < ellipses@.len() ==> value(#[trigger] ellipses@[e].a) > 0 as real && value(
                ellipses@[e].b,
            ) > 0 as real,
    ensures
        r <==> exists|e: int|
            *old(start) <= e < *old(start) + count && holds_point(
                value,
                #[trigger] ellipses@[e],
                x,
                y,
            ),
        !r ==> *final(start) == *old(start),
        r ==> *old(start) <= *final(start) < *old(start) + count && holds_point(
            value,
            ellipses@[*final(start) as int],
            x,
            y,
        ),
        r ==> forall|e: int|
            *old(start) <= e < *final(start) ==> !holds_point(value, #[trigger] ellipses@[e], x, y),
{
    let s = *start as int;
    let n = count as int;
    let t = *final(start) as int;
    assert(search_gives(ellipses@, x, y, n, s, t, r));
    assert forall|e: int, found: bool| 0 <= e < ellipses@.len() && #[trigger] inside_gives(
        ellipses@[e],
        x,
        y,
        found,
    ) implies found == holds_point(value, ellipses@[e], x, y) by {
        assert(value(ellipses@[e].a) > 0 as real);
        lemma_exact_inside(value, circle, ellipses@[e], x, y, found);
    }
    assert forall|e: int| s <= e < s + n implies #[trigger] probe(s, n, e - s) == e by {}
    if r {
        let k = choose|k: int|
            {
                &&& 0 <= k < n
                &&& t == #[trigger] probe(s, n, k)
                &&& inside_gives(ellipses@[t], x, y, true)
                &&& forall|j: int|
                    0 <= j < k ==> inside_gives(
                        ellipses@[#[trigger] probe(s, n, j)],
                        x,
                        y,
                        false,
                    )
            };
        assert(t == s + k);
        assert forall|e: int| s <= e < t implies !holds_point(
            value,
            #[trigger] ellipses@[e],
            x,
            y,
        ) by {
            assert(inside_gives(ellipses@[probe(s, n, e - s)], x, y, false));
        }
    } else {
        assert forall|e: int| s <= e < s + n implies !holds_point(
            value,
            #[trigger] ellipses@[e],
            x,
            y,
        ) by {
            assert(inside_gives(ellipses@[probe(s, n, e - s)], x, y, false));
        }
    }
}

/// How many ellipses are tested before `e`, from the start on.
spec fn turns(s: int, n: int, e: int) -> int {
    if s <= e {
        e - s
    } else {
        e - s + n
    }
}

/// After that many others, the ellipse is tested.
proof fn lemma_turns(s: int, n: int, e: int)
    requires
        0 <= s < n,
        0 <= e < n,
    ensures
        probe(s, n, turns(s, n, e)) == e,
{
    vstd::arithmetic::div_mod::lemma_small_mod(e as nat, n as nat);
    vstd::arithmetic::div_mod::lemma_mod_add_multiples_vanish(e, n);
}

/// As many others as were tested come before an ellipse.
proof fn lemma_probe(s: int, n: int, k: int)
    requires
        0 <= s < n,
        0 <= k < n,
    ensures
        0 <= probe(s, n, k) < n,
        k == turns(s, n, probe(s, n, k)),
{
    if s + k < n {
        vstd::arithmetic::div_mod::lemma_small_mod((s + k) as nat, n as nat);
    } else {
        vstd::arithmetic::div_mod::lemma_small_mod((s + k - n) as nat, n as nat);
        vstd::arithmetic::div_mod::lemma_mod_add_multiples_vanish(s + k - n, n);
    }
}

/// The number that an argument has in a row.
pub open spec fn coordinate<R>(arg: ValueRef<R>, row: int) -> R {
    match arg {
        ValueRef::Scalar(Scalar::Number(v)) => v,
        ValueRef::Column(Column::Number(values)) => values@[row],
        _ => arbitrary(),
    }
}

/// The number that an argument says of an ellipse, which for a column is zero.
pub open spec fn parameter_value<R>(value: spec_fn(R) -> real, arg: ValueRef<R>) -> real {
    match arg {
        ValueRef::Scalar(Scalar::Number(v)) => value(v),
        _ => 0 as real,
    }
}

/// For each row, the value is one exactly where the point of that row lies in one of the
/// ellipses, of which each four arguments after the coordinates of the point tell the
/// center and the half axes. Elsewhere it is zero.
pub proof fn law_exact_point_in_ellipses<R: Real>(
    value: spec_fn(R) -> real,
    circle: Circle,
    args: &[ValueRef<R>],
    result: Value,
    row: int,
)
    requires
        is_exact(value, circle),
        call_ensures(point_in_ellipses_fn::<R>, (args,), result),
        args@.len() >= 2,
        forall|k: int|
            0 <= k < args@.len() ==> match #[trigger] args@[k] {
                ValueRef::Scalar(v) => v is Number,
                ValueRef::Column(c) => c is Number,
            },
        forall|e: int|
            0 <= e < (args@.len() - 2) / 4 ==> parameter_value(
                value,
                #[trigger] args@[2 + 4 * e + 2],
            ) > 0 as real && parameter_value(value, args@[2 + 4 * e + 3]) > 0 as real,
        0 <= row < value_count(result),
    ensures
        value_at(result, row) == 0 || value_at(result, row) == 1,
        value_at(result, row) == 1 <==> exists|e: int|
            0 <= e < (args@.len() - 2) / 4 && is_within(
                value(coordinate(args@[0], row)) - parameter_value(
                    value,
                    #[trigger] args@[2 + 4 * e],
                ),
                value(coordinate(args@[1], row)) - parameter_value(value, args@[2 + 4 * e + 1]),
                parameter_value(value, args@[2 + 4 * e + 2]),
                parameter_value(value, args@[2 + 4 * e + 3]),
            ),
{
    lemma_exact_point_in_ellipses(value, circle, args, result, row);
}

/// Evaluating what makes the tests of ellipses: for each row, the value is one exactly where the point of that row lies in one of the
/// ellipses, of which each four arguments after the coordinates of the point tell the
/// center and the half axes. Elsewhere it is zero.
pub proof fn law_exact_evaluated_ellipses<
    R: Real,
    F: Fn(&Vec<(R, R)>, &Vec<Vec<(R, R)>>, (R, R)) -> bool,
>(
    value: spec_fn(R) -> real,
    circle: Circle,
    args: &[ValueRef<R>],
    contains: F,
    result: Value,
    row: int,
)
    requires
        is_exact(value, circle),
        call_ensures(
            FunctionFactory::evaluate::<R, F>,
            (FunctionFactory::PointInEllipses, args, contains),
            result,
        ),
        args@.len() >= 2,
        forall|k: int|
            0 <= k < args@.len() ==> match #[trigger] args@[k] {
                ValueRef::Scalar(v) => v is Number,
                ValueRef::Column(c) => c is Number,
            },
        forall|e: int|
            0 <= e < (args@.len() - 2) / 4 ==> parameter_value(
                value,
                #[trigger] args@[2 + 4 * e + 2],
            ) > 0 as real && parameter_value(value, args@[2 + 4 * e + 3]) > 0 as real,
        0 <= row < value_count(result),
    ensures
        value_at(result, row) == 0 || value_at(result, row) == 1,
        value_at(result, row) == 1 <==> exists|e: int|
            0 <= e < (args@.len() - 2) / 4 && is_within(
                value(coordinate(args@[0], row)) - parameter_value(
                    value,
                    #[trigger] args@[2 + 4 * e],
                ),
                value(coordinate(args@[1], row)) - parameter_value(value, args@[2 + 4 * e + 1]),
                parameter_value(value, args@[2 + 4 * e + 2]),
                parameter_value(value, args@[2 + 4 * e + 3]),
            ),
{
    lemma_exact_point_in_ellipses(value, circle, args, result, row);
}

/// The rows of the value say where the points lie.
proof fn lemma_exact_point_in_ellipses<R: Real>(
    value: spec_fn(R) -> real,
    circle: Circle,
    args: &[ValueRef<R>],
    result: Value,
    row: int,
)
    requires
        is_exact(value, circle),
        in_ellipses_gives(args@, result),
        args@.len() >= 2,
        forall|k: int|
            0 <= k < args@.len() ==> match #[trigger] args@[k] {
                ValueRef::Scalar(v) => v is Number,
                ValueRef::Column(c) => c is Number,
            },
        forall|e: int|
            0 <= e < (args@.len() - 2) / 4 ==> parameter_value(
                value,
                #[trigger] args@[2 + 4 * e + 2],
            ) > 0 as real && parameter_value(value, args@[2 + 4 * e + 3]) > 0 as real,
        0 <= row < value_count(result),
    ensures
        value_at(result, row) == 0 || value_at(result, row) == 1,
        value_at(result, row) == 1 <==> exists|e: int|
            0 <= e < (args@.len() - 2) / 4 && is_within(
                value(coordinate(args@[0], row)) - parameter_value(
                    value,
                    #[trigger] args@[2 + 4 * e],
                ),
                value(coordinate(args@[1], row)) - parameter_value(value, args@[2 + 4 * e + 1]),
                parameter_value(value, args@[2 + 4 * e + 2]),
                parameter_value(value, args@[2 + 4 * e + 3]),
            ),
{
    law_rows_are_the_values(result, row);
    let x = coordinate(args@[0], row);
    let y = coordinate(args@[1], row);
    assert(x == cell(args@[0], row) && y == cell(args@[1], row)) by {
        assert(args@[0] is Scalar || args@[0] is Column);
    }
    let found = result.rows()[row] == 1;
    let ellipses = choose|ellipses: Seq<Ellipse<R>>|
        {
            &&& #[trigger] are_ellipses(args@, ellipses)
            &&& forall|i: int|
                0 <= i < input_rows(args@) ==> {
                    &&& #[trigger] result.rows()[i] <= 1
                    &&& any_inside_gives(
                        ellipses,
                        cell(args@[0], i),
                        cell(args@[1], i),
                        result.rows()[i] == 1,
                    )
                }
        };
    let n = (args@.len() - 2) / 4;
    assert(any_inside_gives(ellipses, x, y, found));
    assert forall|e: int| 0 <= e < n implies {
        &&& value((#[trigger] ellipses[e]).x) == parameter_value(value, args@[2 + 4 * e])
        &&& value(ellipses[e].y) == parameter_value(value, args@[2 + 4 * e + 1])
        &&& value(ellipses[e].a) == parameter_value(value, args@[2 + 4 * e + 2])
        &&& value(ellipses[e].b) == parameter_value(value, args@[2 + 4 * e + 3])
    } by {
        assert(ellipse_gives(args@, e, ellipses[e]));
        lemma_exact_parameter(value, circle, args@[2 + 4 * e], ellipses[e].x);
        lemma_exact_parameter(value, circle, args@[2 + 4 * e + 1], ellipses[e].y);
        lemma_exact_parameter(value, circle, args@[2 + 4 * e + 2], ellipses[e].a);
        lemma_exact_parameter(value, circle, args@[2 + 4 * e + 3], ellipses[e].b);
    }
    assert forall|e: int, inside: bool| 0 <= e < n && #[trigger] inside_gives(
        ellipses[e],
        x,
        y,
        inside,
    ) implies inside == holds_point(value, ellipses[e], x, y) by {
        assert(parameter_value(value, args@[2 + 4 * e + 2]) > 0 as real);
        lemma_exact_inside(value, circle, ellipses[e], x, y, inside);
    }
    if found {
        let e = choose|e: int|
            0 <= e < ellipses.len() && inside_gives(#[trigger] ellipses[e], x, y, true);
        assert(holds_point(value, ellipses[e], x, y));
        assert(args@[2 + 4 * e] == args@[2 + 4 * e]);
    } else {
        assert forall|e: int| 0 <= e < n implies !is_within(
            value(x) - parameter_value(value, #[trigger] args@[2 + 4 * e]),
            value(y) - parameter_value(value, args@[2 + 4 * e + 1]),
            parameter_value(value, args@[2 + 4 * e + 2]),
            parameter_value(value, args@[2 + 4 * e + 3]),
        ) by {
            assert(inside_gives(ellipses[e], x, y, false));
        }
    }
}

/// What was read of an ellipse is what the argument says.
proof fn lemma_exact_parameter<R: Real>(
    value: spec_fn(R) -> real,
    circle: Circle,
    arg: ValueRef<R>,
    v: R,
)
    requires
        is_exact(value, circle),
        match arg {
            ValueRef::Scalar(s) => s is Number,
            ValueRef::Column(c) => c is Number,
        },
        parameter_gives(arg, v),
    ensures
        value(v) == parameter_value(value, arg),
{
}

/// The value is a scalar where no argument is a column, and has the height of the first
/// column where one is.
pub proof fn law_ellipses_value_has_the_shape_of_the_arguments<R: Real>(
    args: &[ValueRef<R>],
    value: Value,
    k: int,
)
    requires
        call_ensures(point_in_ellipses_fn::<R>, (args,), value),
        0 <= k <= args@.len(),
        forall|j: int| 0 <= j < k ==> #[trigger] args@[j] is Scalar,
        k < args@.len() ==> args@[k] is Column,
    ensures
        k == args@.len() ==> value is Scalar,
        k < args@.len() ==> (value matches Value::Column(values) && values@.len() == height(
            args@[k]->Column_0,
        )),
{
    law_shape_is_that_of_the_arguments(args@, k, value);
}

} // verus!
