//! What the lookups behind the distances give in exact numbers.

use vstd::prelude::*;

use crate::distance::{
    asin_sqrt_gives, asin_sqrt_series, between, cos_slot, deg_diff_gives, fast_cos_gives,
    fast_sin_gives, geodist_deg_diff, geodist_fast_asin_sqrt, geodist_fast_cos, geodist_fast_sin,
    sin_slot, steps,
};
use crate::exact::{
    is_exact, is_exact_narrow, is_plain, is_root, law_circle, law_exact_comparison,
    law_exact_expression, law_exact_quotient, law_exact_root, law_full_turns, lemma_cancel,
    lemma_distribute, lemma_regroup, lemma_root, lemma_same_factor, lemma_scale, lemma_squares_are_ordered,
    lemma_zero, means, root, size, Circle,
};
use crate::numeric::{decimal, narrowed, Expr, Narrow, Real};
use crate::tables::GeoTables;
use crate::tables_laws::{law_exact_arcsine_table, law_exact_cosine_table, step_angle};

verus! {

/// The point at the given part of the way from one number to another.
pub open spec fn chord(low: real, high: real, part: real) -> real {
    low + (high - low) * part
}

/// The cosine after `s` steps of a circle of 1024 steps, on the chord between the two
/// steps around it.
pub open spec fn table_cos(circle: Circle, s: real) -> real {
    let i = s.floor();
    chord(
        (circle.cos)(step_angle(circle, i)),
        (circle.cos)(step_angle(circle, i + 1)),
        s - i as real,
    )
}

/// The sine after `s` steps of a circle of 1024 steps, on the chord between the two
/// steps around it.
pub open spec fn table_sin(circle: Circle, s: real) -> real {
    let i = s.floor();
    chord(
        (circle.sin)(step_angle(circle, i)),
        (circle.sin)(step_angle(circle, i + 1)),
        s - i as real,
    )
}

/// An angle is as many steps long as half the steps of the circle are to half a turn.
pub proof fn lemma_exact_steps<R: Real>(
    value: spec_fn(R) -> real,
    circle: Circle,
    e: Expr<R>,
    y: R,
)
    requires
        is_exact(value, circle),
        circle.pi > 0 as real,
        is_plain(e, value, circle),
        steps(e).gives(y),
    ensures
        value(y) * circle.pi == size(means(e, value, circle)) * (512 as real),
        value(y) >= 0 as real,
{
    let p = circle.pi;
    let a = Expr::<R>::Whole(1024).over(Expr::Pi);
    let two = Expr::<R>::Whole(2);
    let scale = a.over(two);
    assert(steps(e) == e.abs().times(scale));
    let (u, v) = choose|u: R, v: R|
        e.abs().gives(u) && scale.gives(v) && #[trigger] call_ensures(R::times, (u, v), y);
    reveal_with_fuel(means, 3);
    reveal_with_fuel(is_plain, 3);
    assert(is_plain(e.abs(), value, circle));
    law_exact_expression(value, circle, e.abs(), u);
    assert(value(u) == size(means(e, value, circle)));
    let (q, t) = choose|q: R, t: R|
        a.gives(q) && two.gives(t) && #[trigger] call_ensures(R::over, (q, t), v);
    law_exact_quotient(value, circle, Expr::Whole(1024), Expr::Pi, q);
    assert(means(Expr::<R>::Whole(1024), value, circle) == 1024 as real);
    assert(means(Expr::<R>::Pi, value, circle) == p);
    assert(value(q) * p == 1024 as real);
    assert(value(t) == 2 as real);
    assert(value(v) * value(t) == value(q));
    lemma_same_factor(value(v), value(t), 2 as real);
    assert(value(v) * (2 as real) == value(q));
    lemma_distribute(value(v), value(v), p);
    lemma_same_factor(p, value(v) + value(v), value(q));
    assert(value(v) * p == 512 as real);
    lemma_regroup(value(u), value(v), p);
    lemma_same_factor(value(u), value(v) * p, 512 as real);
    lemma_scale(value(v), 0 as real, p);
    lemma_zero(p);
    assert(value(v) > 0 as real);
    lemma_scale(0 as real, value(u), value(v));
    lemma_zero(value(v));
}

/// After full turns, a step has the same sine and cosine.
proof fn lemma_turned_step(circle: Circle, j: int, k: int)
    requires
        circle.is_round(),
    ensures
        (circle.cos)(step_angle(circle, j + 1024 * k)) == (circle.cos)(step_angle(circle, j)),
        (circle.sin)(step_angle(circle, j + 1024 * k)) == (circle.sin)(step_angle(circle, j)),
{
    let p = circle.pi;
    let x = (j + 1024 * k) as real;
    let jr = j as real;
    let kr = k as real;
    assert(2 as real * p * x / (1024 as real) == 2 as real * p * jr / (1024 as real) + 2 as real * p
        * kr) by (nonlinear_arith)
        requires
            x == jr + 1024 as real * kr,
    ;
    law_full_turns(circle, step_angle(circle, j), k);
}

/// The cosine a quarter of the steps before is the sine.
proof fn lemma_quarter_step(circle: Circle, i: int)
    requires
        circle.is_round(),
    ensures
        (circle.cos)(step_angle(circle, i - 256)) == (circle.sin)(step_angle(circle, i)),
{
    let p = circle.pi;
    let x = (i - 256) as real;
    let ir = i as real;
    assert(2 as real * p * x / (1024 as real) == 2 as real * p * ir / (1024 as real) - p / (
    2 as real)) by (nonlinear_arith)
        requires
            x == ir - 256 as real,
    ;
    law_circle(circle, step_angle(circle, i));
}

/// What lies between two slots of the cosine table.
proof fn lemma_exact_between<N: Narrow>(
    value: spec_fn(N) -> real,
    wide_value: spec_fn(N::Wide) -> real,
    circle: Circle,
    tables: GeoTables<N>,
    slot: int,
    y: N,
    i: usize,
    r: N,
)
    requires
        is_exact_narrow(value, wide_value, circle),
        tables.is_filled(),
        0 <= slot < 1024,
        between(tables.cos(), slot, Expr::Value(y).minus(Expr::Whole(i as u64))).gives(r),
    ensures
        value(r) == chord(
            (circle.cos)(step_angle(circle, slot)),
            (circle.cos)(step_angle(circle, slot + 1)),
            value(y) - i as int as real,
        ),
{
    reveal_with_fuel(means, 5);
    reveal_with_fuel(is_plain, 5);
    law_exact_cosine_table(value, wide_value, circle, tables, slot);
    law_exact_cosine_table(value, wide_value, circle, tables, slot + 1);
    law_exact_expression(
        value,
        circle,
        between(tables.cos(), slot, Expr::Value(y).minus(Expr::Whole(i as u64))),
        r,
    );
}

/// The lookup of the cosine gives the cosine on the chord between two steps.
pub proof fn lemma_exact_fast_cos<N: Narrow>(
    value: spec_fn(N) -> real,
    wide_value: spec_fn(N::Wide) -> real,
    circle: Circle,
    tables: GeoTables<N>,
    e: Expr<N>,
    s: real,
    r: N,
)
    requires
        is_exact_narrow(value, wide_value, circle),
        circle.is_round(),
        tables.is_filled(),
        is_plain(e, value, circle),
        s * circle.pi == size(means(e, value, circle)) * (512 as real),
        s < 0x1_0000_0000 as real,
    ensures
        fast_cos_gives(tables, e, r) ==> value(r) == table_cos(circle, s),
        fast_sin_gives(tables, e, r) ==> value(r) == table_sin(circle, s),
{
    if fast_cos_gives(tables, e, r) {
        let (y, i) = choose|y: N, i: usize|
            {
                &&& steps(e).gives(y)
                &&& #[trigger] call_ensures(N::to_index, (y,), i)
                &&& between(
                    tables.cos(),
                    cos_slot(i as int),
                    Expr::Value(y).minus(Expr::Whole(i as u64)),
                ).gives(r)
            };
        lemma_exact_steps(value, circle, e, y);
        lemma_cancel(value(y), s, circle.pi);
        let slot = cos_slot(i as int);
        let k = i as int / 1024;
        assert(i == slot + 1024 * k && 0 <= slot < 1024);
        lemma_exact_between(value, wide_value, circle, tables, slot, y, i, r);
        lemma_turned_step(circle, slot, k);
        lemma_turned_step(circle, slot + 1, k);
        assert(slot + 1 + 1024 * k == i + 1);
    }
    if fast_sin_gives(tables, e, r) {
        let (y, i) = choose|y: N, i: usize|
            {
                &&& steps(e).gives(y)
                &&& #[trigger] call_ensures(N::to_index, (y,), i)
                &&& between(
                    tables.cos(),
                    sin_slot(i as int),
                    Expr::Value(y).minus(Expr::Whole(i as u64)),
                ).gives(r)
            };
        lemma_exact_steps(value, circle, e, y);
        lemma_cancel(value(y), s, circle.pi);
        let slot = sin_slot(i as int);
        let k = (i - 256) / 1024;
        assert(i - 256 == slot + 1024 * k && 0 <= slot < 1024);
        lemma_exact_between(value, wide_value, circle, tables, slot, y, i, r);
        lemma_turned_step(circle, slot, k);
        lemma_turned_step(circle, slot + 1, k);
        assert(slot + 1 + 1024 * k == i + 1 - 256);
        lemma_quarter_step(circle, i as int);
        lemma_quarter_step(circle, i + 1);
    }
}

/// The lookup of the cosine gives the cosine on the chord between the two steps of the
/// circle around the angle. The angle is `s` steps long, of which 512 are half a turn.
pub proof fn law_exact_fast_cos<N: Narrow>(
    value: spec_fn(N) -> real,
    wide_value: spec_fn(N::Wide) -> real,
    circle: Circle,
    tables: GeoTables<N>,
    x: N,
    s: real,
    r: N,
)
    requires
        is_exact_narrow(value, wide_value, circle),
        circle.is_round(),
        tables.is_filled(),
        s * circle.pi == size(value(x)) * (512 as real),
        s < 0x1_0000_0000 as real,
        call_ensures(geodist_fast_cos::<N>, (&tables, x), r),
    ensures
        value(r) == table_cos(circle, s),
{
    assert(means(Expr::Value(x), value, circle) == value(x));
    lemma_exact_fast_cos(value, wide_value, circle, tables, Expr::Value(x), s, r);
}

/// The lookup of the sine gives the sine on the chord between the two steps of the circle
/// around the angle. The angle is `s` steps long, of which 512 are half a turn.
pub proof fn law_exact_fast_sin<N: Narrow>(
    value: spec_fn(N) -> real,
    wide_value: spec_fn(N::Wide) -> real,
    circle: Circle,
    tables: GeoTables<N>,
    x: N,
    s: real,
    r: N,
)
    requires
        is_exact_narrow(value, wide_value, circle),
        circle.is_round(),
        tables.is_filled(),
        s * circle.pi == size(value(x)) * (512 as real),
        s < 0x1_0000_0000 as real,
        call_ensures(geodist_fast_sin::<N>, (&tables, x), r),
    ensures
        value(r) == table_sin(circle, s),
{
    assert(means(Expr::Value(x), value, circle) == value(x));
    lemma_exact_fast_cos(value, wide_value, circle, tables, Expr::Value(x), s, r);
}

/// The size of an angle in degrees, the short way round.
pub open spec fn short_way(f: real) -> real {
    if size(f) > 180 as real {
        360 as real - size(f)
    } else {
        size(f)
    }
}

/// The difference of angles is taken the short way round.
pub proof fn lemma_exact_deg_diff<R: Real>(
    value: spec_fn(R) -> real,
    circle: Circle,
    e: Expr<R>,
    r: R,
)
    requires
        is_exact(value, circle),
        is_plain(e, value, circle),
        deg_diff_gives(e, r),
    ensures
        value(r) == short_way(means(e, value, circle)),
{
    reveal_with_fuel(means, 3);
    reveal_with_fuel(is_plain, 3);
    let m = choose|m: R|
        {
            &&& #[trigger] e.abs().gives(m)
            &&& {
                ||| Expr::Whole(180).less_gives(Expr::Value(m), true) && Expr::Whole(360).minus(
                    Expr::Value(m),
                ).gives(r)
                ||| Expr::Whole(180).less_gives(Expr::Value(m), false) && r == m
            }
        };
    law_exact_expression(value, circle, e.abs(), m);
    law_exact_comparison(value, circle, Expr::Whole(180), Expr::Value(m), true);
    law_exact_comparison(value, circle, Expr::Whole(180), Expr::Value(m), false);
    assert(means(Expr::<R>::Whole(180), value, circle) == 180 as real);
    if Expr::Whole(360).minus(Expr::Value(m)).gives(r) {
        law_exact_expression(value, circle, Expr::Whole(360).minus(Expr::Value(m)), r);
        assert(means(Expr::Whole(360).minus(Expr::Value(m)), value, circle) == 360 as real - value(
            m,
        ));
    }
}

/// Up to a full turn, the difference the short way round is between nothing and half a
/// turn, and is the given angle, forwards or backwards, or with a full turn added. Of
/// more than a full turn, one turn is taken off.
pub proof fn law_exact_deg_diff<R: Real>(value: spec_fn(R) -> real, circle: Circle, f: R, r: R)
    requires
        is_exact(value, circle),
        call_ensures(geodist_deg_diff::<R>, (f,), r),
    ensures
        -(360 as real) <= value(f) <= 360 as real ==> 0 as real <= value(r) <= 180 as real && (
        value(r) == value(f) || value(r) == -value(f) || value(r) == 360 as real - value(f)
            || value(r) == 360 as real + value(f)),
        value(f) > 360 as real ==> value(r) == 360 as real - value(f),
        value(f) < -(360 as real) ==> value(r) == 360 as real + value(f),
{
    assert(means(Expr::Value(f), value, circle) == value(f));
    lemma_exact_deg_diff(value, circle, Expr::Value(f), r);
}

/// `h` is the arcsine of the root of `a` as the lookup has it. Below 0.122 it is the sum of
/// the first four terms of the series. From there to 0.948 it lies on the chord between
/// the two angles up to a right one whose squared sines are the steps of 512 around `a`.
/// Above, it is the angle up to a right one whose squared sine is `a`.
pub open spec fn is_table_arcsine(circle: Circle, a: real, h: real) -> bool {
    if a < 122 as real / (1000 as real) {
        a >= 0 as real ==> exists|y: real|
            #[trigger] is_root(y, a) && h == y + a * y * (166666666666666 as real / (
            1000000000000000 as real)) + a * a * y * (75 as real / (1000 as real)) + a * a * a * y
                * (44642857142857 as real / (1000000000000000 as real))
    } else if a < 948 as real / (1000 as real) {
        let s = a * (512 as real);
        let i = s.floor();
        exists|low: real, high: real|
            {
                &&& #[trigger] is_angle_of_squared_sine(circle, low, i as real / (512 as real))
                &&& #[trigger] is_angle_of_squared_sine(
                    circle,
                    high,
                    (i + 1) as real / (512 as real),
                )
                &&& h == chord(low, high, s - i as real)
            }
    } else {
        a <= 1 as real ==> is_angle_of_squared_sine(circle, h, a)
    }
}

/// The angle is not more than a right one and has the given number as the square of its
/// sine.
pub open spec fn is_angle_of_squared_sine(circle: Circle, h: real, a: real) -> bool {
    &&& 0 as real <= h <= circle.pi / (2 as real)
    &&& (circle.sin)(h) * (circle.sin)(h) == a
}

/// The lookup of the arcsine of a root gives it as the table has it.
pub proof fn lemma_exact_asin_sqrt<N: Narrow>(
    value: spec_fn(N) -> real,
    wide_value: spec_fn(N::Wide) -> real,
    circle: Circle,
    tables: GeoTables<N>,
    x: N,
    r: Option<N>,
)
    requires
        is_exact_narrow(value, wide_value, circle),
        tables.is_filled(),
        asin_sqrt_gives(tables, x, r),
    ensures
        value(x) >= 0 as real ==> r is Some,
        r is Some && value(x) >= 0 as real ==> is_table_arcsine(
            circle,
            value(x),
            value(r->Some_0),
        ),
{
    reveal_with_fuel(means, 3);
    reveal_with_fuel(is_plain, 3);
    let a = value(x);
    let e = Expr::Value(x);
    let low = decimal::<N>(122, 1000);
    let high = decimal::<N>(948, 1000);
    assert(means(low, value, circle) == 122 as real / (1000 as real));
    assert(means(high, value, circle) == 948 as real / (1000 as real));
    law_exact_comparison(value, circle, e, low, true);
    law_exact_comparison(value, circle, e, low, false);
    law_exact_comparison(value, circle, e, high, true);
    law_exact_comparison(value, circle, e, high, false);
    if a < 0 as real {
    } else if a < 122 as real / (1000 as real) {
        let wide = choose|wide: N::Wide| #[trigger]
            call_ensures(N::widen, (x,), wide) && narrowed(
                asin_sqrt_series(Expr::Value(wide)),
                r->Some_0,
            );
        lemma_exact_series(value, wide_value, circle, wide, r->Some_0);
    } else if a < 948 as real / (1000 as real) {
        let (y, i) = choose|y: N, i: usize|
            {
                &&& e.times(Expr::Whole(512)).gives(y)
                &&& #[trigger] call_ensures(N::to_index, (y,), i)
                &&& if i < 512 {
                    r matches Some(v) && between(
                        tables.asin_sqrt(),
                        i as int,
                        Expr::Value(y).minus(Expr::Whole(i as u64)),
                    ).gives(v)
                } else {
                    r is None
                }
            };
        law_exact_expression(value, circle, e.times(Expr::Whole(512)), y);
        assert(means(e.times(Expr::Whole(512)), value, circle) == a * (512 as real));
        assert(i < 512);
        law_exact_arcsine_table(value, wide_value, circle, tables, i as int);
        law_exact_arcsine_table(value, wide_value, circle, tables, i + 1);
        lemma_exact_arcsine_chord(value, circle, tables, i as int, y, r->Some_0);
        assert(is_angle_of_squared_sine(
            circle,
            value(tables.asin_sqrt()[i as int]),
            i as int as real / (512 as real),
        ));
        assert(is_angle_of_squared_sine(
            circle,
            value(tables.asin_sqrt()[i + 1]),
            (i + 1) as real / (512 as real),
        ));
    } else {
        let v = r->Some_0;
        let y = choose|y: N| e.sqrt().gives(y) && #[trigger] call_ensures(N::asin, (y,), v);
        law_exact_root(value, circle, e, y);
        lemma_squares_are_ordered(1 as real, value(y));
    }
}

/// What lies between two slots of the table of arcsines.
proof fn lemma_exact_arcsine_chord<N: Narrow>(
    value: spec_fn(N) -> real,
    circle: Circle,
    tables: GeoTables<N>,
    i: int,
    y: N,
    v: N,
)
    requires
        is_exact(value, circle),
        0 <= i < 512,
        between(
            tables.asin_sqrt(),
            i,
            Expr::Value(y).minus(Expr::Whole(i as u64)),
        ).gives(v),
    ensures
        value(v) == chord(
            value(tables.asin_sqrt()[i]),
            value(tables.asin_sqrt()[i + 1]),
            value(y) - i as real,
        ),
{
    reveal_with_fuel(means, 5);
    reveal_with_fuel(is_plain, 5);
    law_exact_expression(
        value,
        circle,
        between(tables.asin_sqrt(), i, Expr::Value(y).minus(Expr::Whole(i as u64))),
        v,
    );
}

/// The series in exact numbers.
proof fn lemma_exact_series<N: Narrow>(
    value: spec_fn(N) -> real,
    wide_value: spec_fn(N::Wide) -> real,
    circle: Circle,
    wide: N::Wide,
    r: N,
)
    requires
        is_exact_narrow(value, wide_value, circle),
        wide_value(wide) >= 0 as real,
        narrowed(asin_sqrt_series(Expr::Value(wide)), r),
    ensures
        ({
            let a = wide_value(wide);
            exists|y: real|
                #[trigger] is_root(y, a) && value(r) == y + a * y * (166666666666666 as real / (
                1000000000000000 as real)) + a * a * y * (75 as real / (1000 as real)) + a * a * a
                    * y * (44642857142857 as real / (1000000000000000 as real))
        }),
{
    reveal_with_fuel(means, 7);
    reveal_with_fuel(is_plain, 7);
    let a = wide_value(wide);
    let x = Expr::Value(wide);
    let series = asin_sqrt_series(x);
    let k1 = decimal::<N::Wide>(166666666666666, 1000000000000000);
    let k2 = decimal::<N::Wide>(75, 1000);
    let k3 = decimal::<N::Wide>(44642857142857, 1000000000000000);
    assert(means(k1, wide_value, circle) == 166666666666666 as real / (1000000000000000 as real));
    assert(means(k2, wide_value, circle) == 75 as real / (1000 as real));
    assert(means(k3, wide_value, circle) == 44642857142857 as real / (1000000000000000 as real));
    let w = choose|w: N::Wide| series.gives(w) && #[trigger] call_ensures(N::narrow, (w,), r);
    let y = root(a);
    lemma_series_has_a_root(wide_value, circle, wide, w);
    assert(is_plain(series, wide_value, circle));
    law_exact_expression(wide_value, circle, series, w);
    let t1 = x.times(x.sqrt()).times(k1);
    let t2 = x.times(x).times(x.sqrt()).times(k2);
    let t3 = x.times(x).times(x).times(x.sqrt()).times(k3);
    assert(series == x.sqrt().plus(t1).plus(t2).plus(t3));
    assert(means(x.sqrt(), wide_value, circle) == y);
    lemma_same_factor(a * y, means(k1, wide_value, circle), 166666666666666 as real / (
    1000000000000000 as real));
    assert(means(t1, wide_value, circle) == a * y * (166666666666666 as real / (
    1000000000000000 as real)));
    lemma_same_factor(a * a * y, means(k2, wide_value, circle), 75 as real / (1000 as real));
    assert(means(t2, wide_value, circle) == a * a * y * (75 as real / (1000 as real)));
    lemma_same_factor(a * a * a * y, means(k3, wide_value, circle), 44642857142857 as real / (
    1000000000000000 as real));
    assert(means(t3, wide_value, circle) == a * a * a * y * (44642857142857 as real / (
    1000000000000000 as real)));
    assert(is_root(y, a));
}

/// Where the series was worked out, its root was.
proof fn lemma_series_has_a_root<R: Real>(
    value: spec_fn(R) -> real,
    circle: Circle,
    x: R,
    w: R,
)
    requires
        is_exact(value, circle),
        value(x) >= 0 as real,
        asin_sqrt_series(Expr::Value(x)).gives(w),
    ensures
        is_root(root(value(x)), value(x)),
{
    let e = Expr::Value(x);
    let first = e.sqrt().plus(
        e.times(e.sqrt()).times(decimal(166666666666666, 1000000000000000)),
    );
    let second = first.plus(e.times(e).times(e.sqrt()).times(decimal(75, 1000)));
    let last = e.times(e).times(e).times(e.sqrt()).times(
        decimal(44642857142857, 1000000000000000),
    );
    assert(asin_sqrt_series(e) == second.plus(last));
    let (p, q) = choose|p: R, q: R|
        second.gives(p) && last.gives(q) && #[trigger] call_ensures(R::plus, (p, q), w);
    let (p1, q1) = choose|p1: R, q1: R|
        first.gives(p1) && e.times(e).times(e.sqrt()).times(decimal(75, 1000)).gives(q1)
            && #[trigger] call_ensures(R::plus, (p1, q1), p);
    let (y, q2) = choose|y: R, q2: R|
        e.sqrt().gives(y) && e.times(e.sqrt()).times(
            decimal(166666666666666, 1000000000000000),
        ).gives(q2) && #[trigger] call_ensures(R::plus, (y, q2), p1);
    assert(means(e, value, circle) == value(x));
    law_exact_root(value, circle, e, y);
    lemma_root(value(y), value(x));
}

/// The lookup of the arcsine of a root gives a value for every number from nothing on, by
/// the series, by the table or by the arcsine itself.
pub proof fn law_exact_fast_asin_sqrt<N: Narrow>(
    value: spec_fn(N) -> real,
    wide_value: spec_fn(N::Wide) -> real,
    circle: Circle,
    tables: GeoTables<N>,
    x: N,
    r: Option<N>,
)
    requires
        is_exact_narrow(value, wide_value, circle),
        tables.is_filled(),
        value(x) >= 0 as real,
        call_ensures(geodist_fast_asin_sqrt::<N>, (&tables, x), r),
    ensures
        r is Some,
        is_table_arcsine(circle, value(x), value(r->Some_0)),
{
    lemma_exact_asin_sqrt(value, wide_value, circle, tables, x, r);
}

} // verus!
