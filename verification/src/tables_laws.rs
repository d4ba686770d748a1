//! What the lookup tables hold in exact numbers.

use vstd::prelude::*;

use crate::exact::{
    is_exact_narrow, is_plain, law_circle, law_exact_expression, law_exact_root,
    lemma_squares_are_ordered, means, Circle,
};
use crate::numeric::{decimal, narrowed, Expr, Narrow, Real};
use crate::tables::{
    asin_sqrt_entry, cos_entry, geo_dist_init, is_earth_diameter, is_sphere_meters_entry,
    is_wgs84_slot, latitude, sphere_entry, sphere_meters_entry, wgs84_latitude_entry,
    wgs84_longitude_entry, GeoTables,
};

verus! {

/// The angle of a step of the circle.
pub open spec fn step_angle(circle: Circle, i: int) -> real {
    2 as real * circle.pi * (i as real) / (1024 as real)
}

/// The angle between the south pole and a step on the way to the north pole.
pub open spec fn pole_angle(circle: Circle, i: int) -> real {
    i as real * (circle.pi / (1024 as real))
}

/// Narrowing an exact number keeps it.
proof fn lemma_exact_narrowed<N: Narrow>(
    value: spec_fn(N) -> real,
    wide_value: spec_fn(N::Wide) -> real,
    circle: Circle,
    e: Expr<N::Wide>,
    r: N,
)
    requires
        is_exact_narrow(value, wide_value, circle),
        is_plain(e, wide_value, circle),
        narrowed(e, r),
    ensures
        value(r) == means(e, wide_value, circle),
{
    let w = choose|w: N::Wide| e.gives(w) && #[trigger] call_ensures(N::narrow, (w,), r);
    law_exact_expression(wide_value, circle, e, w);
}

/// Narrowing an exact root keeps it.
proof fn lemma_exact_narrowed_root<N: Narrow>(
    value: spec_fn(N) -> real,
    wide_value: spec_fn(N::Wide) -> real,
    circle: Circle,
    e: Expr<N::Wide>,
    r: N,
)
    requires
        is_exact_narrow(value, wide_value, circle),
        is_plain(e, wide_value, circle),
        means(e, wide_value, circle) >= 0 as real,
        narrowed(e.sqrt(), r),
    ensures
        value(r) >= 0 as real,
        value(r) * value(r) == means(e, wide_value, circle),
{
    let w = choose|w: N::Wide| e.sqrt().gives(w) && #[trigger] call_ensures(N::narrow, (w,), r);
    law_exact_root(wide_value, circle, e, w);
}

/// The cosine table holds the cosines of the steps of the circle.
pub proof fn law_exact_cosine_table<N: Narrow>(
    value: spec_fn(N) -> real,
    wide_value: spec_fn(N::Wide) -> real,
    circle: Circle,
    tables: GeoTables<N>,
    i: int,
)
    requires
        is_exact_narrow(value, wide_value, circle),
        tables.is_filled(),
        0 <= i <= 1024,
    ensures
        value(tables.cos()[i]) == (circle.cos)(step_angle(circle, i)),
{
    reveal_with_fuel(means, 6);
    reveal_with_fuel(is_plain, 6);
    assert(narrowed(cos_entry(i), tables.cos()[i]));
    lemma_exact_narrowed(value, wide_value, circle, cos_entry(i), tables.cos()[i]);
}

/// The table of arcsines holds the angles up to a right one whose squared sines are the
/// steps of the unit interval.
pub proof fn law_exact_arcsine_table<N: Narrow>(
    value: spec_fn(N) -> real,
    wide_value: spec_fn(N::Wide) -> real,
    circle: Circle,
    tables: GeoTables<N>,
    i: int,
)
    requires
        is_exact_narrow(value, wide_value, circle),
        tables.is_filled(),
        0 <= i <= 512,
    ensures
        0 as real <= value(tables.asin_sqrt()[i]) <= circle.pi / (2 as real),
        (circle.sin)(value(tables.asin_sqrt()[i])) * (circle.sin)(value(tables.asin_sqrt()[i]))
            == i as real / (512 as real),
{
    reveal_with_fuel(means, 6);
    reveal_with_fuel(is_plain, 6);
    let r = tables.asin_sqrt()[i];
    assert(narrowed(asin_sqrt_entry(i), r));
    let part = Expr::<N::Wide>::Whole(i as u64).over(Expr::Whole(512));
    assert(asin_sqrt_entry::<N::Wide>(i) == part.sqrt().asin());
    let w = choose|w: N::Wide|
        part.sqrt().asin().gives(w) && #[trigger] call_ensures(N::narrow, (w,), r);
    let y = choose|y: N::Wide|
        part.sqrt().gives(y) && #[trigger] call_ensures(<N::Wide as Real>::asin, (y,), w);
    assert(means(part, wide_value, circle) == i as real / (512 as real));
    law_exact_root(wide_value, circle, part, y);
    lemma_squares_are_ordered(1 as real, wide_value(y));
}

/// The factors of longitude on the sphere are the squared sines of the angle from the
/// pole, and in meters they are that times the squared length of a degree.
pub proof fn law_exact_sphere_tables<N: Narrow>(
    value: spec_fn(N) -> real,
    wide_value: spec_fn(N::Wide) -> real,
    circle: Circle,
    tables: GeoTables<N>,
    i: int,
)
    requires
        is_exact_narrow(value, wide_value, circle),
        circle.is_round(),
        tables.is_filled(),
        0 <= i <= 1024,
    ensures
        value(tables.sphere()[i]) == (circle.sin)(pole_angle(circle, i)) * (circle.sin)(
            pole_angle(circle, i),
        ),
        ({
            let meters = value(tables.earth_diameter()) * circle.pi / (360 as real) * (circle.sin)(
                pole_angle(circle, i),
            );
            value(tables.sphere_meters()[i]) == meters * meters
        }),
{
    reveal_with_fuel(means, 8);
    reveal_with_fuel(is_plain, 8);
    lemma_exact_latitude::<N>(wide_value, circle, i);
    assert(narrowed(sphere_entry(i), tables.sphere()[i]));
    lemma_exact_narrowed(value, wide_value, circle, sphere_entry(i), tables.sphere()[i]);
    let d = tables.earth_diameter();
    let r = tables.sphere_meters()[i];
    assert(is_sphere_meters_entry(d, i, r));
    let wide = choose|wide: N::Wide| #[trigger]
        call_ensures(N::widen, (d,), wide) && narrowed(sphere_meters_entry(wide, i), r);
    lemma_exact_narrowed(value, wide_value, circle, sphere_meters_entry(wide, i), r);
}

/// The latitude of a step is its angle from the pole, less a right angle.
proof fn lemma_exact_latitude<N: Narrow>(
    wide_value: spec_fn(N::Wide) -> real,
    circle: Circle,
    i: int,
)
    requires
        circle.is_round(),
        0 <= i <= 1024,
    ensures
        is_plain(latitude::<N::Wide>(i), wide_value, circle),
        means(latitude::<N::Wide>(i), wide_value, circle) == pole_angle(circle, i) - circle.pi / (
        2 as real),
        (circle.cos)(pole_angle(circle, i) - circle.pi / (2 as real)) == (circle.sin)(
            pole_angle(circle, i),
        ),
{
    reveal_with_fuel(means, 5);
    reveal_with_fuel(is_plain, 5);
    let step = Expr::<N::Wide>::Pi.over(Expr::Whole(1024));
    let half = decimal::<N::Wide>(5, 10);
    assert(means(step, wide_value, circle) == circle.pi / (1024 as real));
    assert(means(half, wide_value, circle) == 5 as real / (10 as real));
    assert(means(Expr::<N::Wide>::Pi.times(half), wide_value, circle) == circle.pi * (5 as real / (
    10 as real)));
    assert(circle.pi * (5 as real / (10 as real)) == circle.pi / (2 as real));
    assert(latitude::<N::Wide>(i) == Expr::<N::Wide>::Whole(i as u64).times(step).minus(
        Expr::Pi.times(half),
    ));
    law_circle(circle, pole_angle(circle, i));
}

/// Each step has two slots of the WGS84 table: the root of its factor of latitude, and the
/// root of its factor of longitude.
pub proof fn law_exact_wgs84_table<N: Narrow>(
    value: spec_fn(N) -> real,
    wide_value: spec_fn(N::Wide) -> real,
    circle: Circle,
    tables: GeoTables<N>,
    i: int,
)
    requires
        is_exact_narrow(value, wide_value, circle),
        circle.is_round(),
        tables.is_filled(),
        0 <= i <= 1024,
    ensures
        ({
            let phi = pole_angle(circle, i) - circle.pi / (2 as real);
            let lat = 11113209 as real / (100 as real) - 56605 as real / (100 as real) * (
            circle.cos)(2 as real * phi) + 120 as real / (100 as real) * (circle.cos)(
                4 as real * phi,
            );
            let lon = 11141513 as real / (100 as real) * (circle.cos)(phi) - 9455 as real / (
            100 as real) * (circle.cos)(3 as real * phi) + 12 as real / (100 as real) * (
            circle.cos)(5 as real * phi);
            let v = value(tables.wgs84()[2 * i]);
            let w = value(tables.wgs84()[2 * i + 1]);
            &&& lat >= 0 as real ==> v >= 0 as real && v * v == lat
            &&& lon >= 0 as real ==> w >= 0 as real && w * w == lon
        }),
{
    reveal_with_fuel(means, 8);
    reveal_with_fuel(is_plain, 8);
    lemma_exact_latitude::<N>(wide_value, circle, i);
    let phi = latitude::<N::Wide>(i);
    let lat = decimal(11113209, 100).minus(
        decimal(56605, 100).times(Expr::Whole(2).times(phi).cos()),
    ).plus(decimal(120, 100).times(Expr::Whole(4).times(phi).cos()));
    let lon = decimal(11141513, 100).times(phi.cos()).minus(
        decimal(9455, 100).times(Expr::Whole(3).times(phi).cos()),
    ).plus(decimal(12, 100).times(Expr::Whole(5).times(phi).cos()));
    assert(wgs84_latitude_entry::<N::Wide>(i) == lat.sqrt());
    assert(wgs84_longitude_entry::<N::Wide>(i) == lon.sqrt());
    assert(is_wgs84_slot(2 * i, tables.wgs84()[2 * i]));
    assert(is_wgs84_slot(2 * i + 1, tables.wgs84()[2 * i + 1]));
    assert(is_plain(lat, wide_value, circle));
    assert(is_plain(lon, wide_value, circle));
    if means(lat, wide_value, circle) >= 0 as real {
        lemma_exact_narrowed_root(value, wide_value, circle, lat, tables.wgs84()[2 * i]);
    }
    if means(lon, wide_value, circle) >= 0 as real {
        lemma_exact_narrowed_root(value, wide_value, circle, lon, tables.wgs84()[2 * i + 1]);
    }
}

/// A degree is a part of a half turn, and the earth's diameter is twice its authalic
/// radius of 6371007.180918475 meters.
pub proof fn law_exact_constants<N: Narrow>(
    value: spec_fn(N) -> real,
    wide_value: spec_fn(N::Wide) -> real,
    circle: Circle,
    tables: GeoTables<N>,
)
    requires
        is_exact_narrow(value, wide_value, circle),
        tables.is_filled(),
    ensures
        180 as real * value(tables.degree()) == circle.pi,
        360 as real * value(tables.half_degree()) == circle.pi,
        value(tables.earth_diameter()) * (1000000000 as real) == 2 as real * (
        6371007180918475 as real),
{
    reveal_with_fuel(means, 4);
    reveal_with_fuel(is_plain, 4);
    let one = Expr::<N::Wide>::Pi.over(Expr::Whole(180));
    let half = Expr::<N::Wide>::Pi.over(Expr::Whole(360));
    assert(means(one, wide_value, circle) == circle.pi / (180 as real));
    assert(means(half, wide_value, circle) == circle.pi / (360 as real));
    lemma_exact_narrowed(value, wide_value, circle, one, tables.degree());
    lemma_exact_narrowed(value, wide_value, circle, half, tables.half_degree());
    let d = tables.earth_diameter();
    let meters = decimal::<N::Wide>(6371007180918475, 1000000000);
    assert(means(meters, wide_value, circle) == 6371007180918475 as real / (1000000000 as real));
    assert(is_earth_diameter(d));
    let radius = choose|radius: N|
        #[trigger] narrowed(decimal(6371007180918475, 1000000000), radius) && Expr::Whole(2).times(
            Expr::Value(radius),
        ).gives(d);
    lemma_exact_narrowed(
        value,
        wide_value,
        circle,
        decimal(6371007180918475, 1000000000),
        radius,
    );
    let twice = Expr::Whole(2).times(Expr::Value(radius));
    law_exact_expression(value, circle, twice, d);
    assert(means(twice, value, circle) == 2 as real * value(radius));
}

/// The tables that are computed are full.
pub proof fn law_computed_tables_are_filled<N: Narrow>(tables: GeoTables<N>)
    requires
        call_ensures(geo_dist_init::<N>, (), tables),
    ensures
        tables.is_filled(),
        tables.cos().len() == 1025,
        tables.asin_sqrt().len() == 513,
        tables.sphere().len() == 1025,
        tables.sphere_meters().len() == 1025,
        tables.wgs84().len() == 2050,
{
}

} // verus!
