//! What the distances are in exact numbers.

use vstd::prelude::*;

use crate::distance::{
    angle_unit, asin_sqrt_gives, checked_distance, deg_diff_gives, distance,
    distance_gives, fast_cos_gives, fast_sin_gives, flat_gives, geo_distance, great_circle_angle,
    great_circle_distance, great_circle_gives, haversine, latitude_factor, longitude_factor,
    midpoint, wide_distance, wide_distance_gives, GeoMethod,
};
use crate::exact::{
    angles, is_exact, is_exact_narrow, is_plain, is_root, law_circle, law_exact_comparison,
    law_exact_expression, law_exact_quotient, law_exact_root, law_full_turn, law_half_angle,
    lemma_distribute, lemma_distribute_difference, lemma_negate, lemma_regroup, lemma_same_factor,
    lemma_scale, lemma_swap_factors, lemma_zero, means, size, Circle,
};
use crate::lookup_laws::{
    chord, is_table_arcsine, lemma_exact_asin_sqrt, lemma_exact_deg_diff, lemma_exact_fast_cos,
    short_way, table_cos, table_sin,
};
use crate::numeric::{Expr, Narrow, Real};
use crate::tables::GeoTables;
use crate::tables_laws::{
    law_exact_constants, law_exact_sphere_tables, pole_angle, step_angle,
};

verus! {

/// How many steps of a circle of 1024 steps an angle in degrees is long.
pub open spec fn steps_of(degrees: real) -> real {
    degrees * (1024 as real) / (360 as real)
}

/// The squared sine of half the angle between two points, by the sines and cosines of the
/// table: that of half the difference of latitude, and that of half the difference of
/// longitude times the cosines of both latitudes.
pub open spec fn table_haversine(
    circle: Circle,
    lat1: real,
    lat2: real,
    dlat: real,
    dlon: real,
) -> real {
    let sin_lat = table_sin(circle, steps_of(dlat / (2 as real)));
    let sin_lon = table_sin(circle, steps_of(dlon / (2 as real)));
    sin_lat * sin_lat + table_cos(circle, steps_of(size(lat1))) * table_cos(
        circle,
        steps_of(size(lat2)),
    ) * (sin_lon * sin_lon)
}

/// `r` is the distance to which the angle `2 * h` in radians belongs: in degrees, or in
/// meters on a sphere of the given diameter.
pub open spec fn is_arc(
    circle: Circle,
    diameter: real,
    method: GeoMethod,
    h: real,
    r: real,
) -> bool {
    match method {
        GeoMethod::SphereDegrees => r * circle.pi == 360 as real * h,
        GeoMethod::SphereMeters => r == diameter * h,
        GeoMethod::Wgs84Meters => r == diameter * h,
    }
}

/// The weight of a difference of latitude after `s` of the 1024 steps between the poles.
pub open spec fn latitude_weight<N: Narrow>(
    value: spec_fn(N) -> real,
    circle: Circle,
    tables: GeoTables<N>,
    method: GeoMethod,
    s: real,
) -> real {
    let i = s.floor();
    let degree = value(tables.earth_diameter()) * circle.pi / (360 as real);
    match method {
        GeoMethod::SphereDegrees => 1 as real,
        GeoMethod::SphereMeters => degree * degree,
        GeoMethod::Wgs84Meters => chord(
            value(tables.wgs84()[2 * i]),
            value(tables.wgs84()[2 * i + 2]),
            s - i as real,
        ),
    }
}

/// The weight of a difference of longitude after `s` of the 1024 steps between the poles.
pub open spec fn longitude_weight<N: Narrow>(
    value: spec_fn(N) -> real,
    circle: Circle,
    tables: GeoTables<N>,
    method: GeoMethod,
    s: real,
) -> real {
    let i = s.floor();
    let degree = value(tables.earth_diameter()) * circle.pi / (360 as real);
    let low = (circle.sin)(pole_angle(circle, i));
    let high = (circle.sin)(pole_angle(circle, i + 1));
    match method {
        GeoMethod::SphereDegrees => chord(low * low, high * high, s - i as real),
        GeoMethod::SphereMeters => chord(
            degree * low * (degree * low),
            degree * high * (degree * high),
            s - i as real,
        ),
        GeoMethod::Wgs84Meters => chord(
            value(tables.wgs84()[2 * i + 1]),
            value(tables.wgs84()[2 * i + 3]),
            s - i as real,
        ),
    }
}

/// `r` is the distance between two points: as on a plane, with the weights of the middle
/// latitude, where they are less than 13 degrees of longitude apart; along the great
/// circle otherwise.
pub open spec fn is_distance<N: Narrow>(
    value: spec_fn(N) -> real,
    circle: Circle,
    tables: GeoTables<N>,
    lon1: real,
    lat1: real,
    lon2: real,
    lat2: real,
    method: GeoMethod,
    r: real,
) -> bool {
    let dlat = short_way(lat1 - lat2);
    let dlon = short_way(lon1 - lon2);
    if dlon < 13 as real {
        let s = (lat1 + lat2 + 180 as real) * (1024 as real) / (360 as real);
        let square = latitude_weight(value, circle, tables, method, s) * dlat * dlat
            + longitude_weight(value, circle, tables, method, s) * dlon * dlon;
        square >= 0 as real ==> is_root(r, square)
    } else {
        let a = table_haversine(circle, lat1, lat2, dlat, dlon);
        a >= 0 as real ==> exists|h: real| #[trigger]
            is_table_arcsine(circle, a, h) && is_arc(
                circle,
                value(tables.earth_diameter()),
                method,
                h,
                r,
            )
    }
}

/// The factors of the metric tables are the weights.
proof fn lemma_exact_factors<N: Narrow>(
    value: spec_fn(N) -> real,
    wide_value: spec_fn(N::Wide) -> real,
    circle: Circle,
    tables: GeoTables<N>,
    method: GeoMethod,
    m: N,
    i: usize,
)
    requires
        is_exact_narrow(value, wide_value, circle),
        circle.is_round(),
        tables.is_filled(),
        i < 1024,
        i == value(m).floor(),
    ensures
        ({
            let fraction = Expr::Value(m).minus(Expr::Whole(i as u64));
            let lat = latitude_factor(tables, method, i as int, fraction);
            let lon = longitude_factor(tables, method, i as int, fraction);
            &&& is_plain(lat, value, circle)
            &&& is_plain(lon, value, circle)
            &&& means(lat, value, circle) == latitude_weight(
                value,
                circle,
                tables,
                method,
                value(m),
            )
            &&& means(lon, value, circle) == longitude_weight(
                value,
                circle,
                tables,
                method,
                value(m),
            )
        }),
{
    reveal_with_fuel(means, 6);
    reveal_with_fuel(is_plain, 6);
    law_exact_sphere_tables(value, wide_value, circle, tables, i as int);
    law_exact_sphere_tables(value, wide_value, circle, tables, i + 1);
    let fraction = Expr::Value(m).minus(Expr::Whole(i as u64));
    assert(means(fraction, value, circle) == value(m) - i as int as real);
    match method {
        GeoMethod::SphereDegrees => {
            assert(means(Expr::<N>::Whole(1), value, circle) == 1 as real);
        },
        GeoMethod::SphereMeters => {
            let degree = Expr::Value(tables.earth_diameter()).times(Expr::Pi).over(
                Expr::Whole(360),
            );
            assert(means(degree, value, circle) == value(tables.earth_diameter()) * circle.pi / (
            360 as real));
            assert(is_plain(degree, value, circle));
        },
        GeoMethod::Wgs84Meters => {},
    }
}

/// The distance as on a plane.
proof fn lemma_exact_flat<N: Narrow>(
    value: spec_fn(N) -> real,
    wide_value: spec_fn(N::Wide) -> real,
    circle: Circle,
    tables: GeoTables<N>,
    lat1: N,
    lat2: N,
    dlat: N,
    dlon: N,
    method: GeoMethod,
    r: Option<N>,
)
    requires
        is_exact_narrow(value, wide_value, circle),
        circle.is_round(),
        tables.is_filled(),
        are_latitudes(value(lat1), value(lat2)),
        flat_gives(tables, lat1, lat2, dlat, dlon, method, r),
    ensures
        r is Some <==> value(lat1) + value(lat2) < 180 as real,
        r is Some ==> ({
            let s = (value(lat1) + value(lat2) + 180 as real) * (1024 as real) / (360 as real);
            let square = latitude_weight(value, circle, tables, method, s) * value(dlat) * value(
                dlat,
            ) + longitude_weight(value, circle, tables, method, s) * value(dlon) * value(dlon);
            square >= 0 as real ==> is_root(value(r->Some_0), square)
        }),
{
    let s = (value(lat1) + value(lat2) + 180 as real) * (1024 as real) / (360 as real);
    let (m, i) = choose|m: N, i: usize|
        {
            let fraction = Expr::Value(m).minus(Expr::Whole(i as u64));
            let x = Expr::Value(dlat);
            let y = Expr::Value(dlon);
            &&& midpoint(lat1, lat2).gives(m)
            &&& #[trigger] call_ensures(N::to_index, (m,), i)
            &&& if i < 1024 {
                r matches Some(v) && latitude_factor(tables, method, i as int, fraction).times(
                    x,
                ).times(x).plus(
                    longitude_factor(tables, method, i as int, fraction).times(y).times(y),
                ).sqrt().gives(v)
            } else {
                r is None
            }
        };
    lemma_exact_midpoint(value, circle, lat1, lat2, m);
    assert(value(m) == s);
    if i < 1024 {
        let fraction = Expr::Value(m).minus(Expr::Whole(i as u64));
        let x = Expr::Value(dlat);
        let y = Expr::Value(dlon);
        let lat = latitude_factor(tables, method, i as int, fraction);
        let lon = longitude_factor(tables, method, i as int, fraction);
        let e = lat.times(x).times(x).plus(lon.times(y).times(y));
        lemma_exact_factors(value, wide_value, circle, tables, method, m, i);
        assert(is_plain(e, value, circle) && means(e, value, circle) == means(lat, value, circle)
            * value(dlat) * value(dlat) + means(lon, value, circle) * value(dlon) * value(dlon))
            by {
            reveal_with_fuel(means, 4);
            reveal_with_fuel(is_plain, 4);
        }
        if means(e, value, circle) >= 0 as real {
            law_exact_root(value, circle, e, r->Some_0);
        }
    }
}

/// Where the middle of the latitudes lies between the poles.
proof fn lemma_exact_midpoint<R: Real>(
    value: spec_fn(R) -> real,
    circle: Circle,
    lat1: R,
    lat2: R,
    m: R,
)
    requires
        is_exact(value, circle),
        midpoint(lat1, lat2).gives(m),
    ensures
        value(m) == (value(lat1) + value(lat2) + 180 as real) * (1024 as real) / (360 as real),
{
    reveal_with_fuel(means, 6);
    reveal_with_fuel(is_plain, 6);
    let e = Expr::Value(lat1).plus(Expr::Value(lat2)).plus(Expr::Whole(180));
    assert(means(e, value, circle) == value(lat1) + value(lat2) + 180 as real);
    let t = e.times(Expr::Whole(1024));
    lemma_same_factor(
        means(e, value, circle),
        means(Expr::<R>::Whole(1024), value, circle),
        1024 as real,
    );
    assert(means(t, value, circle) == (value(lat1) + value(lat2) + 180 as real) * (1024 as real));
    let q = t.over(Expr::Whole(360));
    assert(midpoint(lat1, lat2) == q);
    assert(is_plain(q, value, circle));
    law_exact_expression(value, circle, q, m);
    assert(means(q, value, circle) == means(t, value, circle) / (360 as real));
}

/// An angle in degrees, brought to radians, is as many steps long as in degrees.
proof fn lemma_degrees(d: real, unit: real, parts: real, pi: real)
    requires
        unit * parts == pi,
        parts > 0 as real,
        pi > 0 as real,
    ensures
        size(d * unit) * parts == size(d) * pi,
{
    lemma_scale(unit, 0 as real, parts);
    lemma_zero(parts);
    assert(unit > 0 as real);
    lemma_scale(0 as real, d, unit);
    lemma_scale(d, 0 as real, unit);
    lemma_zero(unit);
    lemma_regroup(d, unit, parts);
    lemma_same_factor(d, unit * parts, pi);
    lemma_negate(d, pi);
    lemma_negate(d * unit, parts);
    lemma_negate(d, unit);
    if d * unit < 0 as real {
        assert(d < 0 as real);
    } else if d < 0 as real {
        assert(d * unit == 0 as real);
        lemma_zero(parts);
    }
}

/// The great-circle distance.
proof fn lemma_exact_great_circle<N: Narrow>(
    value: spec_fn(N) -> real,
    wide_value: spec_fn(N::Wide) -> real,
    circle: Circle,
    tables: GeoTables<N>,
    lat1: N,
    lat2: N,
    dlat: N,
    dlon: N,
    method: GeoMethod,
    r: Option<N>,
)
    requires
        is_exact_narrow(value, wide_value, circle),
        circle.is_round(),
        tables.is_filled(),
        are_latitudes(value(lat1), value(lat2)),
        0 as real <= value(dlat) <= 180 as real,
        0 as real <= value(dlon) <= 180 as real,
        great_circle_gives(tables, lat1, lat2, dlat, dlon, method, r),
    ensures
        ({
            let a = table_haversine(circle, value(lat1), value(lat2), value(dlat), value(dlon));
            a >= 0 as real ==> r is Some && exists|h: real| #[trigger]
                is_table_arcsine(circle, a, h) && is_arc(
                    circle,
                    value(tables.earth_diameter()),
                    method,
                    h,
                    value(r->Some_0),
                )
        }),
{
    let e_lat = Expr::Value(dlat).times(Expr::Value(tables.half_degree()));
    let e_lon = Expr::Value(dlon).times(Expr::Value(tables.half_degree()));
    let e1 = Expr::Value(lat1).times(Expr::Value(tables.degree()));
    let e2 = Expr::Value(lat2).times(Expr::Value(tables.degree()));
    let (sin_lat, cos1, cos2, sin_lon, a, half) = choose|
        sin_lat: N,
        cos1: N,
        cos2: N,
        sin_lon: N,
        a: N,
        half: Option<N>,
    |
        {
            &&& #[trigger] fast_sin_gives(tables, e_lat, sin_lat)
            &&& #[trigger] fast_cos_gives(tables, e1, cos1)
            &&& #[trigger] fast_cos_gives(tables, e2, cos2)
            &&& #[trigger] fast_sin_gives(tables, e_lon, sin_lon)
            &&& haversine(sin_lat, cos1, cos2, sin_lon).gives(a)
            &&& #[trigger] asin_sqrt_gives(tables, a, half)
            &&& match half {
                Some(h) => r matches Some(v) && angle_unit(tables, method).times(
                    Expr::Value(h),
                ).gives(v),
                None => r is None,
            }
        };
    law_exact_constants(value, wide_value, circle, tables);
    lemma_exact_half_sine(value, wide_value, circle, tables, dlat, sin_lat);
    lemma_exact_half_sine(value, wide_value, circle, tables, dlon, sin_lon);
    lemma_exact_degree_cosine(value, wide_value, circle, tables, lat1, cos1);
    lemma_exact_degree_cosine(value, wide_value, circle, tables, lat2, cos2);
    assert(is_plain(haversine(sin_lat, cos1, cos2, sin_lon), value, circle) && means(
        haversine(sin_lat, cos1, cos2, sin_lon),
        value,
        circle,
    ) == value(sin_lat) * value(sin_lat) + value(cos1) * value(cos2) * (value(sin_lon) * value(
        sin_lon,
    ))) by {
        reveal_with_fuel(means, 5);
        reveal_with_fuel(is_plain, 5);
    }
    law_exact_expression(value, circle, haversine(sin_lat, cos1, cos2, sin_lon), a);
    lemma_exact_asin_sqrt(value, wide_value, circle, tables, a, half);
    if value(a) >= 0 as real {
        lemma_exact_arc(value, circle, tables, method, half->Some_0, r->Some_0);
        assert(is_table_arcsine(circle, value(a), value(half->Some_0)));
    }
}

/// The sine of half an angle in degrees.
proof fn lemma_exact_half_sine<N: Narrow>(
    value: spec_fn(N) -> real,
    wide_value: spec_fn(N::Wide) -> real,
    circle: Circle,
    tables: GeoTables<N>,
    d: N,
    r: N,
)
    requires
        is_exact_narrow(value, wide_value, circle),
        circle.is_round(),
        tables.is_filled(),
        0 as real <= value(d) <= 180 as real,
        fast_sin_gives(tables, Expr::Value(d).times(Expr::Value(tables.half_degree())), r),
    ensures
        value(r) == table_sin(circle, steps_of(value(d) / (2 as real))),
{
    let e = Expr::Value(d).times(Expr::Value(tables.half_degree()));
    let unit = value(tables.half_degree());
    law_exact_constants(value, wide_value, circle, tables);
    lemma_degrees(value(d), unit, 360 as real, circle.pi);
    assert(is_plain(e, value, circle) && means(e, value, circle) == value(d) * unit) by {
        reveal_with_fuel(means, 3);
        reveal_with_fuel(is_plain, 3);
    }
    let s = steps_of(value(d) / (2 as real));
    assert(s == value(d) * (512 as real) / (360 as real));
    lemma_scaled_steps(value(d), s, circle.pi, 360 as real);
    assert(s * circle.pi * (360 as real) == value(d) * circle.pi * (512 as real));
    assert(s * circle.pi == size(value(d) * unit) * (512 as real));
    lemma_exact_fast_cos(value, wide_value, circle, tables, e, s, r);
}

/// The cosine of an angle in degrees.
proof fn lemma_exact_degree_cosine<N: Narrow>(
    value: spec_fn(N) -> real,
    wide_value: spec_fn(N::Wide) -> real,
    circle: Circle,
    tables: GeoTables<N>,
    d: N,
    r: N,
)
    requires
        is_exact_narrow(value, wide_value, circle),
        circle.is_round(),
        tables.is_filled(),
        -(180 as real) <= value(d) <= 180 as real,
        fast_cos_gives(tables, Expr::Value(d).times(Expr::Value(tables.degree())), r),
    ensures
        value(r) == table_cos(circle, steps_of(size(value(d)))),
{
    let e = Expr::Value(d).times(Expr::Value(tables.degree()));
    let unit = value(tables.degree());
    law_exact_constants(value, wide_value, circle, tables);
    lemma_degrees(value(d), unit, 180 as real, circle.pi);
    assert(is_plain(e, value, circle) && means(e, value, circle) == value(d) * unit) by {
        reveal_with_fuel(means, 3);
        reveal_with_fuel(is_plain, 3);
    }
    let s = steps_of(size(value(d)));
    lemma_scaled_steps(size(value(d)), s, circle.pi, 180 as real);
    assert(s * circle.pi * (180 as real) == size(value(d)) * circle.pi * (512 as real));
    assert(s * circle.pi == size(value(d) * unit) * (512 as real));
    lemma_exact_fast_cos(value, wide_value, circle, tables, e, s, r);
}

/// A part of an angle stays that part when both are multiplied.
proof fn lemma_scaled_steps(d: real, s: real, pi: real, parts: real)
    requires
        s * parts == d * (512 as real),
    ensures
        s * pi * parts == d * pi * (512 as real),
{
    lemma_swap_factors(s, pi);
    lemma_regroup(pi, s, parts);
    lemma_same_factor(pi, s * parts, d * (512 as real));
    lemma_regroup(pi, d, 512 as real);
    lemma_swap_factors(pi, d);
}

/// The arc of half an angle.
proof fn lemma_exact_arc<N: Narrow>(
    value: spec_fn(N) -> real,
    circle: Circle,
    tables: GeoTables<N>,
    method: GeoMethod,
    h: N,
    v: N,
)
    requires
        is_exact(value, circle),
        circle.pi > 0 as real,
        angle_unit(tables, method).times(Expr::Value(h)).gives(v),
    ensures
        is_arc(circle, value(tables.earth_diameter()), method, value(h), value(v)),
{
    reveal_with_fuel(means, 3);
    reveal_with_fuel(is_plain, 3);
    if method == GeoMethod::SphereDegrees {
        let unit = Expr::<N>::Whole(360).over(Expr::Pi);
        let (u, w) = choose|u: N, w: N|
            unit.gives(u) && Expr::Value(h).gives(w) && #[trigger] call_ensures(
                N::times,
                (u, w),
                v,
            );
        law_exact_quotient(value, circle, Expr::Whole(360), Expr::Pi, u);
        assert(means(Expr::<N>::Whole(360), value, circle) == 360 as real);
        assert(means(Expr::<N>::Pi, value, circle) == circle.pi);
        lemma_swap_factors(value(u), value(h));
        lemma_regroup(value(h), value(u), circle.pi);
        lemma_same_factor(value(h), value(u) * circle.pi, 360 as real);
    } else {
        let e = Expr::Value(tables.earth_diameter()).times(Expr::Value(h));
        law_exact_expression(value, circle, e, v);
        assert(means(e, value, circle) == value(tables.earth_diameter()) * value(h));
    }
}

/// The distance between two points.
proof fn lemma_exact_distance<N: Narrow>(
    value: spec_fn(N) -> real,
    wide_value: spec_fn(N::Wide) -> real,
    circle: Circle,
    tables: GeoTables<N>,
    lon1: N,
    lat1: N,
    lon2: N,
    lat2: N,
    method: GeoMethod,
    r: Option<N>,
)
    requires
        is_exact_narrow(value, wide_value, circle),
        circle.is_round(),
        tables.is_filled(),
        are_latitudes(value(lat1), value(lat2)),
        distance_gives(tables, lon1, lat1, lon2, lat2, method, r),
    ensures
        short_way(value(lon1) - value(lon2)) < 13 as real ==> (r is Some <==> value(lat1) + value(
            lat2,
        ) < 180 as real),
        short_way(value(lon1) - value(lon2)) >= 13 as real && table_haversine(
            circle,
            value(lat1),
            value(lat2),
            short_way(value(lat1) - value(lat2)),
            short_way(value(lon1) - value(lon2)),
        ) >= 0 as real ==> r is Some,
        r is Some ==> is_distance(
            value,
            circle,
            tables,
            value(lon1),
            value(lat1),
            value(lon2),
            value(lat2),
            method,
            value(r->Some_0),
        ),
{
    let e_lat = Expr::Value(lat1).minus(Expr::Value(lat2));
    let e_lon = Expr::Value(lon1).minus(Expr::Value(lon2));
    let (dlat, dlon, near) = choose|dlat: N, dlon: N, near: bool|
        {
            &&& #[trigger] deg_diff_gives(e_lat, dlat)
            &&& #[trigger] deg_diff_gives(e_lon, dlon)
            &&& #[trigger] Expr::Value(dlon).less_gives(Expr::Whole(13), near)
            &&& if near {
                flat_gives(tables, lat1, lat2, dlat, dlon, method, r)
            } else {
                great_circle_gives(tables, lat1, lat2, dlat, dlon, method, r)
            }
        };
    assert(is_plain(e_lat, value, circle) && is_plain(e_lon, value, circle) && means(
        e_lat,
        value,
        circle,
    ) == value(lat1) - value(lat2) && means(e_lon, value, circle) == value(lon1) - value(lon2))
        by {
        reveal_with_fuel(means, 3);
        reveal_with_fuel(is_plain, 3);
    }
    lemma_exact_deg_diff(value, circle, e_lat, dlat);
    lemma_exact_deg_diff(value, circle, e_lon, dlon);
    law_exact_comparison(value, circle, Expr::Value(dlon), Expr::Whole(13), near);
    assert(means(Expr::<N>::Whole(13), value, circle) == 13 as real);
    assert(means(Expr::Value(dlon), value, circle) == value(dlon));
    if near {
        lemma_exact_flat(
            value,
            wide_value,
            circle,
            tables,
            lat1,
            lat2,
            dlat,
            dlon,
            method,
            r,
        );
    } else {
        lemma_exact_great_circle(
            value,
            wide_value,
            circle,
            tables,
            lat1,
            lat2,
            dlat,
            dlon,
            method,
            r,
        );
    }
}

/// Two latitudes in degrees, each of which may lie up to a quarter of a turn beyond a
/// pole, but with the middle of both not beyond the south pole.
pub open spec fn are_latitudes(lat1: real, lat2: real) -> bool {
    &&& -(180 as real) <= lat1 <= 180 as real
    &&& -(180 as real) <= lat2 <= 180 as real
    &&& lat1 + lat2 >= -(180 as real)
}

/// The distance between two points is that as on a plane, with the weights of
/// the middle latitude, where they are less than 13 degrees of longitude apart, and that
/// along the great circle otherwise. Near points lack it exactly where the middle of
/// the latitudes is not before the north pole.
pub proof fn law_exact_checked_distance<N: Narrow>(
    value: spec_fn(N) -> real,
    wide_value: spec_fn(N::Wide) -> real,
    circle: Circle,
    tables: GeoTables<N>,
    lon1: N,
    lat1: N,
    lon2: N,
    lat2: N,
    method: GeoMethod,
    r: Option<N>,
)
    requires
        is_exact_narrow(value, wide_value, circle),
        circle.is_round(),
        tables.is_filled(),
        are_latitudes(value(lat1), value(lat2)),
        call_ensures(checked_distance::<N>, (&tables, lon1, lat1, lon2, lat2, method), r),
    ensures
        short_way(value(lon1) - value(lon2)) < 13 as real ==> (r is Some <==> value(lat1) + value(
            lat2,
        ) < 180 as real),
        short_way(value(lon1) - value(lon2)) >= 13 as real && table_haversine(
            circle,
            value(lat1),
            value(lat2),
            short_way(value(lat1) - value(lat2)),
            short_way(value(lon1) - value(lon2)),
        ) >= 0 as real ==> r is Some,
        r is Some ==> is_distance(
            value,
            circle,
            tables,
            value(lon1),
            value(lat1),
            value(lon2),
            value(lat2),
            method,
            value(r->Some_0),
        ),
{
    lemma_exact_distance(
        value,
        wide_value,
        circle,
        tables,
        lon1,
        lat1,
        lon2,
        lat2,
        method,
        r,
    );
}

/// The distance between two points is that as on a plane, with the weights of
/// the middle latitude, where they are less than 13 degrees of longitude apart, and that
/// along the great circle otherwise.
pub proof fn law_exact_plain_distance<N: Narrow>(
    value: spec_fn(N) -> real,
    wide_value: spec_fn(N::Wide) -> real,
    circle: Circle,
    tables: GeoTables<N>,
    lon1: N,
    lat1: N,
    lon2: N,
    lat2: N,
    method: GeoMethod,
    r: N,
)
    requires
        is_exact_narrow(value, wide_value, circle),
        circle.is_round(),
        tables.is_filled(),
        are_latitudes(value(lat1), value(lat2)),
        call_ensures(distance::<N>, (&tables, lon1, lat1, lon2, lat2, method), r),
    ensures
        is_distance(
            value,
            circle,
            tables,
            value(lon1),
            value(lat1),
            value(lon2),
            value(lat2),
            method,
            value(r),
        ),
{
    lemma_exact_distance(
        value,
        wide_value,
        circle,
        tables,
        lon1,
        lat1,
        lon2,
        lat2,
        method,
        Some(r),
    );
}

/// The distance between points whose coordinates are brought to `N` first.
pub proof fn lemma_exact_wide_distance<N: Narrow>(
    value: spec_fn(N) -> real,
    wide_value: spec_fn(N::Wide) -> real,
    circle: Circle,
    tables: GeoTables<N>,
    lon1: N::Wide,
    lat1: N::Wide,
    lon2: N::Wide,
    lat2: N::Wide,
    method: GeoMethod,
    r: Option<N>,
)
    requires
        is_exact_narrow(value, wide_value, circle),
        circle.is_round(),
        tables.is_filled(),
        are_latitudes(wide_value(lat1), wide_value(lat2)),
        wide_distance_gives(tables, lon1, lat1, lon2, lat2, method, r),
    ensures
        short_way(wide_value(lon1) - wide_value(lon2)) < 13 as real ==> (r is Some <==> wide_value(lat1) + wide_value(
            lat2,
        ) < 180 as real),
        short_way(wide_value(lon1) - wide_value(lon2)) >= 13 as real && table_haversine(
            circle,
            wide_value(lat1),
            wide_value(lat2),
            short_way(wide_value(lat1) - wide_value(lat2)),
            short_way(wide_value(lon1) - wide_value(lon2)),
        ) >= 0 as real ==> r is Some,
        r is Some ==> is_distance(
            value,
            circle,
            tables,
            wide_value(lon1),
            wide_value(lat1),
            wide_value(lon2),
            wide_value(lat2),
            method,
            value(r->Some_0),
        ),
{
    let (a, b, c, d) = choose|a: N, b: N, c: N, d: N|
        {
            &&& #[trigger] call_ensures(N::narrow, (lon1,), a)
            &&& #[trigger] call_ensures(N::narrow, (lat1,), b)
            &&& #[trigger] call_ensures(N::narrow, (lon2,), c)
            &&& #[trigger] call_ensures(N::narrow, (lat2,), d)
            &&& distance_gives(tables, a, b, c, d, method, r)
        };
    lemma_exact_distance(value, wide_value, circle, tables, a, b, c, d, method, r);
}

/// The distance between two points, given in the wider type, is their distance by the
/// method.
pub proof fn law_exact_wide_distance<N: Narrow>(
    value: spec_fn(N) -> real,
    wide_value: spec_fn(N::Wide) -> real,
    circle: Circle,
    tables: GeoTables<N>,
    lon1: N::Wide,
    lat1: N::Wide,
    lon2: N::Wide,
    lat2: N::Wide,
    method: GeoMethod,
    r: Option<N>,
)
    requires
        is_exact_narrow(value, wide_value, circle),
        circle.is_round(),
        tables.is_filled(),
        are_latitudes(wide_value(lat1), wide_value(lat2)),
        call_ensures(wide_distance::<N>, (&tables, lon1, lat1, lon2, lat2, method), r),
    ensures
        short_way(wide_value(lon1) - wide_value(lon2)) < 13 as real ==> (r is Some <==> wide_value(lat1) + wide_value(
            lat2,
        ) < 180 as real),
        short_way(wide_value(lon1) - wide_value(lon2)) >= 13 as real && table_haversine(
            circle,
            wide_value(lat1),
            wide_value(lat2),
            short_way(wide_value(lat1) - wide_value(lat2)),
            short_way(wide_value(lon1) - wide_value(lon2)),
        ) >= 0 as real ==> r is Some,
        r is Some ==> is_distance(
            value,
            circle,
            tables,
            wide_value(lon1),
            wide_value(lat1),
            wide_value(lon2),
            wide_value(lat2),
            method,
            value(r->Some_0),
        ),
{
    lemma_exact_wide_distance(
        value,
        wide_value,
        circle,
        tables,
        lon1,
        lat1,
        lon2,
        lat2,
        method,
        r,
    );
}

/// `geo_distance` gives the distance by the WGS84 method.
pub proof fn law_exact_geo_distance<N: Narrow>(
    value: spec_fn(N) -> real,
    wide_value: spec_fn(N::Wide) -> real,
    circle: Circle,
    tables: GeoTables<N>,
    lon1: N::Wide,
    lat1: N::Wide,
    lon2: N::Wide,
    lat2: N::Wide,
    r: Option<N>,
)
    requires
        is_exact_narrow(value, wide_value, circle),
        circle.is_round(),
        tables.is_filled(),
        are_latitudes(wide_value(lat1), wide_value(lat2)),
        call_ensures(geo_distance::<N>, (&tables, lon1, lat1, lon2, lat2), r),
    ensures
        short_way(wide_value(lon1) - wide_value(lon2)) < 13 as real ==> (r is Some <==> wide_value(lat1) + wide_value(
            lat2,
        ) < 180 as real),
        short_way(wide_value(lon1) - wide_value(lon2)) >= 13 as real && table_haversine(
            circle,
            wide_value(lat1),
            wide_value(lat2),
            short_way(wide_value(lat1) - wide_value(lat2)),
            short_way(wide_value(lon1) - wide_value(lon2)),
        ) >= 0 as real ==> r is Some,
        r is Some ==> is_distance(
            value,
            circle,
            tables,
            wide_value(lon1),
            wide_value(lat1),
            wide_value(lon2),
            wide_value(lat2),
            GeoMethod::Wgs84Meters,
            value(r->Some_0),
        ),
{
    lemma_exact_wide_distance(
        value,
        wide_value,
        circle,
        tables,
        lon1,
        lat1,
        lon2,
        lat2,
        GeoMethod::Wgs84Meters,
        r,
    );
}

/// `great_circle_angle` gives the distance in degrees of the sphere.
pub proof fn law_exact_great_circle_angle<N: Narrow>(
    value: spec_fn(N) -> real,
    wide_value: spec_fn(N::Wide) -> real,
    circle: Circle,
    tables: GeoTables<N>,
    lon1: N::Wide,
    lat1: N::Wide,
    lon2: N::Wide,
    lat2: N::Wide,
    r: Option<N>,
)
    requires
        is_exact_narrow(value, wide_value, circle),
        circle.is_round(),
        tables.is_filled(),
        are_latitudes(wide_value(lat1), wide_value(lat2)),
        call_ensures(great_circle_angle::<N>, (&tables, lon1, lat1, lon2, lat2), r),
    ensures
        short_way(wide_value(lon1) - wide_value(lon2)) < 13 as real ==> (r is Some <==> wide_value(lat1) + wide_value(
            lat2,
        ) < 180 as real),
        short_way(wide_value(lon1) - wide_value(lon2)) >= 13 as real && table_haversine(
            circle,
            wide_value(lat1),
            wide_value(lat2),
            short_way(wide_value(lat1) - wide_value(lat2)),
            short_way(wide_value(lon1) - wide_value(lon2)),
        ) >= 0 as real ==> r is Some,
        r is Some ==> is_distance(
            value,
            circle,
            tables,
            wide_value(lon1),
            wide_value(lat1),
            wide_value(lon2),
            wide_value(lat2),
            GeoMethod::SphereDegrees,
            value(r->Some_0),
        ),
{
    lemma_exact_wide_distance(
        value,
        wide_value,
        circle,
        tables,
        lon1,
        lat1,
        lon2,
        lat2,
        GeoMethod::SphereDegrees,
        r,
    );
}

/// `great_circle_distance` gives the distance in meters of the sphere.
pub proof fn law_exact_great_circle_distance<N: Narrow>(
    value: spec_fn(N) -> real,
    wide_value: spec_fn(N::Wide) -> real,
    circle: Circle,
    tables: GeoTables<N>,
    lon1: N::Wide,
    lat1: N::Wide,
    lon2: N::Wide,
    lat2: N::Wide,
    r: Option<N>,
)
    requires
        is_exact_narrow(value, wide_value, circle),
        circle.is_round(),
        tables.is_filled(),
        are_latitudes(wide_value(lat1), wide_value(lat2)),
        call_ensures(great_circle_distance::<N>, (&tables, lon1, lat1, lon2, lat2), r),
    ensures
        short_way(wide_value(lon1) - wide_value(lon2)) < 13 as real ==> (r is Some <==> wide_value(lat1) + wide_value(
            lat2,
        ) < 180 as real),
        short_way(wide_value(lon1) - wide_value(lon2)) >= 13 as real && table_haversine(
            circle,
            wide_value(lat1),
            wide_value(lat2),
            short_way(wide_value(lat1) - wide_value(lat2)),
            short_way(wide_value(lon1) - wide_value(lon2)),
        ) >= 0 as real ==> r is Some,
        r is Some ==> is_distance(
            value,
            circle,
            tables,
            wide_value(lon1),
            wide_value(lat1),
            wide_value(lon2),
            wide_value(lat2),
            GeoMethod::SphereMeters,
            value(r->Some_0),
        ),
{
    lemma_exact_wide_distance(
        value,
        wide_value,
        circle,
        tables,
        lon1,
        lat1,
        lon2,
        lat2,
        GeoMethod::SphereMeters,
        r,
    );
}

/// An angle in degrees in radians.
pub open spec fn radians(circle: Circle, degrees: real) -> real {
    degrees * circle.pi / (180 as real)
}

/// The cosine of the angle between two points on the sphere, as the product of the
/// directions to them.
pub open spec fn cos_between(
    circle: Circle,
    lon1: real,
    lat1: real,
    lon2: real,
    lat2: real,
) -> real {
    (circle.sin)(radians(circle, lat1)) * (circle.sin)(radians(circle, lat2)) + (circle.cos)(
        radians(circle, lat1),
    ) * (circle.cos)(radians(circle, lat2)) * (circle.cos)(radians(circle, lon1 - lon2))
}

/// The cosine does not depend on which way round an angle is taken.
proof fn lemma_cos_of_short_way(circle: Circle, f: real)
    requires
        circle.is_round(),
    ensures
        (circle.cos)(radians(circle, short_way(f))) == (circle.cos)(radians(circle, f)),
{
    let p = circle.pi;
    let x = radians(circle, f);
    let y = radians(circle, size(f));
    lemma_negate(f, p);
    law_circle(circle, x);
    assert(y == x || y == -x);
    if size(f) > 180 as real {
        let z = radians(circle, 360 as real - size(f));
        lemma_distribute_difference(360 as real, size(f), p);
        assert(z == 2 as real * p - y);
        law_full_turn(circle, y);
        law_circle(circle, y - 2 as real * p);
        assert(z == -(y - 2 as real * p));
    }
}

/// Twice half an angle is the angle.
proof fn lemma_twice_half(circle: Circle, d: real)
    ensures
        2 as real * radians(circle, d / (2 as real)) == radians(circle, d),
{
    let h = d / (2 as real);
    lemma_distribute(h, h, circle.pi);
    lemma_same_factor(circle.pi, h + h, d);
}

/// Where the sines and cosines of the table are those of the circle, what the root is
/// taken of is half of what the cosine of the angle between the points lacks to one: the
/// great-circle distance is that of the angle between the directions to the two points.
pub proof fn law_exact_haversine_is_the_angle_between(
    circle: Circle,
    lon1: real,
    lat1: real,
    lon2: real,
    lat2: real,
)
    requires
        circle.is_round(),
        is_true_to_the_circle(circle, lon1, lat1, lon2, lat2),
    ensures
        2 as real * table_haversine(
            circle,
            lat1,
            lat2,
            short_way(lat1 - lat2),
            short_way(lon1 - lon2),
        ) == 1 as real - cos_between(circle, lon1, lat1, lon2, lat2),
{
    let dlat = short_way(lat1 - lat2);
    let dlon = short_way(lon1 - lon2);
    let p1 = radians(circle, lat1);
    let p2 = radians(circle, lat2);
    let c1 = (circle.cos)(p1);
    let c2 = (circle.cos)(p2);
    let s1 = (circle.sin)(p1);
    let s2 = (circle.sin)(p2);
    let sa = (circle.sin)(radians(circle, dlat / (2 as real)));
    let so = (circle.sin)(radians(circle, dlon / (2 as real)));
    law_half_angle(circle, radians(circle, dlat / (2 as real)));
    law_half_angle(circle, radians(circle, dlon / (2 as real)));
    lemma_twice_half(circle, dlat);
    lemma_twice_half(circle, dlon);
    lemma_cos_of_short_way(circle, lat1 - lat2);
    lemma_cos_of_short_way(circle, lon1 - lon2);
    lemma_distribute_difference(lat1, lat2, circle.pi);
    assert(radians(circle, lat1 - lat2) == p1 - p2);
    assert(angles(p1, p2));
    let co = (circle.cos)(radians(circle, lon1 - lon2));
    assert(2 as real * (sa * sa) == 1 as real - (c1 * c2 + s1 * s2));
    assert(2 as real * (so * so) == 1 as real - co);
    let k = c1 * c2;
    lemma_distribute_difference(1 as real, co, k);
    lemma_same_factor(k, 2 as real * (so * so), 1 as real - co);
    lemma_distribute(so * so, so * so, k);
    assert(k * (2 as real * (so * so)) == 2 as real * (k * (so * so))) by {
        lemma_same_factor(k, so * so + so * so, 2 as real * (so * so));
    }
    assert(2 as real * (sa * sa + k * (so * so)) == 1 as real - (s1 * s2 + k * co));
}

/// The sines and cosines of the table that the distance of these points needs are those of
/// the circle, as they are where the angles are whole steps of the table.
pub open spec fn is_true_to_the_circle(
    circle: Circle,
    lon1: real,
    lat1: real,
    lon2: real,
    lat2: real,
) -> bool {
    let dlat = short_way(lat1 - lat2) / (2 as real);
    let dlon = short_way(lon1 - lon2) / (2 as real);
    &&& table_cos(circle, steps_of(size(lat1))) == (circle.cos)(radians(circle, lat1))
    &&& table_cos(circle, steps_of(size(lat2))) == (circle.cos)(radians(circle, lat2))
    &&& table_sin(circle, steps_of(dlat)) == (circle.sin)(radians(circle, dlat))
    &&& table_sin(circle, steps_of(dlon)) == (circle.sin)(radians(circle, dlon))
}

/// `great_circle_distance` gives the arc of the angle between the directions to the two
/// points: where the table is true to the circle, the lookup of the arcsine is asked for
/// half of what the cosine of that angle lacks to one.
pub proof fn law_exact_great_circle_distance_is_the_arc_between<N: Narrow>(
    value: spec_fn(N) -> real,
    wide_value: spec_fn(N::Wide) -> real,
    circle: Circle,
    tables: GeoTables<N>,
    lon1: N::Wide,
    lat1: N::Wide,
    lon2: N::Wide,
    lat2: N::Wide,
    r: Option<N>,
)
    requires
        is_exact_narrow(value, wide_value, circle),
        circle.is_round(),
        tables.is_filled(),
        are_latitudes(wide_value(lat1), wide_value(lat2)),
        is_true_to_the_circle(
            circle,
            wide_value(lon1),
            wide_value(lat1),
            wide_value(lon2),
            wide_value(lat2),
        ),
        short_way(wide_value(lon1) - wide_value(lon2)) >= 13 as real,
        cos_between(
            circle,
            wide_value(lon1),
            wide_value(lat1),
            wide_value(lon2),
            wide_value(lat2),
        ) <= 1 as real,
        call_ensures(great_circle_distance::<N>, (&tables, lon1, lat1, lon2, lat2), r),
    ensures
        r is Some,
        exists|h: real| #[trigger]
            is_table_arcsine(
                circle,
                (1 as real - cos_between(
                    circle,
                    wide_value(lon1),
                    wide_value(lat1),
                    wide_value(lon2),
                    wide_value(lat2),
                )) / (2 as real),
                h,
            ) && value(r->Some_0) == value(tables.earth_diameter()) * h,
{
    law_exact_great_circle_distance(
        value,
        wide_value,
        circle,
        tables,
        lon1,
        lat1,
        lon2,
        lat2,
        r,
    );
    law_exact_haversine_is_the_angle_between(
        circle,
        wide_value(lon1),
        wide_value(lat1),
        wide_value(lon2),
        wide_value(lat2),
    );
    let a = table_haversine(
        circle,
        wide_value(lat1),
        wide_value(lat2),
        short_way(wide_value(lat1) - wide_value(lat2)),
        short_way(wide_value(lon1) - wide_value(lon2)),
    );
    let h = choose|h: real| #[trigger]
        is_table_arcsine(circle, a, h) && is_arc(
            circle,
            value(tables.earth_diameter()),
            GeoMethod::SphereMeters,
            h,
            value(r->Some_0),
        );
    assert(a == (1 as real - cos_between(
        circle,
        wide_value(lon1),
        wide_value(lat1),
        wide_value(lon2),
        wide_value(lat2),
    )) / (2 as real));
    assert(is_table_arcsine(circle, a, h));
}

/// At whole steps, the table is true to the circle.
pub proof fn law_table_is_true_at_whole_steps(circle: Circle, d: real, i: int)
    requires
        circle.is_round(),
        steps_of(size(d)) == i as real,
    ensures
        table_cos(circle, steps_of(size(d))) == (circle.cos)(radians(circle, d)),
        table_sin(circle, steps_of(size(d))) == (circle.sin)(radians(circle, size(d))),
{
    let p = circle.pi;
    let x = i as real;
    let w = size(d);
    assert((x).floor() == i);
    lemma_zero(
        (circle.cos)(step_angle(circle, i + 1)) - (circle.cos)(step_angle(circle, i)),
    );
    lemma_zero(
        (circle.sin)(step_angle(circle, i + 1)) - (circle.sin)(step_angle(circle, i)),
    );
    assert(2 as real * p * x / (1024 as real) == w * p / (180 as real)) by (nonlinear_arith)
        requires
            x == w * (1024 as real) / (360 as real),
    ;
    law_circle(circle, radians(circle, d));
    lemma_negate(d, p);
    assert(radians(circle, w) == radians(circle, d) || radians(circle, w) == -radians(circle, d));
}

} // verus!
