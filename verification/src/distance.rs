//! Distances between points on the earth, fast and approximate.

use vstd::pervasive::unreached;
use vstd::prelude::*;

use crate::numeric::{decimal, narrow, narrowed, Expr, Narrow, Real, Term};
use crate::tables::{GeoTables, ASIN_SQRT_LUT_SIZE, COS_LUT_SIZE, METRIC_LUT_SIZE};

verus! {

/// The model of the earth and the unit of a distance.
#[derive(Clone, Copy, Debug, PartialEq, Eq, Structural)]
pub enum GeoMethod {
    SphereDegrees,
    SphereMeters,
    Wgs84Meters,
}

/// The slot of the cosine table for step `i` of the circle.
pub open spec fn cos_slot(i: int) -> int {
    i % (COS_LUT_SIZE as int)
}

/// The slot of the cosine table that holds the sine for step `i` of the circle: a
/// quarter of a turn before it.
pub open spec fn sin_slot(i: int) -> int {
    (i - COS_LUT_SIZE as int / 4) % (COS_LUT_SIZE as int)
}

/// The value at `fraction` of the way from `slot` to the next slot.
pub open spec fn between<R>(table: Seq<R>, slot: int, fraction: Expr<R>) -> Expr<R> {
    Expr::Value(table[slot]).plus(
        Expr::Value(table[slot + 1]).minus(Expr::Value(table[slot])).times(fraction),
    )
}

/// How many steps of the cosine table the angle `x` is long.
pub open spec fn steps<R>(x: Expr<R>) -> Expr<R> {
    x.abs().times(Expr::Whole(COS_LUT_SIZE as u64).over(Expr::Pi).over(Expr::Whole(2)))
}

/// `r` is the cosine of the angle `x` by the table.
pub open spec fn fast_cos_gives<N: Narrow>(tables: GeoTables<N>, x: Expr<N>, r: N) -> bool {
    exists|y: N, i: usize|
        {
            &&& steps(x).gives(y)
            &&& #[trigger] call_ensures(N::to_index, (y,), i)
            &&& between(
                tables.cos(),
                cos_slot(i as int),
                Expr::Value(y).minus(Expr::Whole(i as u64)),
            ).gives(r)
        }
}

/// `r` is the sine of the size of the angle `x` by the table.
pub open spec fn fast_sin_gives<N: Narrow>(tables: GeoTables<N>, x: Expr<N>, r: N) -> bool {
    exists|y: N, i: usize|
        {
            &&& steps(x).gives(y)
            &&& #[trigger] call_ensures(N::to_index, (y,), i)
            &&& between(
                tables.cos(),
                sin_slot(i as int),
                Expr::Value(y).minus(Expr::Whole(i as u64)),
            ).gives(r)
        }
}

/// The value at `fraction` of the way from `slot` to the next slot.
fn interpolate<N: Narrow>(table: &Vec<N>, slot: usize, fraction: Term<N>) -> (t: Term<N>)
    requires
        slot + 1 < table.len(),
    ensures
        t.expr() == between(table@, slot as int, fraction.expr()),
{
    let low = Term::of(table[slot]);
    low.plus(Term::of(table[slot + 1]).minus(low).times(fraction))
}

/// The step of the cosine table at or before the angle `x`, and how far the angle
/// lies behind it.
fn locate<N: Narrow>(x: Term<N>) -> (r: (usize, Term<N>))
    ensures
        exists|y: N|
            {
                &&& #[trigger] steps(x.expr()).gives(y)
                &&& call_ensures(N::to_index, (y,), r.0)
                &&& r.1.expr() == Expr::Value(y).minus(Expr::Whole(r.0 as u64))
            },
{
    let scale = Term::whole(COS_LUT_SIZE as u64).over(Term::pi()).over(Term::whole(2));
    let y = x.abs().times(scale).value();
    let i: usize = y.to_index();
    let fraction = Term::of(y).minus(Term::whole(i as u64));
    assert(steps(x.expr()).gives(y));
    (i, fraction)
}

/// The cosine of an angle in radians.
fn fast_cos<N: Narrow>(tables: &GeoTables<N>, x: Term<N>) -> (r: N)
    ensures
        fast_cos_gives(*tables, x.expr(), r),
{
    let (i, fraction) = locate(x);
    let slot: usize = i & (COS_LUT_SIZE - 1);
    assert(i & 1023 == i % 1024) by (bit_vector);
    interpolate(tables.cos_ref(), slot, fraction).value()
}

/// The sine of the size of an angle in radians.
fn fast_sin<N: Narrow>(tables: &GeoTables<N>, x: Term<N>) -> (r: N)
    ensures
        fast_sin_gives(*tables, x.expr(), r),
{
    let (i, fraction) = locate(x);
    // cos(x - pi / 2) = sin(x), and a quarter of the table is pi / 2
    let slot: usize = i.wrapping_sub(COS_LUT_SIZE / 4) & (COS_LUT_SIZE - 1);
    proof {
        lemma_sin_slot(i);
    }
    interpolate(tables.cos_ref(), slot, fraction).value()
}

/// Masking the wrapped difference finds the slot of the sine.
proof fn lemma_sin_slot(i: usize)
    ensures
        i.wrapping_sub(256) & 1023 == sin_slot(i as int),
{
    let w = i.wrapping_sub(256);
    assert(w & 1023 == w % 1024) by (bit_vector);
    assert(usize::MAX == 0xffff_ffff || usize::MAX == 0xffff_ffff_ffff_ffff);
    if i < 256 {
        assert(w == i - 256 + usize::MAX + 1);
        assert((usize::MAX + 1) % 1024 == 0);
        vstd::arithmetic::div_mod::lemma_mod_adds(i - 256, usize::MAX + 1, 1024);
    }
}

/// The cosine of `x` by the table. `x` is in radians.
pub fn geodist_fast_cos<N: Narrow>(tables: &GeoTables<N>, x: N) -> (r: N)
    ensures
        fast_cos_gives(*tables, Expr::Value(x), r),
{
    fast_cos(tables, Term::of(x))
}

/// The sine of the size of `x` by the table. `x` is in radians.
pub fn geodist_fast_sin<N: Narrow>(tables: &GeoTables<N>, x: N) -> (r: N)
    ensures
        fast_sin_gives(*tables, Expr::Value(x), r),
{
    fast_sin(tables, Term::of(x))
}

/// The first terms of the series of the arcsine of the root of `x`.
pub open spec fn asin_sqrt_series<R>(x: Expr<R>) -> Expr<R> {
    x.sqrt().plus(x.times(x.sqrt()).times(decimal(166666666666666, 1000000000000000))).plus(
        x.times(x).times(x.sqrt()).times(decimal(75, 1000)),
    ).plus(x.times(x).times(x).times(x.sqrt()).times(decimal(44642857142857, 1000000000000000)))
}

/// `r` is the arcsine of the root of `x`: by the series below 0.122, by the table
/// below 0.948, and exactly otherwise. There is none where the table ends before the
/// step of `x`.
pub open spec fn asin_sqrt_gives<N: Narrow>(tables: GeoTables<N>, x: N, r: Option<N>) -> bool {
    ||| {
        &&& Expr::Value(x).less_gives(decimal(122, 1000), true)
        &&& r matches Some(v) && exists|wide: N::Wide| #[trigger]
            call_ensures(N::widen, (x,), wide) && narrowed(asin_sqrt_series(Expr::Value(wide)), v)
    }
    ||| {
        &&& Expr::Value(x).less_gives(decimal(122, 1000), false)
        &&& Expr::Value(x).less_gives(decimal(948, 1000), true)
        &&& exists|y: N, i: usize|
            {
                &&& Expr::Value(x).times(Expr::Whole(ASIN_SQRT_LUT_SIZE as u64)).gives(y)
                &&& #[trigger] call_ensures(N::to_index, (y,), i)
                &&& if i < ASIN_SQRT_LUT_SIZE {
                    r matches Some(v) && between(
                        tables.asin_sqrt(),
                        i as int,
                        Expr::Value(y).minus(Expr::Whole(i as u64)),
                    ).gives(v)
                } else {
                    r is None
                }
            }
    }
    ||| {
        &&& Expr::Value(x).less_gives(decimal(122, 1000), false)
        &&& Expr::Value(x).less_gives(decimal(948, 1000), false)
        &&& r matches Some(v) && Expr::Value(x).sqrt().asin().gives(v)
    }
}

/// The arcsine of the root of `x`, or nothing where the table has no entry for it.
pub fn geodist_fast_asin_sqrt<N: Narrow>(tables: &GeoTables<N>, x: N) -> (r: Option<N>)
    ensures
        asin_sqrt_gives(*tables, x, r),
{
    let t = Term::of(x);
    if t.less(Term::decimal(122, 1000)) {
        let wide = x.widen();
        let w = Term::of(wide);
        let y = w.sqrt();
        let series = y.plus(w.times(y).times(Term::decimal(166666666666666, 1000000000000000))).plus(
            w.times(w).times(y).times(Term::decimal(75, 1000)),
        ).plus(w.times(w).times(w).times(y).times(Term::decimal(44642857142857, 1000000000000000)));
        assert(call_ensures(N::widen, (x,), wide));
        return Some(narrow(series));
    }
    if t.less(Term::decimal(948, 1000)) {
        let y = t.times(Term::whole(ASIN_SQRT_LUT_SIZE as u64)).value();
        let i: usize = y.to_index();
        assert(call_ensures(N::to_index, (y,), i));
        if i >= ASIN_SQRT_LUT_SIZE {
            return None;
        }
        let fraction = Term::of(y).minus(Term::whole(i as u64));
        return Some(interpolate(tables.asin_sqrt_ref(), i, fraction).value());
    }
    Some(t.sqrt().asin().value())
}

/// `r` is the size of the difference `f` of two angles in degrees, the short way
/// round.
pub open spec fn deg_diff_gives<R: Real>(f: Expr<R>, r: R) -> bool {
    exists|m: R|
        {
            &&& #[trigger] f.abs().gives(m)
            &&& {
                ||| Expr::Whole(180).less_gives(Expr::Value(m), true) && Expr::Whole(360).minus(
                    Expr::Value(m),
                ).gives(r)
                ||| Expr::Whole(180).less_gives(Expr::Value(m), false) && r == m
            }
        }
}

/// The size of a difference of angles, the short way round.
fn deg_diff<R: Real>(f: Term<R>) -> (r: R)
    ensures
        deg_diff_gives(f.expr(), r),
{
    let m = f.abs().value();
    if Term::whole(180).less(Term::of(m)) {
        Term::whole(360).minus(Term::of(m)).value()
    } else {
        m
    }
}

/// The size of the difference `f` of two angles in degrees, the short way round.
pub fn geodist_deg_diff<R: Real>(f: R) -> (r: R)
    ensures
        deg_diff_gives(Expr::Value(f), r),
{
    deg_diff(Term::of(f))
}

/// Where the middle between two latitudes lies in the metric tables.
pub open spec fn midpoint<R>(lat1: R, lat2: R) -> Expr<R> {
    Expr::Value(lat1).plus(Expr::Value(lat2)).plus(Expr::Whole(180)).times(
        Expr::Whole(METRIC_LUT_SIZE as u64),
    ).over(Expr::Whole(360))
}

/// The factor for a difference of latitude around step `i` of the metric tables.
pub open spec fn latitude_factor<N: Narrow>(
    tables: GeoTables<N>,
    method: GeoMethod,
    i: int,
    fraction: Expr<N>,
) -> Expr<N> {
    match method {
        GeoMethod::SphereDegrees => Expr::Whole(1),
        GeoMethod::SphereMeters => Expr::Value(tables.earth_diameter()).times(Expr::Pi).over(
            Expr::Whole(360),
        ).squared(),
        GeoMethod::Wgs84Meters => Expr::Value(tables.wgs84()[2 * i]).plus(
            Expr::Value(tables.wgs84()[2 * (i + 1)]).minus(
                Expr::Value(tables.wgs84()[2 * i]),
            ).times(fraction),
        ),
    }
}

/// The factor for a difference of longitude around step `i` of the metric tables.
pub open spec fn longitude_factor<N: Narrow>(
    tables: GeoTables<N>,
    method: GeoMethod,
    i: int,
    fraction: Expr<N>,
) -> Expr<N> {
    match method {
        GeoMethod::SphereDegrees => between(tables.sphere(), i, fraction),
        GeoMethod::SphereMeters => between(tables.sphere_meters(), i, fraction),
        GeoMethod::Wgs84Meters => Expr::Value(tables.wgs84()[2 * i + 1]).plus(
            Expr::Value(tables.wgs84()[2 * (i + 1) + 1]).minus(
                Expr::Value(tables.wgs84()[2 * i + 1]),
            ).times(fraction),
        ),
    }
}

/// `r` is the distance of two points that are near to each other in longitude, as on
/// a plane. There is none where the metric tables end before the middle of the
/// latitudes.
pub open spec fn flat_gives<N: Narrow>(
    tables: GeoTables<N>,
    lat1: N,
    lat2: N,
    lat_diff: N,
    lon_diff: N,
    method: GeoMethod,
    r: Option<N>,
) -> bool {
    exists|m: N, i: usize|
        {
            let fraction = Expr::Value(m).minus(Expr::Whole(i as u64));
            let dlat = Expr::Value(lat_diff);
            let dlon = Expr::Value(lon_diff);
            &&& midpoint(lat1, lat2).gives(m)
            &&& #[trigger] call_ensures(N::to_index, (m,), i)
            &&& if i < METRIC_LUT_SIZE {
                r matches Some(v) && latitude_factor(tables, method, i as int, fraction).times(
                    dlat,
                ).times(dlat).plus(
                    longitude_factor(tables, method, i as int, fraction).times(dlon).times(dlon),
                ).sqrt().gives(v)
            } else {
                r is None
            }
        }
}

/// The distance of two points that are near to each other in longitude.
fn flat<N: Narrow>(
    tables: &GeoTables<N>,
    lat1: N,
    lat2: N,
    lat_diff: N,
    lon_diff: N,
    method: GeoMethod,
) -> (r: Option<N>)
    ensures
        flat_gives(*tables, lat1, lat2, lat_diff, lon_diff, method, r),
{
    let m = Term::of(lat1).plus(Term::of(lat2)).plus(Term::whole(180)).times(
        Term::whole(METRIC_LUT_SIZE as u64),
    ).over(Term::whole(360)).value();
    let i: usize = m.to_index();
    assert(call_ensures(N::to_index, (m,), i));
    if i >= METRIC_LUT_SIZE {
        return None;
    }
    let fraction = Term::of(m).minus(Term::whole(i as u64));
    let (k_lat, k_lon) = match method {
        GeoMethod::SphereDegrees => (
            Term::whole(1),
            interpolate(tables.sphere_ref(), i, fraction),
        ),
        GeoMethod::SphereMeters => (
            Term::of(tables.earth_diameter_value()).times(Term::pi()).over(
                Term::whole(360),
            ).squared(),
            interpolate(tables.sphere_meters_ref(), i, fraction),
        ),
        GeoMethod::Wgs84Meters => {
            let wgs84 = tables.wgs84_ref();
            let lat = Term::of(wgs84[i * 2]);
            let next_lat = Term::of(wgs84[(i + 1) * 2]);
            let lon = Term::of(wgs84[i * 2 + 1]);
            let next_lon = Term::of(wgs84[(i + 1) * 2 + 1]);
            (
                lat.plus(next_lat.minus(lat).times(fraction)),
                lon.plus(next_lon.minus(lon).times(fraction)),
            )
        },
    };
    let dlat = Term::of(lat_diff);
    let dlon = Term::of(lon_diff);
    Some(k_lat.times(dlat).times(dlat).plus(k_lon.times(dlon).times(dlon)).sqrt().value())
}

/// The unit of a great-circle distance, as a factor to half an angle in radians.
pub open spec fn angle_unit<N: Narrow>(tables: GeoTables<N>, method: GeoMethod) -> Expr<N> {
    if method == GeoMethod::SphereDegrees {
        Expr::Whole(360).over(Expr::Pi)
    } else {
        Expr::Value(tables.earth_diameter())
    }
}

/// What the haversine formula takes the arcsine of the root of.
pub open spec fn haversine<N>(sin_lat: N, cos1: N, cos2: N, sin_lon: N) -> Expr<N> {
    Expr::Value(sin_lat).squared().plus(
        Expr::Value(cos1).times(Expr::Value(cos2)).times(Expr::Value(sin_lon).squared()),
    )
}

/// `r` is the great-circle distance of two points, by the haversine formula.
pub open spec fn great_circle_gives<N: Narrow>(
    tables: GeoTables<N>,
    lat1: N,
    lat2: N,
    lat_diff: N,
    lon_diff: N,
    method: GeoMethod,
    r: Option<N>,
) -> bool {
    exists|sin_lat: N, cos1: N, cos2: N, sin_lon: N, a: N, half: Option<N>|
        {
            &&& #[trigger] fast_sin_gives(
                tables,
                Expr::Value(lat_diff).times(Expr::Value(tables.half_degree())),
                sin_lat,
            )
            &&& #[trigger] fast_cos_gives(
                tables,
                Expr::Value(lat1).times(Expr::Value(tables.degree())),
                cos1,
            )
            &&& #[trigger] fast_cos_gives(
                tables,
                Expr::Value(lat2).times(Expr::Value(tables.degree())),
                cos2,
            )
            &&& #[trigger] fast_sin_gives(
                tables,
                Expr::Value(lon_diff).times(Expr::Value(tables.half_degree())),
                sin_lon,
            )
            &&& haversine(sin_lat, cos1, cos2, sin_lon).gives(a)
            &&& #[trigger] asin_sqrt_gives(tables, a, half)
            &&& match half {
                Some(h) => r matches Some(v) && angle_unit(tables, method).times(
                    Expr::Value(h),
                ).gives(v),
                None => r is None,
            }
        }
}

/// The great-circle distance of two points.
fn great_circle<N: Narrow>(
    tables: &GeoTables<N>,
    lat1: N,
    lat2: N,
    lat_diff: N,
    lon_diff: N,
    method: GeoMethod,
) -> (r: Option<N>)
    ensures
        great_circle_gives(*tables, lat1, lat2, lat_diff, lon_diff, method, r),
{
    let degree = Term::of(tables.degree_value());
    let half_degree = Term::of(tables.half_degree_value());
    let sin_lat = fast_sin(tables, Term::of(lat_diff).times(half_degree));
    let cos1 = fast_cos(tables, Term::of(lat1).times(degree));
    let cos2 = fast_cos(tables, Term::of(lat2).times(degree));
    let sin_lon = fast_sin(tables, Term::of(lon_diff).times(half_degree));
    let a = Term::of(sin_lat).squared().plus(
        Term::of(cos1).times(Term::of(cos2)).times(Term::of(sin_lon).squared()),
    ).value();
    let half = geodist_fast_asin_sqrt(tables, a);
    match half {
        Some(h) => {
            let unit = if method == GeoMethod::SphereDegrees {
                Term::whole(360).over(Term::pi())
            } else {
                Term::of(tables.earth_diameter_value())
            };
            Some(unit.times(Term::of(h)).value())
        },
        None => None,
    }
}

/// `r` is the distance between two points given by longitude and latitude in
/// degrees: as on a plane where they are less than 13 degrees of longitude apart,
/// along the great circle otherwise.
pub open spec fn distance_gives<N: Narrow>(
    tables: GeoTables<N>,
    lon1deg: N,
    lat1deg: N,
    lon2deg: N,
    lat2deg: N,
    method: GeoMethod,
    r: Option<N>,
) -> bool {
    exists|lat_diff: N, lon_diff: N, near: bool|
        {
            &&& #[trigger] deg_diff_gives(
                Expr::Value(lat1deg).minus(Expr::Value(lat2deg)),
                lat_diff,
            )
            &&& #[trigger] deg_diff_gives(
                Expr::Value(lon1deg).minus(Expr::Value(lon2deg)),
                lon_diff,
            )
            &&& #[trigger] Expr::Value(lon_diff).less_gives(Expr::Whole(13), near)
            &&& if near {
                flat_gives(tables, lat1deg, lat2deg, lat_diff, lon_diff, method, r)
            } else {
                great_circle_gives(tables, lat1deg, lat2deg, lat_diff, lon_diff, method, r)
            }
        }
}

/// The distance between two points given by longitude and latitude in degrees, or
/// nothing where a lookup table has no entry for them.
pub fn checked_distance<N: Narrow>(
    tables: &GeoTables<N>,
    lon1deg: N,
    lat1deg: N,
    lon2deg: N,
    lat2deg: N,
    method: GeoMethod,
) -> (r: Option<N>)
    ensures
        distance_gives(*tables, lon1deg, lat1deg, lon2deg, lat2deg, method, r),
{
    let lat_diff = deg_diff(Term::of(lat1deg).minus(Term::of(lat2deg)));
    let lon_diff = deg_diff(Term::of(lon1deg).minus(Term::of(lon2deg)));
    let near = Term::of(lon_diff).less(Term::whole(13));
    if near {
        flat(tables, lat1deg, lat2deg, lat_diff, lon_diff, method)
    } else {
        great_circle(tables, lat1deg, lat2deg, lat_diff, lon_diff, method)
    }
}

/// A lookup table ends before what these points need.
pub open spec fn lacks_entry<N: Narrow>(
    tables: GeoTables<N>,
    lon1deg: N,
    lat1deg: N,
    lon2deg: N,
    lat2deg: N,
    method: GeoMethod,
) -> bool {
    distance_gives(tables, lon1deg, lat1deg, lon2deg, lat2deg, method, None)
}

/// The distance between two points given by longitude and latitude in degrees, for which
/// the lookup tables have their entries. [`checked_distance`] finds out whether they have.
pub fn distance<N: Narrow>(
    tables: &GeoTables<N>,
    lon1deg: N,
    lat1deg: N,
    lon2deg: N,
    lat2deg: N,
    method: GeoMethod,
) -> (r: N)
    requires
        !lacks_entry(*tables, lon1deg, lat1deg, lon2deg, lat2deg, method),
    ensures
        distance_gives(*tables, lon1deg, lat1deg, lon2deg, lat2deg, method, Some(r)),
{
    match checked_distance(tables, lon1deg, lat1deg, lon2deg, lat2deg, method) {
        Some(r) => r,
        None => unreached(),
    }
}

/// `r` is the distance between two points whose coordinates are brought to `N` first.
pub open spec fn wide_distance_gives<N: Narrow>(
    tables: GeoTables<N>,
    lon1: N::Wide,
    lat1: N::Wide,
    lon2: N::Wide,
    lat2: N::Wide,
    method: GeoMethod,
    r: Option<N>,
) -> bool {
    exists|lon1deg: N, lat1deg: N, lon2deg: N, lat2deg: N|
        {
            &&& #[trigger] call_ensures(N::narrow, (lon1,), lon1deg)
            &&& #[trigger] call_ensures(N::narrow, (lat1,), lat1deg)
            &&& #[trigger] call_ensures(N::narrow, (lon2,), lon2deg)
            &&& #[trigger] call_ensures(N::narrow, (lat2,), lat2deg)
            &&& distance_gives(tables, lon1deg, lat1deg, lon2deg, lat2deg, method, r)
        }
}

/// The distance between two points given by longitude and latitude in degrees, which
/// are brought to `N` first.
pub fn wide_distance<N: Narrow>(
    tables: &GeoTables<N>,
    lon1: N::Wide,
    lat1: N::Wide,
    lon2: N::Wide,
    lat2: N::Wide,
    method: GeoMethod,
) -> (r: Option<N>)
    ensures
        wide_distance_gives(*tables, lon1, lat1, lon2, lat2, method, r),
{
    let lon1deg = N::narrow(lon1);
    let lat1deg = N::narrow(lat1);
    let lon2deg = N::narrow(lon2);
    let lat2deg = N::narrow(lat2);
    assert(call_ensures(N::narrow, (lon1,), lon1deg));
    assert(call_ensures(N::narrow, (lat1,), lat1deg));
    assert(call_ensures(N::narrow, (lon2,), lon2deg));
    assert(call_ensures(N::narrow, (lat2,), lat2deg));
    checked_distance(tables, lon1deg, lat1deg, lon2deg, lat2deg, method)
}

/// The distance between two points with the WGS84 method. Where they are less than 13
/// degrees of longitude apart, it is the root of the squared differences in degrees,
/// each times its factor from the WGS84 table, and those factors are roots of lengths
/// of a degree in meters. Elsewhere it is the distance in meters on the sphere.
pub fn geo_distance<N: Narrow>(
    tables: &GeoTables<N>,
    lon1: N::Wide,
    lat1: N::Wide,
    lon2: N::Wide,
    lat2: N::Wide,
) -> (r: Option<N>)
    ensures
        wide_distance_gives(*tables, lon1, lat1, lon2, lat2, GeoMethod::Wgs84Meters, r),
{
    wide_distance(tables, lon1, lat1, lon2, lat2, GeoMethod::Wgs84Meters)
}

/// The angle between two points in degrees of a great circle.
pub fn great_circle_angle<N: Narrow>(
    tables: &GeoTables<N>,
    lon1: N::Wide,
    lat1: N::Wide,
    lon2: N::Wide,
    lat2: N::Wide,
) -> (r: Option<N>)
    ensures
        wide_distance_gives(*tables, lon1, lat1, lon2, lat2, GeoMethod::SphereDegrees, r),
{
    wide_distance(tables, lon1, lat1, lon2, lat2, GeoMethod::SphereDegrees)
}

/// The distance between two points in meters along a great circle of the sphere.
pub fn great_circle_distance<N: Narrow>(
    tables: &GeoTables<N>,
    lon1: N::Wide,
    lat1: N::Wide,
    lon2: N::Wide,
    lat2: N::Wide,
) -> (r: Option<N>)
    ensures
        wide_distance_gives(*tables, lon1, lat1, lon2, lat2, GeoMethod::SphereMeters, r),
{
    wide_distance(tables, lon1, lat1, lon2, lat2, GeoMethod::SphereMeters)
}

} // verus!
