//! What holds of the distances between points.

use vstd::prelude::*;

use crate::distance::{
    angle_unit, asin_sqrt_gives, asin_sqrt_series, between, cos_slot, deg_diff_gives,
    distance_gives, fast_cos_gives, fast_sin_gives, flat_gives, great_circle_gives, haversine,
    latitude_factor, lacks_entry, longitude_factor, midpoint, sin_slot, steps, GeoMethod,
};
use crate::numeric::{
    decimal, has_one_outcome, law_comparison_has_one_outcome, law_expression_has_one_outcome,
    law_narrowed_has_one_outcome, narrow_has_one_outcome, narrowed, Expr, Narrow, Real,
};
use crate::tables::{cos_entry, GeoTables, ASIN_SQRT_LUT_SIZE, COS_LUT_SIZE, METRIC_LUT_SIZE};

verus! {

/// Every step of the circle has a slot in the cosine table with a slot after it, also
/// for the sine. The slots repeat after a full turn, and the sine of a step is the
/// cosine of the step a quarter of a turn before it.
pub proof fn law_slots_go_round(i: int)
    ensures
        0 <= cos_slot(i) < COS_LUT_SIZE,
        0 <= sin_slot(i) < COS_LUT_SIZE,
        cos_slot(i + COS_LUT_SIZE) == cos_slot(i),
        sin_slot(i + COS_LUT_SIZE) == sin_slot(i),
        sin_slot(i + COS_LUT_SIZE / 4) == cos_slot(i),
{
}

/// Sums and products do not depend on the order of their operands, nor does the size
/// of a difference.
pub open spec fn is_commutative<R: Real>() -> bool {
    &&& forall|x: R, y: R, r: R|
        #[trigger] call_ensures(R::plus, (x, y), r) ==> call_ensures(R::plus, (y, x), r)
    &&& forall|x: R, y: R, r: R|
        #[trigger] call_ensures(R::times, (x, y), r) ==> call_ensures(R::times, (y, x), r)
    &&& forall|x: R, y: R, r: R| #[trigger]
        Expr::Value(x).minus(Expr::Value(y)).abs().gives(r) ==> Expr::Value(y).minus(
            Expr::Value(x),
        ).abs().gives(r)
}

/// The size of a difference of angles does not depend on which comes first.
proof fn lemma_deg_diff_is_symmetric<R: Real>(x: R, y: R, r: R)
    requires
        is_commutative::<R>(),
        deg_diff_gives(Expr::Value(x).minus(Expr::Value(y)), r),
    ensures
        deg_diff_gives(Expr::Value(y).minus(Expr::Value(x)), r),
{
    let m = choose|m: R|
        {
            &&& #[trigger] Expr::Value(x).minus(Expr::Value(y)).abs().gives(m)
            &&& {
                ||| Expr::Whole(180).less_gives(Expr::Value(m), true) && Expr::Whole(360).minus(
                    Expr::Value(m),
                ).gives(r)
                ||| Expr::Whole(180).less_gives(Expr::Value(m), false) && r == m
            }
        };
    assert(Expr::Value(y).minus(Expr::Value(x)).abs().gives(m));
}

/// What `a` gives, `b` gives too.
pub open spec fn covers<R: Real>(a: Expr<R>, b: Expr<R>) -> bool {
    forall|r: R| #[trigger] a.gives(r) ==> b.gives(r)
}

/// A sum and a product of two numbers give the same after a swap.
proof fn lemma_swap<R: Real>(x: R, y: R)
    requires
        is_commutative::<R>(),
    ensures
        covers(Expr::Value(x).plus(Expr::Value(y)), Expr::Value(y).plus(Expr::Value(x))),
        covers(Expr::Value(x).times(Expr::Value(y)), Expr::Value(y).times(Expr::Value(x))),
{
    reveal_with_fuel(Expr::gives, 2);
    assert forall|r: R| #[trigger] Expr::Value(x).plus(Expr::Value(y)).gives(r) implies Expr::Value(
        y,
    ).plus(Expr::Value(x)).gives(r) by {
        assert(call_ensures(R::plus, (x, y), r));
        assert(call_ensures(R::plus, (y, x), r));
    }
    assert forall|r: R| #[trigger]
        Expr::Value(x).times(Expr::Value(y)).gives(r) implies Expr::Value(y).times(
        Expr::Value(x),
    ).gives(r) by {
        assert(call_ensures(R::times, (x, y), r));
        assert(call_ensures(R::times, (y, x), r));
    }
}

/// An operand may be replaced by one that gives at least the same.
proof fn lemma_replace<R: Real>(a: Expr<R>, b: Expr<R>, c: Expr<R>)
    requires
        covers(a, b),
    ensures
        covers(a.plus(c), b.plus(c)),
        covers(c.plus(a), c.plus(b)),
        covers(a.times(c), b.times(c)),
        covers(a.over(c), b.over(c)),
{
    assert forall|r: R| #[trigger] a.plus(c).gives(r) implies b.plus(c).gives(r) by {
        let (x, y) = choose|x: R, y: R|
            a.gives(x) && c.gives(y) && #[trigger] call_ensures(R::plus, (x, y), r);
        assert(b.gives(x) && c.gives(y) && call_ensures(R::plus, (x, y), r));
    }
    assert forall|r: R| #[trigger] c.plus(a).gives(r) implies c.plus(b).gives(r) by {
        let (x, y) = choose|x: R, y: R|
            c.gives(x) && a.gives(y) && #[trigger] call_ensures(R::plus, (x, y), r);
        assert(c.gives(x) && b.gives(y) && call_ensures(R::plus, (x, y), r));
    }
    assert forall|r: R| #[trigger] a.times(c).gives(r) implies b.times(c).gives(r) by {
        let (x, y) = choose|x: R, y: R|
            a.gives(x) && c.gives(y) && #[trigger] call_ensures(R::times, (x, y), r);
        assert(b.gives(x) && c.gives(y) && call_ensures(R::times, (x, y), r));
    }
    assert forall|r: R| #[trigger] a.over(c).gives(r) implies b.over(c).gives(r) by {
        let (x, y) = choose|x: R, y: R|
            a.gives(x) && c.gives(y) && #[trigger] call_ensures(R::over, (x, y), r);
        assert(b.gives(x) && c.gives(y) && call_ensures(R::over, (x, y), r));
    }
}

/// The middle between two latitudes does not depend on which comes first.
proof fn lemma_midpoint_is_symmetric<R: Real>(lat1: R, lat2: R)
    requires
        is_commutative::<R>(),
    ensures
        covers(midpoint(lat1, lat2), midpoint(lat2, lat1)),
{
    let a = Expr::Value(lat1).plus(Expr::Value(lat2));
    let b = Expr::Value(lat2).plus(Expr::Value(lat1));
    let size = Expr::Whole(METRIC_LUT_SIZE as u64);
    lemma_swap(lat1, lat2);
    lemma_replace(a, b, Expr::Whole(180));
    lemma_replace(a.plus(Expr::Whole(180)), b.plus(Expr::Whole(180)), size);
    lemma_replace(
        a.plus(Expr::Whole(180)).times(size),
        b.plus(Expr::Whole(180)).times(size),
        Expr::Whole(360),
    );
}

/// The distance as on a plane does not depend on which point comes first.
proof fn lemma_flat_is_symmetric<N: Narrow>(
    tables: GeoTables<N>,
    lat1: N,
    lat2: N,
    lat_diff: N,
    lon_diff: N,
    method: GeoMethod,
    r: Option<N>,
)
    requires
        is_commutative::<N>(),
        flat_gives(tables, lat1, lat2, lat_diff, lon_diff, method, r),
    ensures
        flat_gives(tables, lat2, lat1, lat_diff, lon_diff, method, r),
{
    lemma_midpoint_is_symmetric(lat1, lat2);
}

/// The great-circle distance does not depend on which point comes first.
proof fn lemma_great_circle_is_symmetric<N: Narrow>(
    tables: GeoTables<N>,
    lat1: N,
    lat2: N,
    lat_diff: N,
    lon_diff: N,
    method: GeoMethod,
    r: Option<N>,
)
    requires
        is_commutative::<N>(),
        great_circle_gives(tables, lat1, lat2, lat_diff, lon_diff, method, r),
    ensures
        great_circle_gives(tables, lat2, lat1, lat_diff, lon_diff, method, r),
{
    assert forall|cos1: N, cos2: N, sin_lat: N, sin_lon: N, a: N|
        #[trigger] haversine(sin_lat, cos1, cos2, sin_lon).gives(a) implies haversine(
        sin_lat,
        cos2,
        cos1,
        sin_lon,
    ).gives(a) by {
        let one = Expr::Value(cos1).times(Expr::Value(cos2));
        let other = Expr::Value(cos2).times(Expr::Value(cos1));
        let square = Expr::Value(sin_lon).squared();
        lemma_swap(cos1, cos2);
        lemma_replace(one, other, square);
        lemma_replace(one.times(square), other.times(square), Expr::Value(sin_lat).squared());
    }
}

/// The distance from one point to another is that from the other to the one, for
/// numbers whose sums and products do not depend on the order of their operands.
pub proof fn law_distance_is_symmetric<N: Narrow>(
    tables: GeoTables<N>,
    lon1deg: N,
    lat1deg: N,
    lon2deg: N,
    lat2deg: N,
    method: GeoMethod,
    r: Option<N>,
)
    requires
        is_commutative::<N>(),
        distance_gives(tables, lon1deg, lat1deg, lon2deg, lat2deg, method, r),
    ensures
        distance_gives(tables, lon2deg, lat2deg, lon1deg, lat1deg, method, r),
{
    let (lat_diff, lon_diff, near) = choose|lat_diff: N, lon_diff: N, near: bool|
        {
            &&& #[trigger] deg_diff_gives(
                Expr::Value(lat1deg).minus(Expr::Value(lat2deg)),
                lat_diff,
            )
            &&& #[trigger] deg_diff_gives(
                Expr::Value(lon1deg).minus(Expr::Value(lon2deg)),
                lon_diff,
            )
            &&& #[trigger] Expr::Value(lon_diff).less_gives(Expr::Whole(13), near)
            &&& if near {
                flat_gives(tables, lat1deg, lat2deg, lat_diff, lon_diff, method, r)
            } else {
                great_circle_gives(tables, lat1deg, lat2deg, lat_diff, lon_diff, method, r)
            }
        };
    lemma_deg_diff_is_symmetric(lat1deg, lat2deg, lat_diff);
    lemma_deg_diff_is_symmetric(lon1deg, lon2deg, lon_diff);
    if near {
        lemma_flat_is_symmetric(tables, lat1deg, lat2deg, lat_diff, lon_diff, method, r);
    } else {
        lemma_great_circle_is_symmetric(tables, lat1deg, lat2deg, lat_diff, lon_diff, method, r);
    }
}

/// The expression gives nothing but `v`.
pub open spec fn gives_only<R: Real>(e: Expr<R>, v: R) -> bool {
    forall|r: R| #[trigger] e.gives(r) ==> r == v
}

/// The two numbers have the same size, as a number and its negative have.
pub open spec fn is_same_size<R: Real>(x: R, y: R) -> bool {
    &&& covers(Expr::Value(x).abs(), Expr::Value(y).abs())
    &&& covers(Expr::Value(y).abs(), Expr::Value(x).abs())
}

/// The sign of a difference of angles does not matter.
pub proof fn law_deg_diff_ignores_the_sign<R: Real>(f: R, g: R, r: R)
    requires
        is_same_size(f, g),
    ensures
        deg_diff_gives(Expr::Value(f), r) <==> deg_diff_gives(Expr::Value(g), r),
{
}

/// Taking a size of more than half a turn from the full turn leaves half a turn at most.
pub open spec fn folds<R: Real>() -> bool {
    forall|m: R, d: R|
        Expr::Whole(180).less_gives(Expr::Value(m), true) && #[trigger] Expr::Whole(360).minus(
            Expr::Value(m),
        ).gives(d) ==> !Expr::Whole(180).less_gives(Expr::Value(d), true)
}

/// The size of a size is that size, and so is the size of what a size of a full turn at
/// most leaves of the full turn.
pub open spec fn keeps_sizes<R: Real>() -> bool {
    &&& forall|x: R, m: R| #[trigger]
        Expr::Value(x).abs().gives(m) ==> gives_only(Expr::Value(m).abs(), m)
    &&& forall|m: R, d: R|
        Expr::Value(m).at_most_gives(Expr::Whole(360), true) && #[trigger] Expr::Whole(360).minus(
            Expr::Value(m),
        ).gives(d) ==> gives_only(Expr::Value(d).abs(), d)
}

/// A difference of angles, the short way round, is not more than half a turn.
pub proof fn law_deg_diff_is_at_most_half_a_turn<R: Real>(f: R, r: R)
    requires
        has_one_outcome::<R>(),
        folds::<R>(),
        deg_diff_gives(Expr::Value(f), r),
    ensures
        !Expr::Whole(180).less_gives(Expr::Value(r), true),
{
    law_comparison_has_one_outcome(Expr::Whole(180), Expr::Value(r));
}

/// Up to a full turn, taking the difference the short way round a second time changes
/// nothing.
pub proof fn law_deg_diff_twice_is_once<R: Real>(f: R, r: R, s: R)
    requires
        has_one_outcome::<R>(),
        folds::<R>(),
        keeps_sizes::<R>(),
        forall|m: R| #[trigger]
            Expr::Value(f).abs().gives(m) ==> Expr::Value(m).at_most_gives(Expr::Whole(360), true),
        deg_diff_gives(Expr::Value(f), r),
        deg_diff_gives(Expr::Value(r), s),
    ensures
        s == r,
{
    law_deg_diff_is_at_most_half_a_turn(f, r);
    assert(gives_only(Expr::Value(r).abs(), r));
}

/// Only one turn is taken off: from a size of more than half a turn, however large it
/// is, comes what it leaves of the full turn.
pub proof fn law_deg_diff_takes_off_one_turn<R: Real>(f: R, m: R, r: R)
    requires
        has_one_outcome::<R>(),
        deg_diff_gives(Expr::Value(f), r),
        Expr::Value(f).abs().gives(m),
        Expr::Whole(180).less_gives(Expr::Value(m), true),
    ensures
        Expr::Whole(360).minus(Expr::Value(m)).gives(r),
{
    let n = choose|n: R|
        {
            &&& #[trigger] Expr::Value(f).abs().gives(n)
            &&& {
                ||| Expr::Whole(180).less_gives(Expr::Value(n), true) && Expr::Whole(360).minus(
                    Expr::Value(n),
                ).gives(r)
                ||| Expr::Whole(180).less_gives(Expr::Value(n), false) && r == n
            }
        };
    law_expression_has_one_outcome(Expr::Value(f).abs(), m, n);
    law_comparison_has_one_outcome(Expr::Whole(180), Expr::Value(m));
}

/// The sign of an angle does not matter for its cosine by the table, nor for the sine
/// of its size.
pub proof fn law_fast_cos_ignores_the_sign<N: Narrow>(tables: GeoTables<N>, x: N, y: N, r: N)
    requires
        is_same_size(x, y),
    ensures
        fast_cos_gives(tables, Expr::Value(x), r) <==> fast_cos_gives(tables, Expr::Value(y), r),
        fast_sin_gives(tables, Expr::Value(x), r) <==> fast_sin_gives(tables, Expr::Value(y), r),
{
    let scale = Expr::Whole(COS_LUT_SIZE as u64).over(Expr::Pi).over(Expr::Whole(2));
    lemma_replace(Expr::Value(x).abs(), Expr::Value(y).abs(), scale);
    lemma_replace(Expr::Value(y).abs(), Expr::Value(x).abs(), scale);
}

/// The cosine of zero by the table is the table's first entry, which is the cosine at the
/// start of the circle. Zero is as long as no step of the table, has the first index,
/// and leaves the first slot where it is.
pub proof fn law_fast_cos_of_zero_is_the_first_entry<N: Narrow>(
    tables: GeoTables<N>,
    zero: N,
    r: N,
)
    requires
        tables.is_filled(),
        gives_only(steps(Expr::Value(zero)), zero),
        forall|i: usize| #[trigger] call_ensures(N::to_index, (zero,), i) ==> i == 0,
        gives_only(
            between(tables.cos(), 0, Expr::Value(zero).minus(Expr::Whole(0))),
            tables.cos()[0],
        ),
        fast_cos_gives(tables, Expr::Value(zero), r),
    ensures
        r == tables.cos()[0],
        narrowed(cos_entry(0), r),
{
}

/// Far apart in longitude, the WGS84 method is that for meters on the sphere.
pub proof fn law_far_wgs84_is_the_sphere<N: Narrow>(
    tables: GeoTables<N>,
    lon1deg: N,
    lat1deg: N,
    lon2deg: N,
    lat2deg: N,
    r: Option<N>,
)
    requires
        forall|d: N| #[trigger]
            deg_diff_gives(Expr::Value(lon1deg).minus(Expr::Value(lon2deg)), d)
                ==> !Expr::Value(d).less_gives(Expr::Whole(13), true),
    ensures
        distance_gives(tables, lon1deg, lat1deg, lon2deg, lat2deg, GeoMethod::Wgs84Meters, r)
            <==> distance_gives(
            tables,
            lon1deg,
            lat1deg,
            lon2deg,
            lat2deg,
            GeoMethod::SphereMeters,
            r,
        ),
{
    assert(angle_unit(tables, GeoMethod::Wgs84Meters) == angle_unit(
        tables,
        GeoMethod::SphereMeters,
    ));
}

/// Of the longitudes only their difference, the short way round, matters.
pub proof fn law_only_the_difference_of_longitudes_matters<N: Narrow>(
    tables: GeoTables<N>,
    lon1deg: N,
    lon2deg: N,
    other1deg: N,
    other2deg: N,
    lat1deg: N,
    lat2deg: N,
    method: GeoMethod,
    r: Option<N>,
)
    requires
        forall|d: N| #[trigger]
            deg_diff_gives(Expr::Value(lon1deg).minus(Expr::Value(lon2deg)), d)
                ==> deg_diff_gives(Expr::Value(other1deg).minus(Expr::Value(other2deg)), d),
        distance_gives(tables, lon1deg, lat1deg, lon2deg, lat2deg, method, r),
    ensures
        distance_gives(tables, other1deg, lat1deg, other2deg, lat2deg, method, r),
{
}

/// `x * zero` is zero.
pub open spec fn is_erased_by<R: Real>(x: R, zero: R) -> bool {
    forall|r: R| #[trigger] call_ensures(R::times, (x, zero), r) ==> r == zero
}

/// `zero` behaves as zero where the formulas meet it.
pub open spec fn is_zero<R: Real>(zero: R) -> bool {
    &&& gives_only(Expr::Value(zero).abs(), zero)
    &&& gives_only(Expr::Value(zero).plus(Expr::Value(zero)), zero)
    &&& gives_only(Expr::Value(zero).sqrt(), zero)
    &&& is_erased_by(zero, zero)
    &&& !Expr::Whole(180).less_gives(Expr::Value(zero), true)
    &&& !Expr::Value(zero).less_gives(Expr::Whole(13), false)
}

/// The expression gives only numbers that become zero when they are multiplied with it.
pub open spec fn gives_factors<R: Real>(e: Expr<R>, zero: R) -> bool {
    forall|k: R| #[trigger] e.gives(k) ==> is_erased_by(k, zero)
}

/// The difference of equal angles is zero.
proof fn lemma_no_difference<R: Real>(x: R, zero: R, d: R)
    requires
        is_zero(zero),
        gives_only(Expr::Value(x).minus(Expr::Value(x)), zero),
        deg_diff_gives(Expr::Value(x).minus(Expr::Value(x)), d),
    ensures
        d == zero,
{
    let none = Expr::Value(x).minus(Expr::Value(x));
    assert forall|m: R| #[trigger] none.abs().gives(m) implies m == zero by {
        let y = choose|y: R| none.gives(y) && #[trigger] call_ensures(R::abs, (y,), m);
        assert(y == zero);
        assert(Expr::Value(zero).gives(zero) && call_ensures(R::abs, (zero,), m));
        assert(Expr::Value(zero).abs().gives(m));
    }
}

/// A factor times zero, twice, is zero.
proof fn lemma_erased<R: Real>(k: Expr<R>, zero: R)
    requires
        is_zero(zero),
        gives_factors(k, zero),
    ensures
        gives_only(k.times(Expr::Value(zero)).times(Expr::Value(zero)), zero),
{
    let z = Expr::Value(zero);
    assert forall|r: R| #[trigger] k.times(z).gives(r) implies r == zero by {
        let (x, y) = choose|x: R, y: R|
            k.gives(x) && z.gives(y) && #[trigger] call_ensures(R::times, (x, y), r);
        assert(y == zero && is_erased_by(x, zero));
    }
    assert forall|r: R| #[trigger] k.times(z).times(z).gives(r) implies r == zero by {
        let (x, y) = choose|x: R, y: R|
            k.times(z).gives(x) && z.gives(y) && #[trigger] call_ensures(R::times, (x, y), r);
        assert(x == zero && y == zero);
    }
}

/// The root of a sum of zeros is zero.
proof fn lemma_root_of_zeros<R: Real>(a: Expr<R>, b: Expr<R>, zero: R, v: R)
    requires
        is_zero(zero),
        gives_only(a, zero),
        gives_only(b, zero),
        a.plus(b).sqrt().gives(v),
    ensures
        v == zero,
{
    let z = Expr::Value(zero);
    let u = choose|u: R| a.plus(b).gives(u) && #[trigger] call_ensures(R::sqrt, (u,), v);
    let (x, y) = choose|x: R, y: R|
        a.gives(x) && b.gives(y) && #[trigger] call_ensures(R::plus, (x, y), u);
    assert(x == zero && y == zero);
    assert(z.gives(zero) && call_ensures(R::plus, (zero, zero), u));
    assert(z.plus(z).gives(u));
    assert(u == zero);
    assert(z.gives(zero) && call_ensures(R::sqrt, (zero,), v));
    assert(z.sqrt().gives(v));
}

/// A point is at no distance from itself, where its coordinates less themselves are
/// zero and the factors of its latitude, times zero, are zero.
pub proof fn law_distance_to_itself_is_zero<N: Narrow>(
    tables: GeoTables<N>,
    londeg: N,
    latdeg: N,
    method: GeoMethod,
    zero: N,
    r: Option<N>,
)
    requires
        is_zero(zero),
        gives_only(Expr::Value(londeg).minus(Expr::Value(londeg)), zero),
        gives_only(Expr::Value(latdeg).minus(Expr::Value(latdeg)), zero),
        forall|m: N, i: usize|
            midpoint(latdeg, latdeg).gives(m) && #[trigger] call_ensures(N::to_index, (m,), i) && i
                < METRIC_LUT_SIZE ==> {
                let fraction = Expr::Value(m).minus(Expr::Whole(i as u64));
                &&& gives_factors(latitude_factor(tables, method, i as int, fraction), zero)
                &&& gives_factors(longitude_factor(tables, method, i as int, fraction), zero)
            },
        distance_gives(tables, londeg, latdeg, londeg, latdeg, method, r),
    ensures
        r matches Some(v) ==> v == zero,
{
    let (lat_diff, lon_diff, near) = choose|lat_diff: N, lon_diff: N, near: bool|
        {
            &&& #[trigger] deg_diff_gives(Expr::Value(latdeg).minus(Expr::Value(latdeg)), lat_diff)
            &&& #[trigger] deg_diff_gives(Expr::Value(londeg).minus(Expr::Value(londeg)), lon_diff)
            &&& #[trigger] Expr::Value(lon_diff).less_gives(Expr::Whole(13), near)
            &&& if near {
                flat_gives(tables, latdeg, latdeg, lat_diff, lon_diff, method, r)
            } else {
                great_circle_gives(tables, latdeg, latdeg, lat_diff, lon_diff, method, r)
            }
        };
    lemma_no_difference(latdeg, zero, lat_diff);
    lemma_no_difference(londeg, zero, lon_diff);
    assert(near);
    let z = Expr::Value(zero);
    let (m, i) = choose|m: N, i: usize|
        {
            let fraction = Expr::Value(m).minus(Expr::Whole(i as u64));
            &&& midpoint(latdeg, latdeg).gives(m)
            &&& #[trigger] call_ensures(N::to_index, (m,), i)
            &&& if i < METRIC_LUT_SIZE {
                r matches Some(v) && latitude_factor(tables, method, i as int, fraction).times(
                    z,
                ).times(z).plus(
                    longitude_factor(tables, method, i as int, fraction).times(z).times(z),
                ).sqrt().gives(v)
            } else {
                r is None
            }
        };
    if i < METRIC_LUT_SIZE {
        let fraction = Expr::Value(m).minus(Expr::Whole(i as u64));
        let k_lat = latitude_factor(tables, method, i as int, fraction);
        let k_lon = longitude_factor(tables, method, i as int, fraction);
        lemma_erased(k_lat, zero);
        lemma_erased(k_lon, zero);
        lemma_root_of_zeros(k_lat.times(z).times(z), k_lon.times(z).times(z), zero, r->Some_0);
    }
}

/// There is one cosine by the table, for numbers whose operations have one outcome.
pub proof fn law_fast_cos_has_one_outcome<N: Narrow>(tables: GeoTables<N>, x: Expr<N>, r: N, s: N)
    requires
        has_one_outcome::<N>(),
        fast_cos_gives(tables, x, r),
        fast_cos_gives(tables, x, s),
    ensures
        r == s,
{
    let (y, i) = choose|y: N, i: usize|
        {
            &&& steps(x).gives(y)
            &&& #[trigger] call_ensures(N::to_index, (y,), i)
            &&& between(
                tables.cos(),
                cos_slot(i as int),
                Expr::Value(y).minus(Expr::Whole(i as u64)),
            ).gives(r)
        };
    let (z, j) = choose|y: N, i: usize|
        {
            &&& steps(x).gives(y)
            &&& #[trigger] call_ensures(N::to_index, (y,), i)
            &&& between(
                tables.cos(),
                cos_slot(i as int),
                Expr::Value(y).minus(Expr::Whole(i as u64)),
            ).gives(s)
        };
    law_expression_has_one_outcome(steps(x), y, z);
    law_expression_has_one_outcome(
        between(
            tables.cos(),
            cos_slot(i as int),
            Expr::Value(y).minus(Expr::Whole(i as u64)),
        ),
        r,
        s,
    );
}

/// There is one sine by the table, for numbers whose operations have one outcome.
pub proof fn law_fast_sin_has_one_outcome<N: Narrow>(tables: GeoTables<N>, x: Expr<N>, r: N, s: N)
    requires
        has_one_outcome::<N>(),
        fast_sin_gives(tables, x, r),
        fast_sin_gives(tables, x, s),
    ensures
        r == s,
{
    let (y, i) = choose|y: N, i: usize|
        {
            &&& steps(x).gives(y)
            &&& #[trigger] call_ensures(N::to_index, (y,), i)
            &&& between(
                tables.cos(),
                sin_slot(i as int),
                Expr::Value(y).minus(Expr::Whole(i as u64)),
            ).gives(r)
        };
    let (z, j) = choose|y: N, i: usize|
        {
            &&& steps(x).gives(y)
            &&& #[trigger] call_ensures(N::to_index, (y,), i)
            &&& between(
                tables.cos(),
                sin_slot(i as int),
                Expr::Value(y).minus(Expr::Whole(i as u64)),
            ).gives(s)
        };
    law_expression_has_one_outcome(steps(x), y, z);
    law_expression_has_one_outcome(
        between(
            tables.cos(),
            sin_slot(i as int),
            Expr::Value(y).minus(Expr::Whole(i as u64)),
        ),
        r,
        s,
    );
}

/// There is one arcsine of a root, for numbers whose operations have one outcome.
pub proof fn law_asin_sqrt_has_one_outcome<N: Narrow>(tables: GeoTables<N>, x: N, r: Option<N>, s: Option<N>)
    requires
        narrow_has_one_outcome::<N>(),
        asin_sqrt_gives(tables, x, r),
        asin_sqrt_gives(tables, x, s),
    ensures
        r == s,
{
    let e = Expr::Value(x);
    law_comparison_has_one_outcome(e, decimal(122, 1000));
    law_comparison_has_one_outcome(e, decimal(948, 1000));
    if e.less_gives(decimal(122, 1000), true) {
        let wide = choose|wide: N::Wide| #[trigger]
            call_ensures(N::widen, (x,), wide) && narrowed(
                asin_sqrt_series(Expr::Value(wide)),
                r->Some_0,
            );
        law_narrowed_has_one_outcome(
            asin_sqrt_series(Expr::Value(wide)),
            r->Some_0,
            s->Some_0,
        );
    } else if e.less_gives(decimal(948, 1000), true) {
        let part = e.times(Expr::Whole(ASIN_SQRT_LUT_SIZE as u64));
        assert forall|y: N, z: N| #[trigger] part.gives(y) && #[trigger] part.gives(z) implies y
            == z by {
            law_expression_has_one_outcome(part, y, z);
        }
        let (y, i) = choose|y: N, i: usize|
            part.gives(y) && #[trigger] call_ensures(N::to_index, (y,), i);
        if i < ASIN_SQRT_LUT_SIZE {
            law_expression_has_one_outcome(
                between(
                    tables.asin_sqrt(),
                    i as int,
                    Expr::Value(y).minus(Expr::Whole(i as u64)),
                ),
                r->Some_0,
                s->Some_0,
            );
        }
    } else {
        law_expression_has_one_outcome(e.sqrt().asin(), r->Some_0, s->Some_0);
    }
}

/// There is one difference of angles, the short way round, for numbers whose operations
/// have one outcome.
pub proof fn law_deg_diff_has_one_outcome<R: Real>(f: Expr<R>, r: R, s: R)
    requires
        has_one_outcome::<R>(),
        deg_diff_gives(f, r),
        deg_diff_gives(f, s),
    ensures
        r == s,
{
    assert forall|m: R, n: R| #[trigger] f.abs().gives(m) && #[trigger] f.abs().gives(
        n,
    ) implies m == n by {
        law_expression_has_one_outcome(f.abs(), m, n);
    }
    let m = choose|m: R| #[trigger] f.abs().gives(m);
    law_comparison_has_one_outcome(Expr::Whole(180), Expr::Value(m));
    if Expr::Whole(180).less_gives(Expr::Value(m), true) {
        law_expression_has_one_outcome(Expr::Whole(360).minus(Expr::Value(m)), r, s);
    }
}

/// There is one distance as on a plane.
proof fn lemma_one_flat<N: Narrow>(
    tables: GeoTables<N>,
    lat1: N,
    lat2: N,
    lat_diff: N,
    lon_diff: N,
    method: GeoMethod,
    r: Option<N>,
    s: Option<N>,
)
    requires
        has_one_outcome::<N>(),
        flat_gives(tables, lat1, lat2, lat_diff, lon_diff, method, r),
        flat_gives(tables, lat1, lat2, lat_diff, lon_diff, method, s),
    ensures
        r == s,
{
    let middle = midpoint(lat1, lat2);
    assert forall|m: N, n: N| #[trigger] middle.gives(m) && #[trigger] middle.gives(n) implies m
        == n by {
        law_expression_has_one_outcome(middle, m, n);
    }
    let (m, i) = choose|m: N, i: usize|
        middle.gives(m) && #[trigger] call_ensures(N::to_index, (m,), i);
    if i < METRIC_LUT_SIZE {
        let fraction = Expr::Value(m).minus(Expr::Whole(i as u64));
        let dlat = Expr::Value(lat_diff);
        let dlon = Expr::Value(lon_diff);
        law_expression_has_one_outcome(
            latitude_factor(tables, method, i as int, fraction).times(dlat).times(dlat).plus(
                longitude_factor(tables, method, i as int, fraction).times(dlon).times(dlon),
            ).sqrt(),
            r->Some_0,
            s->Some_0,
        );
    }
}

/// There is one great-circle distance.
proof fn lemma_one_great_circle<N: Narrow>(
    tables: GeoTables<N>,
    lat1: N,
    lat2: N,
    lat_diff: N,
    lon_diff: N,
    method: GeoMethod,
    r: Option<N>,
    s: Option<N>,
)
    requires
        narrow_has_one_outcome::<N>(),
        great_circle_gives(tables, lat1, lat2, lat_diff, lon_diff, method, r),
        great_circle_gives(tables, lat1, lat2, lat_diff, lon_diff, method, s),
    ensures
        r == s,
{
    assert forall|x: Expr<N>, u: N, v: N| #[trigger]
        fast_sin_gives(tables, x, u) && #[trigger] fast_sin_gives(tables, x, v) implies u == v by {
        law_fast_sin_has_one_outcome(tables, x, u, v);
    }
    assert forall|x: Expr<N>, u: N, v: N| #[trigger]
        fast_cos_gives(tables, x, u) && #[trigger] fast_cos_gives(tables, x, v) implies u == v by {
        law_fast_cos_has_one_outcome(tables, x, u, v);
    }
    assert forall|x: N, u: Option<N>, v: Option<N>| #[trigger]
        asin_sqrt_gives(tables, x, u) && #[trigger] asin_sqrt_gives(tables, x, v) implies u
        == v by {
        law_asin_sqrt_has_one_outcome(tables, x, u, v);
    }
    assert forall|sin_lat: N, cos1: N, cos2: N, sin_lon: N, a: N, b: N|
        #[trigger] haversine(sin_lat, cos1, cos2, sin_lon).gives(a) && #[trigger] haversine(
            sin_lat,
            cos1,
            cos2,
            sin_lon,
        ).gives(b) implies a == b by {
        law_expression_has_one_outcome(haversine(sin_lat, cos1, cos2, sin_lon), a, b);
    }
    assert forall|h: N, u: N, v: N|
        #[trigger] angle_unit(tables, method).times(Expr::Value(h)).gives(u)
            && #[trigger] angle_unit(tables, method).times(Expr::Value(h)).gives(v) implies u
        == v by {
        law_expression_has_one_outcome(angle_unit(tables, method).times(Expr::Value(h)), u, v);
    }
}

/// There is one distance between two points, for numbers whose operations have one
/// outcome.
pub proof fn law_distance_has_one_outcome<N: Narrow>(
    tables: GeoTables<N>,
    lon1deg: N,
    lat1deg: N,
    lon2deg: N,
    lat2deg: N,
    method: GeoMethod,
    r: Option<N>,
    s: Option<N>,
)
    requires
        narrow_has_one_outcome::<N>(),
        distance_gives(tables, lon1deg, lat1deg, lon2deg, lat2deg, method, r),
        distance_gives(tables, lon1deg, lat1deg, lon2deg, lat2deg, method, s),
    ensures
        r == s,
{
    let dlat = Expr::Value(lat1deg).minus(Expr::Value(lat2deg));
    let dlon = Expr::Value(lon1deg).minus(Expr::Value(lon2deg));
    assert forall|f: Expr<N>, u: N, v: N| #[trigger] deg_diff_gives(f, u) && #[trigger]
        deg_diff_gives(f, v) implies u == v by {
        law_deg_diff_has_one_outcome(f, u, v);
    }
    let lat_diff = choose|d: N| deg_diff_gives(dlat, d);
    let lon_diff = choose|d: N| deg_diff_gives(dlon, d);
    law_comparison_has_one_outcome(Expr::Value(lon_diff), Expr::Whole(13));
    if Expr::Value(lon_diff).less_gives(Expr::Whole(13), true) {
        lemma_one_flat(tables, lat1deg, lat2deg, lat_diff, lon_diff, method, r, s);
    } else {
        lemma_one_great_circle(tables, lat1deg, lat2deg, lat_diff, lon_diff, method, r, s);
    }
}

/// The distance there is the distance back, for numbers whose operations have one
/// outcome and whose sums and products do not depend on the order of their operands.
pub proof fn law_distance_there_is_distance_back<N: Narrow>(
    tables: GeoTables<N>,
    lon1deg: N,
    lat1deg: N,
    lon2deg: N,
    lat2deg: N,
    method: GeoMethod,
    there: Option<N>,
    back: Option<N>,
)
    requires
        narrow_has_one_outcome::<N>(),
        is_commutative::<N>(),
        distance_gives(tables, lon1deg, lat1deg, lon2deg, lat2deg, method, there),
        distance_gives(tables, lon2deg, lat2deg, lon1deg, lat1deg, method, back),
    ensures
        there == back,
{
    law_distance_is_symmetric(tables, lon1deg, lat1deg, lon2deg, lat2deg, method, there);
    law_distance_has_one_outcome(
        tables,
        lon2deg,
        lat2deg,
        lon1deg,
        lat1deg,
        method,
        there,
        back,
    );
}

/// Far apart in longitude, the distance by the WGS84 method equals that in meters on the
/// sphere, for numbers whose operations have one outcome.
pub proof fn law_far_wgs84_equals_the_sphere<N: Narrow>(
    tables: GeoTables<N>,
    lon1deg: N,
    lat1deg: N,
    lon2deg: N,
    lat2deg: N,
    ellipsoid: Option<N>,
    sphere: Option<N>,
)
    requires
        narrow_has_one_outcome::<N>(),
        forall|d: N| #[trigger]
            deg_diff_gives(Expr::Value(lon1deg).minus(Expr::Value(lon2deg)), d)
                ==> !Expr::Value(d).less_gives(Expr::Whole(13), true),
        distance_gives(
            tables,
            lon1deg,
            lat1deg,
            lon2deg,
            lat2deg,
            GeoMethod::Wgs84Meters,
            ellipsoid,
        ),
        distance_gives(
            tables,
            lon1deg,
            lat1deg,
            lon2deg,
            lat2deg,
            GeoMethod::SphereMeters,
            sphere,
        ),
    ensures
        ellipsoid == sphere,
{
    law_far_wgs84_is_the_sphere(tables, lon1deg, lat1deg, lon2deg, lat2deg, ellipsoid);
    law_distance_has_one_outcome(
        tables,
        lon1deg,
        lat1deg,
        lon2deg,
        lat2deg,
        GeoMethod::SphereMeters,
        ellipsoid,
        sphere,
    );
}

/// A size of more than a full turn is one of more than half a turn, and leaves less than
/// nothing of the full turn.
pub open spec fn is_ordered_beyond_a_turn<R: Real>() -> bool {
    &&& forall|m: R|
        #![trigger Expr::<R>::Whole(360).less_gives(Expr::Value(m), true)]
        Expr::<R>::Whole(360).less_gives(Expr::Value(m), true) ==> Expr::<R>::Whole(
            180,
        ).less_gives(Expr::Value(m), true)
    &&& forall|m: R, d: R|
        Expr::<R>::Whole(360).less_gives(Expr::Value(m), true) && #[trigger] Expr::Whole(360).minus(
            Expr::Value(m),
        ).gives(d) ==> Expr::Value(d).less_gives(Expr::Whole(0), true)
}

/// A difference of more than a full turn comes out as what it leaves of the full turn,
/// which is negative.
pub proof fn law_deg_diff_beyond_a_turn_is_negative<R: Real>(f: R, m: R, r: R)
    requires
        has_one_outcome::<R>(),
        is_ordered_beyond_a_turn::<R>(),
        deg_diff_gives(Expr::Value(f), r),
        Expr::Value(f).abs().gives(m),
        Expr::Whole(360).less_gives(Expr::Value(m), true),
    ensures
        Expr::Whole(360).minus(Expr::Value(m)).gives(r),
        Expr::Value(r).less_gives(Expr::Whole(0), true),
{
    law_deg_diff_takes_off_one_turn(f, m, r);
}

/// The difference of angles is that of any expression with the same one outcome.
proof fn lemma_deg_diff_of_outcome<R: Real>(e: Expr<R>, v: R, d: R)
    requires
        has_one_outcome::<R>(),
        e.gives(v),
    ensures
        deg_diff_gives(e, d) <==> deg_diff_gives(Expr::Value(v), d),
{
    let w = Expr::Value(v);
    assert forall|m: R| #[trigger] e.abs().gives(m) implies w.abs().gives(m) by {
        let x = choose|x: R| e.gives(x) && #[trigger] call_ensures(R::abs, (x,), m);
        law_expression_has_one_outcome(e, x, v);
        assert(w.gives(v) && call_ensures(R::abs, (v,), m));
    }
    assert forall|m: R| #[trigger] w.abs().gives(m) implies e.abs().gives(m) by {
        let x = choose|x: R| w.gives(x) && #[trigger] call_ensures(R::abs, (x,), m);
        assert(e.gives(v) && call_ensures(R::abs, (v,), m));
    }
}

/// Of the longitudes only the difference matters: it may stand for the first longitude,
/// with zero for the second, and the distance stays equal, for numbers whose operations
/// have one outcome and from which zero takes nothing.
pub proof fn law_difference_stands_for_the_longitudes<N: Narrow>(
    tables: GeoTables<N>,
    lon1deg: N,
    lat1deg: N,
    lon2deg: N,
    lat2deg: N,
    method: GeoMethod,
    difference: N,
    zero: N,
    r: Option<N>,
    s: Option<N>,
)
    requires
        narrow_has_one_outcome::<N>(),
        Expr::Value(lon1deg).minus(Expr::Value(lon2deg)).gives(difference),
        Expr::Value(difference).minus(Expr::Value(zero)).gives(difference),
        distance_gives(tables, lon1deg, lat1deg, lon2deg, lat2deg, method, r),
        distance_gives(tables, difference, lat1deg, zero, lat2deg, method, s),
    ensures
        r == s,
{
    let one = Expr::Value(lon1deg).minus(Expr::Value(lon2deg));
    let other = Expr::Value(difference).minus(Expr::Value(zero));
    assert forall|d: N| #[trigger] deg_diff_gives(one, d) implies deg_diff_gives(other, d) by {
        lemma_deg_diff_of_outcome(one, difference, d);
        lemma_deg_diff_of_outcome(other, difference, d);
    }
    law_only_the_difference_of_longitudes_matters(
        tables,
        lon1deg,
        lon2deg,
        difference,
        zero,
        lat1deg,
        lat2deg,
        method,
        r,
    );
    law_distance_has_one_outcome(tables, difference, lat1deg, zero, lat2deg, method, r, s);
}

/// Of the longitudes only the difference, the short way round, matters: where it is not
/// more than a full turn before that, it may stand for the first longitude, with zero
/// for the second, and the distance stays equal.
pub proof fn law_short_way_stands_for_the_longitudes<N: Narrow>(
    tables: GeoTables<N>,
    lon1deg: N,
    lat1deg: N,
    lon2deg: N,
    lat2deg: N,
    method: GeoMethod,
    difference: N,
    short: N,
    zero: N,
    r: Option<N>,
    s: Option<N>,
)
    requires
        narrow_has_one_outcome::<N>(),
        folds::<N>(),
        keeps_sizes::<N>(),
        Expr::Value(lon1deg).minus(Expr::Value(lon2deg)).gives(difference),
        forall|m: N| #[trigger]
            Expr::Value(difference).abs().gives(m) ==> Expr::Value(m).at_most_gives(
                Expr::Whole(360),
                true,
            ),
        deg_diff_gives(Expr::Value(difference), short),
        Expr::Value(short).minus(Expr::Value(zero)).gives(short),
        distance_gives(tables, lon1deg, lat1deg, lon2deg, lat2deg, method, r),
        distance_gives(tables, short, lat1deg, zero, lat2deg, method, s),
    ensures
        r == s,
{
    let one = Expr::Value(lon1deg).minus(Expr::Value(lon2deg));
    let other = Expr::Value(short).minus(Expr::Value(zero));
    assert forall|d: N| #[trigger] deg_diff_gives(other, d) implies deg_diff_gives(one, d) by {
        lemma_deg_diff_of_outcome(other, short, d);
        law_deg_diff_twice_is_once(difference, short, d);
        lemma_deg_diff_of_outcome(one, difference, d);
    }
    law_only_the_difference_of_longitudes_matters(
        tables,
        short,
        zero,
        lon1deg,
        lon2deg,
        lat1deg,
        lat2deg,
        method,
        s,
    );
    law_distance_has_one_outcome(tables, lon1deg, lat1deg, lon2deg, lat2deg, method, r, s);
}

/// The points are near to each other in longitude, and the middle of their latitudes lies
/// at the last step of the metric tables or behind it, as where both points are at the
/// north pole.
pub open spec fn is_near_and_beyond<N: Narrow>(
    lon1deg: N,
    lat1deg: N,
    lon2deg: N,
    lat2deg: N,
) -> bool {
    exists|lon_diff: N, m: N, i: usize|
        {
            &&& #[trigger] deg_diff_gives(
                Expr::Value(lon1deg).minus(Expr::Value(lon2deg)),
                lon_diff,
            )
            &&& Expr::Value(lon_diff).less_gives(Expr::Whole(13), true)
            &&& midpoint(lat1deg, lat2deg).gives(m)
            &&& #[trigger] call_ensures(N::to_index, (m,), i)
            &&& i >= METRIC_LUT_SIZE
        }
}

/// Numbers below 0.948 have a step in the table of arcsines.
pub open spec fn has_arcsine_steps<N: Narrow>() -> bool {
    forall|x: N, y: N, i: usize|
        {
            &&& Expr::Value(x).less_gives(decimal(948, 1000), true)
            &&& #[trigger] Expr::Value(x).times(Expr::Whole(ASIN_SQRT_LUT_SIZE as u64)).gives(y)
            &&& #[trigger] call_ensures(N::to_index, (y,), i)
        } ==> i < ASIN_SQRT_LUT_SIZE
}

/// There is no distance exactly where the points are near to each other in longitude and
/// the metric tables end before the middle of their latitudes. Along the great circle
/// there always is one, for numbers below 0.948 that have a step in the table of
/// arcsines.
pub proof fn law_only_near_points_at_the_pole_lack_an_entry<N: Narrow>(
    tables: GeoTables<N>,
    lon1deg: N,
    lat1deg: N,
    lon2deg: N,
    lat2deg: N,
    method: GeoMethod,
    r: Option<N>,
)
    requires
        narrow_has_one_outcome::<N>(),
        has_arcsine_steps::<N>(),
        distance_gives(tables, lon1deg, lat1deg, lon2deg, lat2deg, method, r),
    ensures
        r is None <==> is_near_and_beyond(lon1deg, lat1deg, lon2deg, lat2deg),
        lacks_entry(tables, lon1deg, lat1deg, lon2deg, lat2deg, method) <==> is_near_and_beyond(
            lon1deg,
            lat1deg,
            lon2deg,
            lat2deg,
        ),
{
    let dlon = Expr::Value(lon1deg).minus(Expr::Value(lon2deg));
    assert forall|u: N, v: N| #[trigger] deg_diff_gives(dlon, u) && #[trigger] deg_diff_gives(
        dlon,
        v,
    ) implies u == v by {
        law_deg_diff_has_one_outcome(dlon, u, v);
    }
    let lon_diff = choose|d: N| deg_diff_gives(dlon, d);
    law_comparison_has_one_outcome(Expr::Value(lon_diff), Expr::Whole(13));
    let middle = midpoint(lat1deg, lat2deg);
    assert forall|m: N, n: N| #[trigger] middle.gives(m) && #[trigger] middle.gives(n) implies m
        == n by {
        law_expression_has_one_outcome(middle, m, n);
    }
    if lacks_entry(tables, lon1deg, lat1deg, lon2deg, lat2deg, method) {
        law_distance_has_one_outcome(
            tables,
            lon1deg,
            lat1deg,
            lon2deg,
            lat2deg,
            method,
            r,
            None,
        );
    }
}

} // verus!
