//! The lookup tables behind the distance functions.

use vstd::prelude::*;

use crate::numeric::{
    decimal, law_expression_has_one_outcome, law_narrowed_has_one_outcome, narrow,
    narrow_has_one_outcome, narrowed, Expr, Narrow, Real, Term,
};

verus! {

/// The cosine table divides the full circle into this many steps.
pub const COS_LUT_SIZE: usize = 1024;

/// The arcsine table divides the interval from zero to one into this many steps.
pub const ASIN_SQRT_LUT_SIZE: usize = 512;

/// The metric tables divide the way from pole to pole into this many steps.
pub const METRIC_LUT_SIZE: usize = 1024;

/// The cosine of the `i`-th step of the circle.
pub open spec fn cos_entry<R>(i: int) -> Expr<R> {
    Expr::Whole(2).times(Expr::Pi).times(Expr::Whole(i as u64)).over(
        Expr::Whole(COS_LUT_SIZE as u64),
    ).cos()
}

/// The arcsine of the root of the `i`-th step of the unit interval.
pub open spec fn asin_sqrt_entry<R>(i: int) -> Expr<R> {
    Expr::Whole(i as u64).over(Expr::Whole(ASIN_SQRT_LUT_SIZE as u64)).sqrt().asin()
}

/// The latitude, in radians, of the `i`-th step from the south pole.
pub open spec fn latitude<R>(i: int) -> Expr<R> {
    Expr::Whole(i as u64).times(Expr::Pi.over(Expr::Whole(METRIC_LUT_SIZE as u64))).minus(
        Expr::Pi.times(decimal(5, 10)),
    )
}

/// The factor for a difference of latitude on the WGS84 ellipsoid.
pub open spec fn wgs84_latitude_entry<R>(i: int) -> Expr<R> {
    decimal(11113209, 100).minus(
        decimal(56605, 100).times(Expr::Whole(2).times(latitude(i)).cos()),
    ).plus(decimal(120, 100).times(Expr::Whole(4).times(latitude(i)).cos())).sqrt()
}

/// The factor for a difference of longitude on the WGS84 ellipsoid.
pub open spec fn wgs84_longitude_entry<R>(i: int) -> Expr<R> {
    decimal(11141513, 100).times(latitude(i).cos()).minus(
        decimal(9455, 100).times(Expr::Whole(3).times(latitude(i)).cos()),
    ).plus(decimal(12, 100).times(Expr::Whole(5).times(latitude(i)).cos())).sqrt()
}

/// The factor for a difference of longitude, in meters on the sphere.
pub open spec fn sphere_meters_entry<R>(earth_diameter: R, i: int) -> Expr<R> {
    Expr::Value(earth_diameter).times(Expr::Pi).over(Expr::Whole(360)).times(
        latitude(i).cos(),
    ).squared()
}

/// The factor for a difference of longitude, in degrees on the sphere.
pub open spec fn sphere_entry<R>(i: int) -> Expr<R> {
    latitude(i).cos().squared()
}

/// `r` is the earth's diameter in meters, from the WGS84 authalic radius.
pub open spec fn is_earth_diameter<N: Narrow>(r: N) -> bool {
    exists|radius: N|
        #[trigger] narrowed(decimal(6371007180918475, 1000000000), radius) && Expr::Whole(2).times(
            Expr::Value(radius),
        ).gives(r)
}

/// `r` is the entry of the table of meters on the sphere at step `i`.
pub open spec fn is_sphere_meters_entry<N: Narrow>(earth_diameter: N, i: int, r: N) -> bool {
    exists|wide: N::Wide| #[trigger]
        call_ensures(N::widen, (earth_diameter,), wide) && narrowed(
            sphere_meters_entry(wide, i),
            r,
        )
}

/// `r` is what slot `j` of the WGS84 table holds. The factors of a step stand next to
/// each other: that for latitude in the even slot, that for longitude in the odd one.
pub open spec fn is_wgs84_slot<N: Narrow>(j: int, r: N) -> bool {
    if j % 2 == 0 {
        narrowed(wgs84_latitude_entry(j / 2), r)
    } else {
        narrowed(wgs84_longitude_entry(j / 2), r)
    }
}

/// The lookup tables and the constants that go with them.
pub struct GeoTables<N: Narrow> {
    cos: Vec<N>,
    asin_sqrt: Vec<N>,
    sphere: Vec<N>,
    sphere_meters: Vec<N>,
    wgs84: Vec<N>,
    degree: N,
    half_degree: N,
    earth_diameter: N,
}

impl<N: Narrow> GeoTables<N> {
    /// The cosine table.
    pub closed spec fn cos(self) -> Seq<N> {
        self.cos@
    }

    /// The table of arcsines of roots.
    pub closed spec fn asin_sqrt(self) -> Seq<N> {
        self.asin_sqrt@
    }

    /// The longitude factors for degrees on the sphere.
    pub closed spec fn sphere(self) -> Seq<N> {
        self.sphere@
    }

    /// The longitude factors for meters on the sphere.
    pub closed spec fn sphere_meters(self) -> Seq<N> {
        self.sphere_meters@
    }

    /// The latitude and longitude factors for meters on the ellipsoid.
    pub closed spec fn wgs84(self) -> Seq<N> {
        self.wgs84@
    }

    /// One degree in radians.
    pub closed spec fn degree(self) -> N {
        self.degree
    }

    /// Half a degree in radians.
    pub closed spec fn half_degree(self) -> N {
        self.half_degree
    }

    /// The earth's diameter in meters.
    pub closed spec fn earth_diameter(self) -> N {
        self.earth_diameter
    }

    /// Every table has its full length, and every slot and constant its value.
    pub open spec fn is_filled(self) -> bool {
        &&& self.cos().len() == COS_LUT_SIZE + 1
        &&& self.asin_sqrt().len() == ASIN_SQRT_LUT_SIZE + 1
        &&& self.sphere().len() == METRIC_LUT_SIZE + 1
        &&& self.sphere_meters().len() == METRIC_LUT_SIZE + 1
        &&& self.wgs84().len() == 2 * (METRIC_LUT_SIZE + 1)
        &&& forall|i: int|
            0 <= i <= COS_LUT_SIZE ==> narrowed(cos_entry(i), #[trigger] self.cos()[i])
        &&& forall|i: int|
            0 <= i <= ASIN_SQRT_LUT_SIZE ==> narrowed(
                asin_sqrt_entry(i),
                #[trigger] self.asin_sqrt()[i],
            )
        &&& forall|i: int|
            0 <= i <= METRIC_LUT_SIZE ==> narrowed(sphere_entry(i), #[trigger] self.sphere()[i])
        &&& forall|i: int|
            0 <= i <= METRIC_LUT_SIZE ==> is_sphere_meters_entry(
                self.earth_diameter(),
                i,
                #[trigger] self.sphere_meters()[i],
            )
        &&& forall|j: int|
            0 <= j < 2 * (METRIC_LUT_SIZE + 1) ==> is_wgs84_slot(j, #[trigger] self.wgs84()[j])
        &&& narrowed(Expr::Pi.over(Expr::Whole(180)), self.degree())
        &&& narrowed(Expr::Pi.over(Expr::Whole(360)), self.half_degree())
        &&& is_earth_diameter(self.earth_diameter())
    }

    #[verifier::type_invariant]
    spec fn inv(self) -> bool {
        self.is_filled()
    }

    /// The cosine table.
    pub fn cos_ref(&self) -> (table: &Vec<N>)
        ensures
            table@ == self.cos(),
            self.is_filled(),
    {
        proof {
            use_type_invariant(self);
        }
        &self.cos
    }

    /// The table of arcsines of roots.
    pub fn asin_sqrt_ref(&self) -> (table: &Vec<N>)
        ensures
            table@ == self.asin_sqrt(),
            self.is_filled(),
    {
        proof {
            use_type_invariant(self);
        }
        &self.asin_sqrt
    }

    /// The longitude factors for degrees on the sphere.
    pub fn sphere_ref(&self) -> (table: &Vec<N>)
        ensures
            table@ == self.sphere(),
            self.is_filled(),
    {
        proof {
            use_type_invariant(self);
        }
        &self.sphere
    }

    /// The longitude factors for meters on the sphere.
    pub fn sphere_meters_ref(&self) -> (table: &Vec<N>)
        ensures
            table@ == self.sphere_meters(),
            self.is_filled(),
    {
        proof {
            use_type_invariant(self);
        }
        &self.sphere_meters
    }

    /// The latitude and longitude factors for meters on the ellipsoid.
    pub fn wgs84_ref(&self) -> (table: &Vec<N>)
        ensures
            table@ == self.wgs84(),
            self.is_filled(),
    {
        proof {
            use_type_invariant(self);
        }
        &self.wgs84
    }

    /// One degree in radians.
    pub fn degree_value(&self) -> (r: N)
        ensures
            r == self.degree(),
    {
        self.degree
    }

    /// Half a degree in radians.
    pub fn half_degree_value(&self) -> (r: N)
        ensures
            r == self.half_degree(),
    {
        self.half_degree
    }

    /// The earth's diameter in meters.
    pub fn earth_diameter_value(&self) -> (r: N)
        ensures
            r == self.earth_diameter(),
    {
        self.earth_diameter
    }
}

/// The cosine table.
fn cos_table<N: Narrow>() -> (table: Vec<N>)
    ensures
        table@.len() == COS_LUT_SIZE + 1,
        forall|i: int| 0 <= i <= COS_LUT_SIZE ==> narrowed(cos_entry(i), #[trigger] table@[i]),
{
    let mut table: Vec<N> = Vec::new();
    for i in 0..COS_LUT_SIZE + 1
        invariant
            table@.len() == i,
            forall|k: int| 0 <= k < i ==> narrowed(cos_entry(k), #[trigger] table@[k]),
    {
        let angle: Term<N::Wide> = Term::whole(2).times(Term::pi()).times(
            Term::whole(i as u64),
        ).over(Term::whole(COS_LUT_SIZE as u64));
        table.push(narrow(angle.cos()));
    }
    table
}

/// The table of arcsines of roots.
fn asin_sqrt_table<N: Narrow>() -> (table: Vec<N>)
    ensures
        table@.len() == ASIN_SQRT_LUT_SIZE + 1,
        forall|i: int|
            0 <= i <= ASIN_SQRT_LUT_SIZE ==> narrowed(asin_sqrt_entry(i), #[trigger] table@[i]),
{
    let mut table: Vec<N> = Vec::new();
    for i in 0..ASIN_SQRT_LUT_SIZE + 1
        invariant
            table@.len() == i,
            forall|k: int| 0 <= k < i ==> narrowed(asin_sqrt_entry(k), #[trigger] table@[k]),
    {
        let part: Term<N::Wide> = Term::whole(i as u64).over(
            Term::whole(ASIN_SQRT_LUT_SIZE as u64),
        );
        table.push(narrow(part.sqrt().asin()));
    }
    table
}

/// The latitude, in radians, of the `i`-th step from the south pole.
fn latitude_at<R: Real>(i: usize) -> (t: Term<R>)
    requires
        i <= METRIC_LUT_SIZE,
    ensures
        t.expr() == latitude::<R>(i as int),
{
    Term::whole(i as u64).times(Term::pi().over(Term::whole(METRIC_LUT_SIZE as u64))).minus(
        Term::pi().times(Term::decimal(5, 10)),
    )
}

/// The factor for a difference of latitude on the ellipsoid.
fn wgs84_latitude_at<R: Real>(i: usize) -> (t: Term<R>)
    requires
        i <= METRIC_LUT_SIZE,
    ensures
        t.expr() == wgs84_latitude_entry::<R>(i as int),
{
    let latitude = latitude_at(i);
    Term::decimal(11113209, 100).minus(
        Term::decimal(56605, 100).times(Term::whole(2).times(latitude).cos()),
    ).plus(Term::decimal(120, 100).times(Term::whole(4).times(latitude).cos())).sqrt()
}

/// The factor for a difference of longitude on the ellipsoid.
fn wgs84_longitude_at<R: Real>(i: usize) -> (t: Term<R>)
    requires
        i <= METRIC_LUT_SIZE,
    ensures
        t.expr() == wgs84_longitude_entry::<R>(i as int),
{
    let latitude = latitude_at(i);
    Term::decimal(11141513, 100).times(latitude.cos()).minus(
        Term::decimal(9455, 100).times(Term::whole(3).times(latitude).cos()),
    ).plus(Term::decimal(12, 100).times(Term::whole(5).times(latitude).cos())).sqrt()
}

/// The earth's diameter in meters.
fn earth_diameter<N: Narrow>() -> (r: N)
    ensures
        is_earth_diameter(r),
{
    let radius: N = narrow(Term::decimal(6371007180918475, 1000000000));
    let diameter = Term::whole(2).times(Term::of(radius)).value();
    assert(narrowed(decimal(6371007180918475, 1000000000), radius));
    diameter
}

/// Computes the lookup tables.
pub fn geo_dist_init<N: Narrow>() -> (tables: GeoTables<N>)
    ensures
        tables.is_filled(),
{
    let cos = cos_table();
    let asin_sqrt = asin_sqrt_table();
    let earth_diameter: N = earth_diameter();
    let wide_diameter = earth_diameter.widen();

    let mut wgs84: Vec<N> = Vec::new();
    let mut sphere_meters: Vec<N> = Vec::new();
    let mut sphere: Vec<N> = Vec::new();
    for i in 0..METRIC_LUT_SIZE + 1
        invariant
            call_ensures(N::widen, (earth_diameter,), wide_diameter),
            wgs84@.len() == 2 * i,
            sphere_meters@.len() == i,
            sphere@.len() == i,
            forall|j: int| 0 <= j < 2 * i ==> is_wgs84_slot(j, #[trigger] wgs84@[j]),
            forall|k: int|
                0 <= k < i ==> is_sphere_meters_entry(
                    earth_diameter,
                    k,
                    #[trigger] sphere_meters@[k],
                ),
            forall|k: int| 0 <= k < i ==> narrowed(sphere_entry(k), #[trigger] sphere@[k]),
    {
        let latitude = latitude_at(i);
        wgs84.push(narrow(wgs84_latitude_at(i)));
        wgs84.push(narrow(wgs84_longitude_at(i)));
        let meters = Term::of(wide_diameter).times(Term::pi()).over(Term::whole(360)).times(
            latitude.cos(),
        ).squared();
        sphere_meters.push(narrow(meters));
        assert(is_sphere_meters_entry(earth_diameter, i as int, sphere_meters@[i as int]));
        sphere.push(narrow(latitude.cos().squared()));
    }

    GeoTables {
        cos,
        asin_sqrt,
        sphere,
        sphere_meters,
        wgs84,
        degree: narrow(Term::pi().over(Term::whole(180))),
        half_degree: narrow(Term::pi().over(Term::whole(360))),
        earth_diameter,
    }
}

/// Computing the tables again gives the same tables, for numbers whose operations have
/// one outcome.
pub proof fn law_tables_are_always_the_same<N: Narrow>(one: GeoTables<N>, other: GeoTables<N>)
    requires
        narrow_has_one_outcome::<N>(),
        one.is_filled(),
        other.is_filled(),
    ensures
        one.cos() == other.cos(),
        one.asin_sqrt() == other.asin_sqrt(),
        one.sphere() == other.sphere(),
        one.sphere_meters() == other.sphere_meters(),
        one.wgs84() == other.wgs84(),
        one.degree() == other.degree(),
        one.half_degree() == other.half_degree(),
        one.earth_diameter() == other.earth_diameter(),
{
    lemma_one_earth_diameter(one.earth_diameter(), other.earth_diameter());
    law_narrowed_has_one_outcome(
        Expr::Pi.over(Expr::Whole(180)),
        one.degree(),
        other.degree(),
    );
    law_narrowed_has_one_outcome(
        Expr::Pi.over(Expr::Whole(360)),
        one.half_degree(),
        other.half_degree(),
    );
    assert forall|i: int| 0 <= i <= COS_LUT_SIZE implies one.cos()[i] == other.cos()[i] by {
        law_narrowed_has_one_outcome(cos_entry(i), one.cos()[i], other.cos()[i]);
    }
    assert(one.cos() =~= other.cos());
    assert forall|i: int| 0 <= i <= ASIN_SQRT_LUT_SIZE implies one.asin_sqrt()[i]
        == other.asin_sqrt()[i] by {
        law_narrowed_has_one_outcome(asin_sqrt_entry(i), one.asin_sqrt()[i], other.asin_sqrt()[i]);
    }
    assert(one.asin_sqrt() =~= other.asin_sqrt());
    assert forall|i: int| 0 <= i <= METRIC_LUT_SIZE implies one.sphere()[i]
        == other.sphere()[i] by {
        law_narrowed_has_one_outcome(sphere_entry(i), one.sphere()[i], other.sphere()[i]);
    }
    assert(one.sphere() =~= other.sphere());
    assert forall|i: int| 0 <= i <= METRIC_LUT_SIZE implies one.sphere_meters()[i]
        == other.sphere_meters()[i] by {
        lemma_one_sphere_meters_entry(
            one.earth_diameter(),
            i,
            one.sphere_meters()[i],
            other.sphere_meters()[i],
        );
    }
    assert(one.sphere_meters() =~= other.sphere_meters());
    assert forall|j: int| 0 <= j < 2 * (METRIC_LUT_SIZE + 1) implies one.wgs84()[j]
        == other.wgs84()[j] by {
        let entry = if j % 2 == 0 {
            wgs84_latitude_entry(j / 2)
        } else {
            wgs84_longitude_entry(j / 2)
        };
        assert(is_wgs84_slot(j, one.wgs84()[j]));
        assert(is_wgs84_slot(j, other.wgs84()[j]));
        law_narrowed_has_one_outcome(entry, one.wgs84()[j], other.wgs84()[j]);
    }
    assert(one.wgs84() =~= other.wgs84());
}

/// There is one diameter of the earth.
proof fn lemma_one_earth_diameter<N: Narrow>(r: N, s: N)
    requires
        narrow_has_one_outcome::<N>(),
        is_earth_diameter(r),
        is_earth_diameter(s),
    ensures
        r == s,
{
    let e = decimal(6371007180918475, 1000000000);
    let a = choose|radius: N|
        #[trigger] narrowed(decimal(6371007180918475, 1000000000), radius) && Expr::Whole(2).times(
            Expr::Value(radius),
        ).gives(r);
    let b = choose|radius: N|
        #[trigger] narrowed(decimal(6371007180918475, 1000000000), radius) && Expr::Whole(2).times(
            Expr::Value(radius),
        ).gives(s);
    law_narrowed_has_one_outcome(e, a, b);
    law_expression_has_one_outcome(Expr::Whole(2).times(Expr::Value(a)), r, s);
}

/// There is one entry of the table of meters on the sphere at each step.
proof fn lemma_one_sphere_meters_entry<N: Narrow>(earth_diameter: N, i: int, r: N, s: N)
    requires
        narrow_has_one_outcome::<N>(),
        is_sphere_meters_entry(earth_diameter, i, r),
        is_sphere_meters_entry(earth_diameter, i, s),
    ensures
        r == s,
{
    let wide = choose|wide: N::Wide| #[trigger]
        call_ensures(N::widen, (earth_diameter,), wide) && narrowed(
            sphere_meters_entry(wide, i),
            r,
        );
    law_narrowed_has_one_outcome(sphere_meters_entry(wide, i), r, s);
}

} // verus!
