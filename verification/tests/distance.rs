use geo_scalars::distance::{
    checked_distance, distance, geo_distance, geodist_deg_diff, geodist_fast_asin_sqrt, geodist_fast_cos,
    geodist_fast_sin, great_circle_angle, great_circle_distance, wide_distance, GeoMethod,
};
use geo_scalars::numeric::{Narrow, Real};
use geo_scalars::tables::{
    geo_dist_init, GeoTables, ASIN_SQRT_LUT_SIZE, COS_LUT_SIZE, METRIC_LUT_SIZE,
};

#[derive(Clone, Copy, Debug, PartialEq)]
struct Single(f32);

#[derive(Clone, Copy, Debug, PartialEq)]
struct Double(f64);

impl Real for Single {
    fn whole(n: u64) -> Self {
        Single(n as f32)
    }
    fn pi() -> Self {
        Single(std::f32::consts::PI)
    }
    fn plus(self, other: Self) -> Self {
        Single(self.0 + other.0)
    }
    fn minus(self, other: Self) -> Self {
        Single(self.0 - other.0)
    }
    fn times(self, other: Self) -> Self {
        Single(self.0 * other.0)
    }
    fn over(self, other: Self) -> Self {
        Single(self.0 / other.0)
    }
    fn abs(self) -> Self {
        Single(self.0.abs())
    }
    fn squared(self) -> Self {
        Single(self.0.powi(2))
    }
    fn sqrt(self) -> Self {
        Single(self.0.sqrt())
    }
    fn cos(self) -> Self {
        Single(self.0.cos())
    }
    fn asin(self) -> Self {
        Single(self.0.asin())
    }
    fn less(self, other: Self) -> bool {
        self.0 < other.0
    }
    fn at_most(self, other: Self) -> bool {
        self.0 <= other.0
    }
    fn to_index(self) -> usize {
        self.0 as usize
    }
}

impl Real for Double {
    fn whole(n: u64) -> Self {
        Double(n as f64)
    }
    fn pi() -> Self {
        Double(std::f64::consts::PI)
    }
    fn plus(self, other: Self) -> Self {
        Double(self.0 + other.0)
    }
    fn minus(self, other: Self) -> Self {
        Double(self.0 - other.0)
    }
    fn times(self, other: Self) -> Self {
        Double(self.0 * other.0)
    }
    fn over(self, other: Self) -> Self {
        Double(self.0 / other.0)
    }
    fn abs(self) -> Self {
        Double(self.0.abs())
    }
    fn squared(self) -> Self {
        Double(self.0.powi(2))
    }
    fn sqrt(self) -> Self {
        Double(self.0.sqrt())
    }
    fn cos(self) -> Self {
        Double(self.0.cos())
    }
    fn asin(self) -> Self {
        Double(self.0.asin())
    }
    fn less(self, other: Self) -> bool {
        self.0 < other.0
    }
    fn at_most(self, other: Self) -> bool {
        self.0 <= other.0
    }
    fn to_index(self) -> usize {
        self.0 as usize
    }
}

impl Narrow for Single {
    type Wide = Double;

    fn widen(self) -> Double {
        Double(self.0 as f64)
    }
    fn narrow(wide: Double) -> Self {
        Single(wide.0 as f32)
    }
}

fn tables() -> GeoTables<Single> {
    geo_dist_init()
}

fn between_points(lon1: f32, lat1: f32, lon2: f32, lat2: f32, method: GeoMethod) -> Option<f32> {
    checked_distance(&tables(), Single(lon1), Single(lat1), Single(lon2), Single(lat2), method)
        .map(|r| r.0)
}

#[test]
fn cosine_table() {
    let t = tables();
    let cos = t.cos_ref();
    assert_eq!(cos.len(), COS_LUT_SIZE + 1);
    assert_eq!(cos[0].0, 1.0);
    assert_eq!(cos[1].0, 0.99998116);
    assert_eq!(cos[512].0, -1.0);
    assert_eq!(cos[1024].0, 1.0);
    for i in 0..=COS_LUT_SIZE {
        let angle = 2f64 * std::f64::consts::PI * i as f64 / COS_LUT_SIZE as f64;
        assert_eq!(cos[i].0, angle.cos() as f32);
    }
}

#[test]
fn arcsine_table() {
    let t = tables();
    let asin_sqrt = t.asin_sqrt_ref();
    assert_eq!(asin_sqrt.len(), ASIN_SQRT_LUT_SIZE + 1);
    assert_eq!(asin_sqrt[0].0, 0.0);
    assert_eq!(asin_sqrt[1].0, 0.04420857);
    assert_eq!(asin_sqrt[256].0, 0.7853982);
    assert_eq!(asin_sqrt[512].0, 1.5707964);
}

#[test]
fn sphere_tables() {
    let t = tables();
    assert_eq!(t.sphere_ref().len(), METRIC_LUT_SIZE + 1);
    assert_eq!(t.sphere_ref()[512].0, 1.0);
    assert_eq!(t.sphere_ref()[256].0, 0.5);
    assert_eq!(t.sphere_meters_ref().len(), METRIC_LUT_SIZE + 1);
    assert_eq!(t.sphere_meters_ref()[512].0, 12364339200.0);
    assert_eq!(t.sphere_meters_ref()[256].0, 6182169600.0);
}

#[test]
fn wgs84_table() {
    let t = tables();
    let wgs84 = t.wgs84_ref();
    assert_eq!(wgs84.len(), 2 * (METRIC_LUT_SIZE + 1));
    assert_eq!(wgs84[0].0, 334.2145);
    assert_eq!(wgs84[2].0, 334.2145);
    assert_eq!(wgs84[3].0, 18.511858);
    assert_eq!(wgs84[512].0, 333.363);
    assert_eq!(wgs84[513].0, 280.80093);
    assert_eq!(wgs84[1024].0, 332.51654);
    assert_eq!(wgs84[1025].0, 333.64758);
    assert_eq!(wgs84[2048].0, 334.2145);
    // both factors of every step
    for i in 1..METRIC_LUT_SIZE {
        let latitude = i as f64 * (std::f64::consts::PI / 1024f64) - std::f64::consts::PI * 0.5f64;
        let lat = (111132.09f64 - 566.05f64 * (2f64 * latitude).cos()
            + 1.20f64 * (4f64 * latitude).cos())
        .sqrt();
        let lon = (111415.13f64 * latitude.cos() - 94.55f64 * (3f64 * latitude).cos()
            + 0.12f64 * (5f64 * latitude).cos())
        .sqrt();
        assert_eq!(wgs84[2 * i].0, lat as f32);
        assert_eq!(wgs84[2 * i + 1].0, lon as f32);
    }
}

#[test]
fn tables_are_always_the_same() {
    let one = tables();
    let other = tables();
    assert_eq!(one.cos_ref(), other.cos_ref());
    assert_eq!(one.asin_sqrt_ref(), other.asin_sqrt_ref());
    assert_eq!(one.sphere_ref(), other.sphere_ref());
    assert_eq!(one.sphere_meters_ref(), other.sphere_meters_ref());
    for j in 2..2 * METRIC_LUT_SIZE {
        assert_eq!(one.wgs84_ref()[j], other.wgs84_ref()[j]);
    }
}

#[test]
fn constants_of_the_tables() {
    let t = tables();
    assert_eq!(t.degree_value().0, 0.017453292);
    assert_eq!(t.half_degree_value().0, 0.008726646);
    assert_eq!(t.earth_diameter_value().0, 2f32 * 6371007.180918475f32);
    assert_eq!(t.earth_diameter_value().0, 12742014.0);
}

#[test]
fn difference_of_angles() {
    assert_eq!(geodist_deg_diff(Single(10.0)).0, 10.0);
    assert_eq!(geodist_deg_diff(Single(-10.0)).0, 10.0);
    assert_eq!(geodist_deg_diff(Single(180.0)).0, 180.0);
    assert_eq!(geodist_deg_diff(Single(190.0)).0, 170.0);
    assert_eq!(geodist_deg_diff(Single(-350.0)).0, 10.0);
    assert_eq!(geodist_deg_diff(Single(400.0)).0, -40.0);
}

#[test]
fn cosine_by_the_table() {
    let t = tables();
    assert_eq!(geodist_fast_cos(&t, Single(0.0)).0, 1.0);
    assert_eq!(geodist_fast_cos(&t, Single(1.0)).0, 0.54030204);
    assert_eq!(geodist_fast_cos(&t, Single(-1.0)).0, 0.54030204);
}

#[test]
fn sine_by_the_table() {
    let t = tables();
    // the slot lies before the start of the table and wraps
    assert!(geodist_fast_sin(&t, Single(0.0)).0.abs() < 1e-15);
    assert_eq!(geodist_fast_sin(&t, Single(1.0)).0, 0.8414706);
    // the sine of the size of the angle
    assert_eq!(geodist_fast_sin(&t, Single(-1.0)).0, 0.8414706);
    // more than a full turn
    assert_eq!(geodist_fast_sin(&t, Single(10.0)).0, -0.544019);
}

#[test]
fn arcsine_of_a_root() {
    let t = tables();
    // series
    assert_eq!(geodist_fast_asin_sqrt(&t, Single(0.1)), Some(Single(0.3217495)));
    // table
    assert_eq!(geodist_fast_asin_sqrt(&t, Single(0.5)), Some(Single(0.7853982)));
    assert_eq!(
        geodist_fast_asin_sqrt(&t, Single(0.122)).map(|r| (r.0 * 1000.0).round()),
        Some(357.0)
    );
    // exact
    assert_eq!(geodist_fast_asin_sqrt(&t, Single(1.0)), Some(Single(1.5707964)));
    assert_eq!(
        geodist_fast_asin_sqrt(&t, Single(0.96)),
        Some(Single(0.96f32.sqrt().asin()))
    );
}

#[test]
fn far_points() {
    let p = (55.755831, 37.617673, -55.755831, -37.617673);
    assert_eq!(between_points(p.0, p.1, p.2, p.3, GeoMethod::SphereDegrees), Some(127.05919));
    assert_eq!(between_points(p.0, p.1, p.2, p.3, GeoMethod::SphereMeters), Some(14128353.0));
    assert_eq!(between_points(p.0, p.1, p.2, p.3, GeoMethod::Wgs84Meters), Some(14128353.0));
    assert_eq!(between_points(0.0, 0.0, 45.0, 0.0, GeoMethod::SphereDegrees), Some(44.99998));
    assert_eq!(between_points(0.0, 0.0, 30.0, 0.0, GeoMethod::SphereMeters), Some(3335835.25));
    assert_eq!(between_points(0.0, 0.0, 180.0, 0.0, GeoMethod::SphereDegrees), Some(180.0));
}

#[test]
fn near_points() {
    assert_eq!(between_points(0.0, 0.0, 0.0, 45.0, GeoMethod::SphereDegrees), Some(45.0));
    assert_eq!(between_points(0.0, 0.0, 0.0, 45.0, GeoMethod::SphereMeters), Some(5003777.5));
    assert_eq!(between_points(10.0, 10.0, 12.0, 11.0, GeoMethod::SphereDegrees), Some(2.2061627));
    assert_eq!(between_points(10.0, 10.0, 12.0, 11.0, GeoMethod::SphereMeters), Some(245314.375));
    assert_eq!(
        between_points(38.8976, -77.0366, 39.9496, -75.1503, GeoMethod::Wgs84Meters),
        Some(37.015377)
    );
    assert_eq!(between_points(10.0, 10.0, 12.0, 11.0, GeoMethod::Wgs84Meters), Some(40.69417));
    assert_eq!(between_points(0.0, 0.0, 0.0, 45.0, GeoMethod::Wgs84Meters), Some(820.8818));
}

#[test]
fn the_short_way_round() {
    // one degree on either side of the date line
    assert_eq!(between_points(179.0, 0.0, -179.0, 0.0, GeoMethod::SphereDegrees), Some(2.0));
}

#[test]
fn no_entry_at_the_pole() {
    for method in [GeoMethod::SphereDegrees, GeoMethod::SphereMeters, GeoMethod::Wgs84Meters] {
        assert_eq!(between_points(0.0, 90.0, 1.0, 90.0, method), None);
        assert!(between_points(0.0, 90.0, 1.0, 89.0, method).is_some());
        // the great circle needs no entry of the metric tables
        assert!(between_points(0.0, 90.0, 90.0, 90.0, method).is_some());
    }
}

#[test]
fn distances_from_double_precision() {
    let t = tables();
    let p = (
        Double(55.755831),
        Double(37.617673),
        Double(-55.755831),
        Double(-37.617673),
    );
    assert_eq!(great_circle_angle(&t, p.0, p.1, p.2, p.3), Some(Single(127.05919)));
    assert_eq!(great_circle_distance(&t, p.0, p.1, p.2, p.3), Some(Single(14128353.0)));
    assert_eq!(geo_distance(&t, p.0, p.1, p.2, p.3), Some(Single(14128353.0)));
    let q = (Double(38.8976), Double(-77.0366), Double(39.9496), Double(-75.1503));
    assert_eq!(great_circle_angle(&t, q.0, q.1, q.2, q.3), Some(Single(1.9031689)));
    assert_eq!(great_circle_distance(&t, q.0, q.1, q.2, q.3), Some(Single(211622.97)));
    assert_eq!(geo_distance(&t, q.0, q.1, q.2, q.3), Some(Single(37.015377)));
    assert_eq!(
        wide_distance(&t, q.0, q.1, q.2, q.3, GeoMethod::SphereMeters),
        great_circle_distance(&t, q.0, q.1, q.2, q.3)
    );
}

#[test]
fn distance_is_symmetric() {
    let points = [(0.0, 0.0), (10.5, -30.25), (12.75, 61.5), (-170.0, 5.0), (55.755831, 37.617673)];
    for method in [GeoMethod::SphereDegrees, GeoMethod::SphereMeters, GeoMethod::Wgs84Meters] {
        for p in points {
            for q in points {
                let there = between_points(p.0, p.1, q.0, q.1, method);
                assert!(there.is_some());
                assert_eq!(there, between_points(q.0, q.1, p.0, p.1, method));
            }
        }
    }
}

#[test]
fn sine_repeats_after_a_full_turn() {
    let t = tables();
    let quarter = std::f32::consts::FRAC_PI_2;
    // a quarter of a turn on, the sine is the cosine
    assert!((geodist_fast_sin(&t, Single(1.0 + quarter)).0 - geodist_fast_cos(&t, Single(1.0)).0).abs() < 1e-5);
    assert!((geodist_fast_sin(&t, Single(1.0 + 4.0 * quarter)).0 - 0.8414706).abs() < 1e-5);
}

#[test]
fn far_wgs84_is_the_sphere() {
    for (lon, lat1, lat2) in [(13.0, 5.0, 80.0), (90.0, -45.0, 45.0), (180.0, 0.0, 10.0)] {
        assert_eq!(
            between_points(0.0, lat1, lon, lat2, GeoMethod::Wgs84Meters),
            between_points(0.0, lat1, lon, lat2, GeoMethod::SphereMeters)
        );
    }
    assert_ne!(
        between_points(0.0, 5.0, 12.5, 80.0, GeoMethod::Wgs84Meters),
        between_points(0.0, 5.0, 12.5, 80.0, GeoMethod::SphereMeters)
    );
}

#[test]
fn no_distance_to_itself() {
    for method in [GeoMethod::SphereDegrees, GeoMethod::SphereMeters, GeoMethod::Wgs84Meters] {
        for (lon, lat) in [(0.0, 0.0), (5.0, 5.0), (-170.5, 89.0), (12.25, -77.5)] {
            assert_eq!(between_points(lon, lat, lon, lat, method), Some(0.0));
        }
    }
}

#[test]
fn only_the_difference_of_longitudes_matters() {
    for method in [GeoMethod::SphereDegrees, GeoMethod::SphereMeters, GeoMethod::Wgs84Meters] {
        for d in [4.0, 64.0] {
            let expected = between_points(0.0, 10.0, d, 20.0, method);
            assert_eq!(between_points(16.0, 10.0, 16.0 + d, 20.0, method), expected);
            assert_eq!(between_points(-16.0, 10.0, d - 16.0, 20.0, method), expected);
            // the other way round the earth
            assert_eq!(between_points(180.0, 10.0, d - 180.0, 20.0, method), expected);
        }
    }
}

#[test]
fn difference_of_angles_in_general() {
    for f in [0.0, 3.5, 179.0, 180.0, 181.0, 270.25, 360.0] {
        let d = geodist_deg_diff(Single(f));
        assert_eq!(geodist_deg_diff(Single(-f)), d);
        assert!(d.0 <= 180.0);
        assert_eq!(geodist_deg_diff(d), d);
    }
    // more than a full turn: only one turn is taken off
    assert_eq!(geodist_deg_diff(Single(-1000.0)).0, -640.0);
}

#[test]
fn cosine_ignores_the_sign() {
    let t = tables();
    for x in [0.0, 0.25, 1.5, 3.0, 7.75, 1e6] {
        assert_eq!(geodist_fast_cos(&t, Single(x)), geodist_fast_cos(&t, Single(-x)));
        assert_eq!(geodist_fast_sin(&t, Single(x)), geodist_fast_sin(&t, Single(-x)));
    }
}

#[test]
fn distance_where_the_tables_have_their_entries() {
    let t = tables();
    let r = distance(
        &t,
        Single(10.0),
        Single(10.0),
        Single(12.0),
        Single(11.0),
        GeoMethod::SphereMeters,
    );
    assert_eq!(r.0, 245314.375);
    let r = distance(
        &t,
        Single(55.755831),
        Single(37.617673),
        Single(-55.755831),
        Single(-37.617673),
        GeoMethod::SphereDegrees,
    );
    assert_eq!(r.0, 127.05919);
}

#[test]
fn only_near_points_at_the_pole_lack_an_entry() {
    for lat1 in [-90.0, -45.0, 0.0, 60.0, 89.0, 90.0] {
        for lat2 in [-90.0, -45.0, 0.0, 60.0, 89.0, 90.0] {
            for lon in [0.0, 5.0, 12.5, 13.0, 90.0, 180.0] {
                let missing =
                    between_points(0.0, lat1, lon, lat2, GeoMethod::SphereDegrees).is_none();
                assert_eq!(missing, lon < 13.0 && lat1 == 90.0 && lat2 == 90.0);
            }
        }
    }
}

#[test]
fn cosine_of_zero_is_the_first_entry() {
    let t = tables();
    assert_eq!(geodist_fast_cos(&t, Single(0.0)), t.cos_ref()[0]);
    assert_eq!(t.cos_ref()[0].0, 1.0);
}

#[test]
fn difference_stands_for_the_longitudes() {
    for method in [GeoMethod::SphereDegrees, GeoMethod::SphereMeters, GeoMethod::Wgs84Meters] {
        for (lon1, lon2) in [(10.0, 4.0), (-170.0, 175.0), (120.0, -20.5), (0.0, 100.0)] {
            let expected = between_points(lon1, 10.0, lon2, 20.0, method);
            let difference: f32 = lon1 - lon2;
            assert_eq!(between_points(difference, 10.0, 0.0, 20.0, method), expected);
            let short = geodist_deg_diff(Single(difference)).0;
            assert_eq!(between_points(short, 10.0, 0.0, 20.0, method), expected);
        }
    }
}
