//! From a registered function to the code that evaluates it.

use geohash::GeohashError;
use h3o::error::InvalidLatLng;
use h3o::LatLng;
use vstd::pervasive::unreached;
use vstd::prelude::*;

use crate::distance::{wide_distance, wide_distance_gives};
use crate::ellipses::{in_ellipses_gives, is_point_and_parameters, point_in_ellipses_fn};
use crate::eval::{input_rows, EvalContext, Value, ValueRef};
use crate::geohash_text::{
    decode_gives, geohash_decode, geohash_encode, is_encoded_row, texts, GEOHASH_LENGTH,
};
use crate::h3::{geo_to_h3, is_h3_row, MAX_RESOLUTION};
use crate::numeric::{Narrow, Real};
use crate::polygon::{accepts, in_polygon_gives, is_point_and_polygon, point_in_polygon_fn};
use crate::registry::{Evaluator, FunctionFactory};
use crate::tables::GeoTables;

verus! {

impl Evaluator {
    /// Evaluates a distance function for one row.
    pub fn distance_row<N: Narrow>(
        self,
        tables: &GeoTables<N>,
        lon1: N::Wide,
        lat1: N::Wide,
        lon2: N::Wide,
        lat2: N::Wide,
    ) -> (r: Option<N>)
        requires
            self is Distance,
        ensures
            wide_distance_gives(*tables, lon1, lat1, lon2, lat2, self->Distance_0, r),
    {
        match self {
            Evaluator::Distance(method) => wide_distance(tables, lon1, lat1, lon2, lat2, method),
            _ => unreached(),
        }
    }

    /// Evaluates `geo_to_h3` for one row.
    pub fn h3_row<T, F: Fn(T, T) -> Result<LatLng, InvalidLatLng>>(
        self,
        lon: T,
        lat: T,
        r: u8,
        locate: F,
        builder: &mut Vec<u64>,
        ctx: &mut EvalContext,
    )
        requires
            self is GeoToH3,
            call_requires(locate, (lat, lon)),
            forall|located: Result<LatLng, InvalidLatLng>| #[trigger]
                call_ensures(locate, (lat, lon), located) && located is Ok ==> r <= MAX_RESOLUTION,
        ensures
            exists|located: Result<LatLng, InvalidLatLng>| #[trigger]
                call_ensures(locate, (lat, lon), located) && is_h3_row(
                    located,
                    r,
                    (old(builder)@, old(ctx)@),
                    (final(builder)@, final(ctx)@),
                ),
    {
        geo_to_h3(lon, lat, r, locate, builder, ctx)
    }

    /// Evaluates `geohash_encode` for one row.
    pub fn encode_row<T, F: Fn(T, T, usize) -> Result<String, GeohashError>>(
        self,
        lon: T,
        lat: T,
        encode: F,
        builder: &mut Vec<String>,
        ctx: &mut EvalContext,
    )
        requires
            self is GeohashEncode,
            call_requires(encode, (lon, lat, GEOHASH_LENGTH)),
        ensures
            exists|encoded: Result<String, GeohashError>| #[trigger]
                call_ensures(encode, (lon, lat, GEOHASH_LENGTH), encoded) && is_encoded_row(
                    encoded,
                    (texts(old(builder)@), old(ctx)@),
                    (texts(final(builder)@), final(ctx)@),
                ),
    {
        geohash_encode(lon, lat, encode, builder, ctx)
    }

    /// Evaluates `geohash_decode` for one row.
    pub fn decode_row(self, encoded: &[u8], builder: &mut Vec<(u64, u64)>, ctx: &mut EvalContext)
        requires
            self is GeohashDecode,
            encoded@.len() > 0,
        ensures
            decode_gives(
                encoded@,
                (old(builder)@, old(ctx)@),
                (final(builder)@, final(ctx)@),
            ),
    {
        geohash_decode(encoded, builder, ctx)
    }
}

impl FunctionFactory {
    /// Evaluates the function that was made. `contains` tells of an outer ring, the holes
    /// and a point whether the polygon contains the point.
    pub fn evaluate<R: Real, F: Fn(&Vec<(R, R)>, &Vec<Vec<(R, R)>>, (R, R)) -> bool>(
        self,
        args: &[ValueRef<R>],
        contains: F,
    ) -> (value: Value)
        requires
            match self {
                FunctionFactory::PointInEllipses => is_point_and_parameters(args@),
                FunctionFactory::PointInPolygon => accepts(contains, args@) && (input_rows(args@)
                    > 0 ==> is_point_and_polygon(args@)),
            },
        ensures
            match self {
                FunctionFactory::PointInEllipses => in_ellipses_gives(args@, value),
                FunctionFactory::PointInPolygon => in_polygon_gives(args@, contains, value),
            },
    {
        match self {
            FunctionFactory::PointInEllipses => point_in_ellipses_fn(args),
            FunctionFactory::PointInPolygon => point_in_polygon_fn(args, contains),
        }
    }
}

} // verus!
