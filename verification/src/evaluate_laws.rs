//! What a registered function does when it is evaluated by its tag.

use geohash::GeohashError;
use h3o::error::InvalidLatLng;
use h3o::LatLng;
use vstd::prelude::*;
use vstd::string::to_string_from_display_ensures;
use vstd::utf8::valid_utf8;

use crate::distance::GeoMethod;
use crate::distance_exact::{
    is_distance, are_latitudes, lemma_exact_wide_distance, table_haversine,
};
use crate::eval::{
    are_same_errors, is_one_more_error, law_view_shows_the_errors, value_at, value_count,
    EvalContext, Value, ValueRef,
};
use crate::exact::{is_exact_narrow, Circle};
use crate::geohash_text::{
    decode_message, geohash_decoded, is_encoded_row, is_failed_row, is_geohash, is_geohash_byte,
    is_one_more_point, is_one_more_text, law_alphabet_of_a_geohash, law_geohash_is_text,
    lemma_first_bad_byte, lemma_one_more_text, stands_in_a_geohash, texts, utf8_error,
    GEOHASH_LENGTH,
};
use crate::h3::{is_cell_of, is_h3_row, is_one_more_cell};
use crate::lookup_laws::short_way;
use crate::numeric::{Narrow, Real};
use crate::polygon::{are_given, is_tuple_at, lemma_polygon_is_asked};
use crate::registry::{Evaluator, FunctionFactory};
use crate::tables::GeoTables;
use crate::types::FunctionDomain;

verus! {

/// The distance between two points that a tag evaluates is their distance by the
/// method.
pub proof fn law_exact_distance_row<N: Narrow>(
    value: spec_fn(N) -> real,
    wide_value: spec_fn(N::Wide) -> real,
    circle: Circle,
    tables: GeoTables<N>,
    lon1: N::Wide,
    lat1: N::Wide,
    lon2: N::Wide,
    lat2: N::Wide,
    method: GeoMethod,
    r: Option<N>,
)
    requires
        is_exact_narrow(value, wide_value, circle),
        circle.is_round(),
        tables.is_filled(),
        are_latitudes(wide_value(lat1), wide_value(lat2)),
        call_ensures(
            Evaluator::distance_row::<N>,
            (Evaluator::Distance(method), &tables, lon1, lat1, lon2, lat2),
            r,
        ),
    ensures
        short_way(wide_value(lon1) - wide_value(lon2)) < 13 as real ==> (r is Some <==> wide_value(lat1) + wide_value(
            lat2,
        ) < 180 as real),
        short_way(wide_value(lon1) - wide_value(lon2)) >= 13 as real && table_haversine(
            circle,
            wide_value(lat1),
            wide_value(lat2),
            short_way(wide_value(lat1) - wide_value(lat2)),
            short_way(wide_value(lon1) - wide_value(lon2)),
        ) >= 0 as real ==> r is Some,
        r is Some ==> is_distance(
            value,
            circle,
            tables,
            wide_value(lon1),
            wide_value(lat1),
            wide_value(lon2),
            wide_value(lat2),
            method,
            value(r->Some_0),
        ),
{
    lemma_exact_wide_distance(
        value,
        wide_value,
        circle,
        tables,
        lon1,
        lat1,
        lon2,
        lat2,
        method,
        r,
    );
}

/// A row that the tag of `geo_to_h3` evaluates asks for the location at its own latitude and longitude, and gets
/// the cell of that location, or zero and an error where there is none.
pub proof fn law_h3_row_asks_for_its_own_location<T, F: Fn(T, T) -> Result<LatLng, InvalidLatLng>>(
    lon: T,
    lat: T,
    r: u8,
    locate: F,
    builder: &mut Vec<u64>,
    ctx: &mut EvalContext,
)
    requires
        call_ensures(
            Evaluator::h3_row::<T, F>,
            (Evaluator::GeoToH3, lon, lat, r, locate, builder, ctx),
            (),
        ),
    ensures
        exists|located: Result<LatLng, InvalidLatLng>| #[trigger]
            call_ensures(locate, (lat, lon), located) && match located {
                Ok(location) => is_one_more_cell(
                    old(builder)@,
                    final(builder)@,
                    final(builder)@.last(),
                ) && is_cell_of(location, r, final(builder)@.last()) && are_same_errors(
                    *old(ctx),
                    *final(ctx),
                ),
                Err(e) => is_one_more_cell(old(builder)@, final(builder)@, 0) && exists|
                    message: String,
                | #[trigger]
                    to_string_from_display_ensures(&e, message) && is_one_more_error(
                        *old(ctx),
                        *final(ctx),
                        old(builder)@.len() as int,
                        message@,
                    ),
            },
{
    let before = builder@;
    let after = final(builder)@;
    let located = choose|located: Result<LatLng, InvalidLatLng>| #[trigger]
        call_ensures(locate, (lat, lon), located) && is_h3_row(
            located,
            r,
            (old(builder)@, old(ctx)@),
            (final(builder)@, final(ctx)@),
        );
    match located {
        Ok(_) => {
            assert forall|i: int| 0 <= i < before.len() implies #[trigger] after[i]
                == before[i] by {
                assert(after.drop_last()[i] == before[i]);
            }
            law_view_shows_the_errors(*ctx, *final(ctx), 0, Seq::empty());
        },
        Err(e) => {
            let n = before.len() as int;
            let message = choose|message: String| #[trigger]
                to_string_from_display_ensures(&e, message) && final(ctx)@ == old(ctx)@.push(
                    (n, message@),
                );
            law_view_shows_the_errors(*ctx, *final(ctx), n, message@);
        },
    }
    assert(call_ensures(locate, (lat, lon), located));
}

/// A row that the tag of `geohash_encode` evaluates asks for the geohash of twelve characters of its own longitude
/// and latitude, and gets it, or an empty text and an error where there is none.
pub proof fn law_encode_row_asks_for_its_own_geohash<
    T,
    F: Fn(T, T, usize) -> Result<String, GeohashError>,
>(lon: T, lat: T, encode: F, builder: &mut Vec<String>, ctx: &mut EvalContext)
    requires
        call_ensures(
            Evaluator::encode_row::<T, F>,
            (Evaluator::GeohashEncode, lon, lat, encode, builder, ctx),
            (),
        ),
    ensures
        exists|encoded: Result<String, GeohashError>| #[trigger]
            call_ensures(encode, (lon, lat, 12usize), encoded) && match encoded {
                Ok(text) => is_one_more_text(old(builder)@, final(builder)@, text@)
                    && are_same_errors(*old(ctx), *final(ctx)),
                Err(e) => is_one_more_text(old(builder)@, final(builder)@, Seq::empty()) && exists|
                    message: String,
                | #[trigger]
                    to_string_from_display_ensures(&e, message) && is_one_more_error(
                        *old(ctx),
                        *final(ctx),
                        old(builder)@.len() as int,
                        message@,
                    ),
            },
{
    let encoded = choose|encoded: Result<String, GeohashError>| #[trigger]
        call_ensures(encode, (lon, lat, GEOHASH_LENGTH), encoded) && is_encoded_row(
            encoded,
            (texts(old(builder)@), old(ctx)@),
            (texts(final(builder)@), final(ctx)@),
        );
    match encoded {
        Ok(text) => {
            lemma_one_more_text(builder@, final(builder)@, text@);
            law_view_shows_the_errors(*ctx, *final(ctx), 0, Seq::empty());
        },
        Err(e) => {
            let n = builder@.len() as int;
            lemma_one_more_text(builder@, final(builder)@, Seq::empty());
            let message = choose|message: String| #[trigger]
                to_string_from_display_ensures(&e, message) && final(ctx)@ == old(ctx)@.push(
                    (n, message@),
                );
            law_view_shows_the_errors(*ctx, *final(ctx), n, message@);
        },
    }
    assert(call_ensures(encode, (lon, lat, 12usize), encoded));
}

/// By its tag and whatever the column held before, a row with up to twelve characters of the alphabet gets
/// the point that `geohash::decode` finds for them, and reports no error.
pub proof fn law_decode_row_gets_the_point_of_its_geohash(
    encoded: &[u8],
    builder: &mut Vec<(u64, u64)>,
    ctx: &mut EvalContext,
)
    requires
        call_ensures(
            Evaluator::decode_row,
            (Evaluator::GeohashDecode, encoded, builder, ctx),
            (),
        ),
        encoded@.len() <= 12,
        forall|k: int| 0 <= k < encoded@.len() ==> stands_in_a_geohash(#[trigger] encoded@[k]),
    ensures
        geohash_decoded(encoded@) is Ok,
        is_one_more_point(old(builder)@, final(builder)@, geohash_decoded(encoded@)->Ok_0),
        are_same_errors(*old(ctx), *final(ctx)),
{
    assert forall|k: int| 0 <= k < encoded@.len() implies is_geohash_byte(
        #[trigger] encoded@[k],
    ) by {
        law_alphabet_of_a_geohash(encoded@[k]);
    }
    law_view_shows_the_errors(*ctx, *final(ctx), 0, Seq::empty());
}

/// By its tag and whatever the column held before, a row whose text is too long gets the origin and says
/// so, and a row with another character than those of the alphabet gets the origin and
/// names the first such byte.
pub proof fn law_decode_row_without_point_says_why(
    encoded: &[u8],
    k: int,
    builder: &mut Vec<(u64, u64)>,
    ctx: &mut EvalContext,
)
    requires
        call_ensures(
            Evaluator::decode_row,
            (Evaluator::GeohashDecode, encoded, builder, ctx),
            (),
        ),
        valid_utf8(encoded@),
        encoded@.len() > 12 || {
            &&& 0 <= k < encoded@.len()
            &&& forall|j: int| 0 <= j < k ==> stands_in_a_geohash(#[trigger] encoded@[j])
            &&& !stands_in_a_geohash(encoded@[k])
        },
    ensures
        is_one_more_point(old(builder)@, final(builder)@, (0, 0)),
        encoded@.len() > 12 ==> is_one_more_error(
            *old(ctx),
            *final(ctx),
            old(builder)@.len() as int,
            "Invalid input hash: Length of hash string greater than maximum allowed length"@,
        ),
        encoded@.len() <= 12 ==> is_one_more_error(
            *old(ctx),
            *final(ctx),
            old(builder)@.len() as int,
            "invalid hash character: "@ + seq![encoded@[k] as char],
        ),
{
    let n = builder@.len() as int;
    if encoded@.len() <= 12 {
        assert forall|j: int| 0 <= j < k implies is_geohash_byte(#[trigger] encoded@[j]) by {
            law_alphabet_of_a_geohash(encoded@[j]);
        }
        law_alphabet_of_a_geohash(encoded@[k]);
        lemma_first_bad_byte(encoded@, k);
        assert("invalid hash character: "@ + seq![encoded@[k] as char]
            =~= "invalid hash character: "@.push(encoded@[k] as char));
    }
    law_view_shows_the_errors(*ctx, *final(ctx), n, decode_message(encoded@));
}

/// By its tag and whatever the column held before, a row whose bytes are no text gets the origin and
/// reports why they are none.
pub proof fn law_decode_row_that_is_no_text_says_why(
    encoded: &[u8],
    builder: &mut Vec<(u64, u64)>,
    ctx: &mut EvalContext,
)
    requires
        call_ensures(
            Evaluator::decode_row,
            (Evaluator::GeohashDecode, encoded, builder, ctx),
            (),
        ),
        !valid_utf8(encoded@),
    ensures
        is_one_more_point(old(builder)@, final(builder)@, (0, 0)),
        exists|message: String| #[trigger]
            to_string_from_display_ensures(&utf8_error(encoded@), message) && is_one_more_error(
                *old(ctx),
                *final(ctx),
                old(builder)@.len() as int,
                message@,
            ),
{
    if is_geohash(encoded@) {
        law_geohash_is_text(encoded@);
    }
    let n = builder@.len() as int;
    let message = choose|message: String| #[trigger]
        to_string_from_display_ensures(&utf8_error(encoded@), message) && is_failed_row(
            message@,
            (old(builder)@, old(ctx)@),
            (final(builder)@, final(ctx)@),
        );
    law_view_shows_the_errors(*ctx, *final(ctx), n, message@);
}

/// Evaluating what makes the tests of polygons: for each row, the polygon of the given rings is asked about the tuple of that row: its
/// first field is the first coordinate of the point, and its second field the second.
/// The value is one where the answer is yes, and zero where it is no.
pub proof fn law_evaluated_polygon_is_asked_about_the_point<
    T: Real,
    F: Fn(&Vec<(T, T)>, &Vec<Vec<(T, T)>>, (T, T)) -> bool,
>(
    args: &[ValueRef<T>],
    contains: F,
    value: Value,
    row: int,
    p: (T, T),
    given: Seq<Seq<(T, T)>>,
    answer: bool,
)
    requires
        call_ensures(
            FunctionFactory::evaluate::<T, F>,
            (FunctionFactory::PointInPolygon, args, contains),
            value,
        ),
        0 <= row < value_count(value),
        is_tuple_at(args@[0], row, p),
        given.len() >= 1,
        are_given(args@, given),
        answer == (value_at(value, row) == 1),
    ensures
        value_at(value, row) == 0 || value_at(value, row) == 1,
        exists|o: &Vec<(T, T)>, h: &Vec<Vec<(T, T)>>|
            {
                &&& #[trigger] call_ensures(contains, (o, h, p), answer)
                &&& o@ == given[0]
                &&& h@.len() == given.len() - 1
                &&& forall|k: int| 0 <= k < h@.len() ==> (#[trigger] h@[k])@ == given[k + 1]
            },
{
    lemma_polygon_is_asked(args, contains, value, row, p, given, answer);
}

/// Every function tells that any value of its type may come out.
pub proof fn law_every_domain_is_full(
    evaluator: Evaluator,
    factory: FunctionFactory,
    one: FunctionDomain,
    other: FunctionDomain,
)
    requires
        call_ensures(Evaluator::domain, (evaluator,), one),
        call_ensures(FunctionFactory::domain, (factory,), other),
    ensures
        one == FunctionDomain::Full,
        other == FunctionDomain::Full,
{
}

} // verus!
