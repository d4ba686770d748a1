//! The H3 cell of a location.

use h3o::error::{InvalidLatLng, InvalidResolution};
use h3o::{LatLng, Resolution};
use vstd::pervasive::unreached;
use vstd::prelude::*;
use vstd::string::to_string_from_display_ensures;

use crate::eval::{
    are_same_errors, is_one_more_error, law_view_shows_the_errors, EvalContext,
};

verus! {

/// `h3o::LatLng`, a location on the sphere. Nothing inside it is looked at here.
#[verifier::external_type_specification]
#[verifier::external_body]
pub struct ExLatLng(LatLng);

/// `h3o::error::InvalidLatLng`, why a pair of numbers is no location.
#[verifier::external_type_specification]
#[verifier::external_body]
pub struct ExInvalidLatLng(InvalidLatLng);

/// `h3o::Resolution`, how fine the grid of cells is.
#[verifier::external_type_specification]
#[verifier::external_body]
pub struct ExResolution(Resolution);

/// `h3o::error::InvalidResolution`, why a number is no resolution.
#[verifier::external_type_specification]
#[verifier::external_body]
pub struct ExInvalidResolution(InvalidResolution);

/// The finest resolution.
pub const MAX_RESOLUTION: u8 = 15;

/// The number of a resolution, from 0 to 15.
pub uninterp spec fn resolution_number(resolution: Resolution) -> u8;

/// `h3o` finds `cell` to be the cell of this resolution around the location. That
/// is a relation and not a function, since the sines and cosines that it is computed
/// from may differ in their last digits from one machine to the next.
pub uninterp spec fn is_cell_of(location: LatLng, resolution: u8, cell: u64) -> bool;

/// Calls `h3o::Resolution::try_from`, which accepts the numbers from 0 to 15 and
/// gives the resolution with that number.
#[verifier::external_body]
fn resolution_from(r: u8) -> (resolution: Result<Resolution, InvalidResolution>)
    ensures
        resolution is Ok <==> r <= MAX_RESOLUTION,
        resolution matches Ok(x) ==> resolution_number(x) == r,
{
    Resolution::try_from(r)
}

/// Calls `h3o::LatLng::to_cell` and takes the cell's index as a number. The index
/// has the mark of a cell and the resolution in its highest twelve bits, which for
/// resolution `r` make the number `128 + r`. Which cell it is, is left to
/// [`is_cell_of`].
#[verifier::external_body]
fn cell_at(location: LatLng, resolution: Resolution) -> (cell: u64)
    ensures
        is_cell_of(location, resolution_number(resolution), cell),
        cell >> 52 == 128 + resolution_number(resolution),
{
    u64::from(location.to_cell(resolution))
}

/// What a row of `geo_to_h3` leaves: the location's cell, or zero and an error.
pub open spec fn is_h3_row(
    located: Result<LatLng, InvalidLatLng>,
    r: u8,
    before: (Seq<u64>, Seq<(int, Seq<char>)>),
    after: (Seq<u64>, Seq<(int, Seq<char>)>),
) -> bool {
    match located {
        Ok(location) => {
            &&& after.1 == before.1
            &&& after.0.len() == before.0.len() + 1
            &&& after.0.drop_last() == before.0
            &&& is_cell_of(location, r, after.0.last())
            &&& after.0.last() >> 52 == 128 + r
        },
        Err(e) => {
            &&& after.0 == before.0.push(0)
            &&& exists|message: String|
                #[trigger] to_string_from_display_ensures(&e, message) && after.1 == before.1.push(
                    (before.0.len() as int, message@),
                )
        },
    }
}

/// Adds a row to the column: the cell of resolution `r` around the location, or zero
/// and an error where there is no location.
pub fn push_cell(
    located: Result<LatLng, InvalidLatLng>,
    r: u8,
    builder: &mut Vec<u64>,
    ctx: &mut EvalContext,
)
    requires
        located is Ok ==> r <= MAX_RESOLUTION,
    ensures
        is_h3_row(located, r, (old(builder)@, old(ctx)@), (final(builder)@, final(ctx)@)),
{
    match located {
        Ok(location) => match resolution_from(r) {
            Ok(resolution) => {
                builder.push(cell_at(location, resolution));
                assert(builder@.drop_last() =~= old(builder)@);
            },
            Err(_) => unreached(),
        },
        Err(e) => {
            let message = e.to_string();
            assert(to_string_from_display_ensures(&e, message));
            ctx.set_error(builder.len(), message);
            builder.push(0);
        },
    }
}

/// Adds a row to the column: the cell of resolution `r` around the point at the
/// given longitude and latitude in degrees, or zero and an error where these are no
/// location. `locate` makes a location of a latitude and a longitude in degrees.
pub fn geo_to_h3<T, F: Fn(T, T) -> Result<LatLng, InvalidLatLng>>(
    lon: T,
    lat: T,
    r: u8,
    locate: F,
    builder: &mut Vec<u64>,
    ctx: &mut EvalContext,
)
    requires
        call_requires(locate, (lat, lon)),
        forall|located: Result<LatLng, InvalidLatLng>| #[trigger]
            call_ensures(locate, (lat, lon), located) && located is Ok ==> r <= MAX_RESOLUTION,
    ensures
        exists|located: Result<LatLng, InvalidLatLng>| #[trigger]
            call_ensures(locate, (lat, lon), located) && is_h3_row(
                located,
                r,
                (old(builder)@, old(ctx)@),
                (final(builder)@, final(ctx)@),
            ),
{
    let located = locate(lat, lon);
    assert(call_ensures(locate, (lat, lon), located));
    push_cell(located, r, builder, ctx);
}

/// Each row adds one value to the column. The value is zero exactly where there was
/// no location, and exactly then the row has an error.
pub proof fn law_zero_marks_an_error(
    located: Result<LatLng, InvalidLatLng>,
    r: u8,
    before: (Seq<u64>, Seq<(int, Seq<char>)>),
    after: (Seq<u64>, Seq<(int, Seq<char>)>),
)
    requires
        is_h3_row(located, r, before, after),
    ensures
        after.0.len() == before.0.len() + 1,
        after.0.drop_last() == before.0,
        after.0.last() == 0 <==> located is Err,
        after.1.len() == before.1.len() + if after.0.last() == 0 {
            1int
        } else {
            0
        },
        after.0.last() == 0 ==> after.1.last().0 == before.0.len(),
{
    if located is Ok {
        assert(0u64 >> 52 == 0) by (bit_vector);
    } else {
        assert(after.0.drop_last() =~= before.0);
    }
}

/// The column keeps its values and gets one more.
pub open spec fn is_one_more_cell(before: Seq<u64>, after: Seq<u64>, cell: u64) -> bool {
    &&& after.len() == before.len() + 1
    &&& forall|i: int| 0 <= i < before.len() ==> #[trigger] after[i] == before[i]
    &&& after[before.len() as int] == cell
}

/// Whatever the column held before, a row with a location gets the cell that is found for
/// that location and resolution, and reports no error.
pub proof fn law_row_gets_the_cell_of_its_location(
    location: LatLng,
    r: u8,
    builder: &mut Vec<u64>,
    ctx: &mut EvalContext,
)
    requires
        call_ensures(push_cell, (Ok(location), r, builder, ctx), ()),
    ensures
        final(builder)@.len() == old(builder)@.len() + 1,
        is_one_more_cell(old(builder)@, final(builder)@, final(builder)@.last()),
        is_cell_of(location, r, final(builder)@.last()),
        final(builder)@.last() >> 52 == 128 + r,
        are_same_errors(*old(ctx), *final(ctx)),
{
    let before = builder@;
    let after = final(builder)@;
    assert(after.drop_last() == before);
    assert forall|i: int| 0 <= i < before.len() implies #[trigger] after[i] == before[i] by {
        assert(after.drop_last()[i] == before[i]);
    }
    law_view_shows_the_errors(*ctx, *final(ctx), 0, Seq::empty());
}

/// Whatever the column held before, a row without a location gets zero and reports why
/// there is no location.
pub proof fn law_row_without_location_gets_zero(
    e: InvalidLatLng,
    r: u8,
    builder: &mut Vec<u64>,
    ctx: &mut EvalContext,
)
    requires
        call_ensures(push_cell, (Err(e), r, builder, ctx), ()),
    ensures
        is_one_more_cell(old(builder)@, final(builder)@, 0),
        exists|message: String| #[trigger]
            to_string_from_display_ensures(&e, message) && is_one_more_error(
                *old(ctx),
                *final(ctx),
                old(builder)@.len() as int,
                message@,
            ),
{
    let n = builder@.len() as int;
    let message = choose|message: String| #[trigger]
        to_string_from_display_ensures(&e, message) && final(ctx)@ == old(ctx)@.push((n, message@));
    law_view_shows_the_errors(*ctx, *final(ctx), n, message@);
}

/// A row of `geo_to_h3` asks for the location at its own latitude and longitude, and gets
/// the cell of that location, or zero and an error where there is none.
pub proof fn law_row_asks_for_its_own_location<T, F: Fn(T, T) -> Result<LatLng, InvalidLatLng>>(
    lon: T,
    lat: T,
    r: u8,
    locate: F,
    builder: &mut Vec<u64>,
    ctx: &mut EvalContext,
)
    requires
        call_ensures(geo_to_h3::<T, F>, (lon, lat, r, locate, builder, ctx), ()),
    ensures
        exists|located: Result<LatLng, InvalidLatLng>| #[trigger]
            call_ensures(locate, (lat, lon), located) && match located {
                Ok(location) => is_one_more_cell(
                    old(builder)@,
                    final(builder)@,
                    final(builder)@.last(),
                ) && is_cell_of(location, r, final(builder)@.last()) && are_same_errors(
                    *old(ctx),
                    *final(ctx),
                ),
                Err(e) => is_one_more_cell(old(builder)@, final(builder)@, 0) && exists|
                    message: String,
                | #[trigger]
                    to_string_from_display_ensures(&e, message) && is_one_more_error(
                        *old(ctx),
                        *final(ctx),
                        old(builder)@.len() as int,
                        message@,
                    ),
            },
{
    let before = builder@;
    let after = final(builder)@;
    let located = choose|located: Result<LatLng, InvalidLatLng>| #[trigger]
        call_ensures(locate, (lat, lon), located) && is_h3_row(
            located,
            r,
            (old(builder)@, old(ctx)@),
            (final(builder)@, final(ctx)@),
        );
    match located {
        Ok(_) => {
            assert forall|i: int| 0 <= i < before.len() implies #[trigger] after[i]
                == before[i] by {
                assert(after.drop_last()[i] == before[i]);
            }
            law_view_shows_the_errors(*ctx, *final(ctx), 0, Seq::empty());
        },
        Err(e) => {
            let n = before.len() as int;
            let message = choose|message: String| #[trigger]
                to_string_from_display_ensures(&e, message) && final(ctx)@ == old(ctx)@.push(
                    (n, message@),
                );
            law_view_shows_the_errors(*ctx, *final(ctx), n, message@);
        },
    }
    assert(call_ensures(locate, (lat, lon), located));
}

} // verus!
