//! Geohashes: the text for a point, and the point for a text.

use core::str::Utf8Error;

use geohash::GeohashError;
use vstd::prelude::*;
use vstd::string::to_string_from_display_ensures;
use vstd::utf8::{
    decode_utf8, encode_utf8, encode_utf8_decode_utf8, encode_utf8_valid_utf8, is_ascii_chars,
    is_ascii_chars_encode_utf8, valid_utf8,
};

use crate::eval::{
    are_same_errors, is_one_more_error, law_view_shows_the_errors, EvalContext,
};

verus! {

/// `geohash::GeohashError`, why a text is no geohash, or has none.
#[verifier::external_type_specification]
#[verifier::external_body]
pub struct ExGeohashError(GeohashError);

/// `core::str::Utf8Error`, why bytes are no text.
#[verifier::external_type_specification]
#[verifier::external_body]
pub struct ExUtf8Error(Utf8Error);

/// The number of characters of a geohash that is made here, which is also the
/// largest number that a geohash can have.
pub const GEOHASH_LENGTH: usize = 12;

/// A byte that can stand in a geohash: a digit, or a small letter other than a, i, l
/// and o.
pub open spec fn is_geohash_byte(b: u8) -> bool {
    ||| 0x30 <= b <= 0x39
    ||| 0x62 <= b <= 0x7a && b != 0x69 && b != 0x6c && b != 0x6f
}

/// Bytes that are a geohash.
pub open spec fn is_geohash(bytes: Seq<u8>) -> bool {
    &&& bytes.len() <= GEOHASH_LENGTH
    &&& forall|k: int| 0 <= k < bytes.len() ==> is_geohash_byte(#[trigger] bytes[k])
}

/// The first byte that cannot stand in a geohash.
pub open spec fn first_bad_byte(bytes: Seq<u8>) -> u8
    decreases bytes.len(),
{
    if bytes.len() > 0 && is_geohash_byte(bytes[0]) {
        first_bad_byte(bytes.drop_first())
    } else {
        bytes[0]
    }
}

/// The message for a text, by its bytes, that is no geohash.
pub open spec fn decode_message(bytes: Seq<u8>) -> Seq<char> {
    if bytes.len() > GEOHASH_LENGTH {
        "Invalid input hash: Length of hash string greater than maximum allowed length"@
    } else {
        "invalid hash character: "@.push(first_bad_byte(bytes) as char)
    }
}

/// What `geohash::decode` returns for a text, by its bytes: the point in the middle
/// of the geohash's rectangle, by the bits of its longitude and latitude as numbers
/// of double precision, or the error.
pub uninterp spec fn geohash_decoded(bytes: Seq<u8>) -> Result<(u64, u64), GeohashError>;

/// What `core::str::from_utf8` returns as the error for bytes that are no text.
pub uninterp spec fn utf8_error(bytes: Seq<u8>) -> Utf8Error;

/// `core::str::from_utf8` gives the text that the bytes encode, or an error where
/// they encode none.
pub assume_specification[ core::str::from_utf8 ](v: &[u8]) -> (r: Result<&str, Utf8Error>)
    ensures
        match r {
            Ok(text) => valid_utf8(v@) && encode_utf8(text@) == v@,
            Err(e) => !valid_utf8(v@) && e == utf8_error(v@),
        },
;

/// Calls `geohash::decode`, which accepts exactly the geohashes, and takes the
/// point's coordinates by their bits. The error for another text displays as
/// [`decode_message`] says. The empty text is left out: for it the call shifts a
/// number by its full width.
#[verifier::external_body]
fn decode(text: &str) -> (r: Result<(u64, u64), GeohashError>)
    requires
        text@.len() > 0,
    ensures
        r == geohash_decoded(encode_utf8(text@)),
        r is Ok <==> is_geohash(encode_utf8(text@)),
        r matches Err(e) ==> forall|message: String| #[trigger]
            to_string_from_display_ensures(&e, message) ==> message@ == decode_message(
                encode_utf8(text@),
            ),
{
    geohash::decode(text).map(|(c, _, _)| (c.x.to_bits(), c.y.to_bits()))
}

/// A geohash is a text: each of its bytes is a character.
pub proof fn law_geohash_is_text(bytes: Seq<u8>)
    requires
        is_geohash(bytes),
    ensures
        valid_utf8(bytes),
        decode_utf8(bytes) == bytes.map_values(|b: u8| b as char),
{
    let chars = bytes.map_values(|b: u8| b as char);
    assert(is_ascii_chars(chars)) by {
        assert forall|i: int| 0 <= i < chars.len() implies '\0' <= #[trigger] chars[i]
            <= '\u{7f}' by {
            assert(is_geohash_byte(bytes[i]));
        }
    }
    is_ascii_chars_encode_utf8(chars);
    assert(encode_utf8(chars) =~= bytes) by {
        assert forall|i: int| 0 <= i < bytes.len() implies encode_utf8(chars)[i]
            == #[trigger] bytes[i] by {
            assert(is_geohash_byte(bytes[i]));
            assert(chars[i] as u8 == encode_utf8(chars)[i]);
        }
    }
    encode_utf8_valid_utf8(chars);
    encode_utf8_decode_utf8(chars);
}

/// What a row of `geohash_decode` leaves where the text was read: the point.
pub open spec fn is_decoded_row(
    point: (u64, u64),
    before: (Seq<(u64, u64)>, Seq<(int, Seq<char>)>),
    after: (Seq<(u64, u64)>, Seq<(int, Seq<char>)>),
) -> bool {
    &&& after.0 == before.0.push(point)
    &&& after.1 == before.1
}

/// What a row of `geohash_decode` leaves where the text was not read: the origin,
/// whose coordinates have no bit set, and an error.
pub open spec fn is_failed_row(
    message: Seq<char>,
    before: (Seq<(u64, u64)>, Seq<(int, Seq<char>)>),
    after: (Seq<(u64, u64)>, Seq<(int, Seq<char>)>),
) -> bool {
    &&& after.0 == before.0.push((0, 0))
    &&& after.1 == before.1.push((before.0.len() as int, message))
}

/// What a row of `geohash_decode` leaves for the given bytes.
pub open spec fn decode_gives(
    encoded: Seq<u8>,
    before: (Seq<(u64, u64)>, Seq<(int, Seq<char>)>),
    after: (Seq<(u64, u64)>, Seq<(int, Seq<char>)>),
) -> bool {
    &&& is_geohash(encoded) ==> geohash_decoded(encoded) is Ok && is_decoded_row(
        geohash_decoded(encoded)->Ok_0,
        before,
        after,
    )
    &&& !is_geohash(encoded) && valid_utf8(encoded) ==> is_failed_row(
        decode_message(encoded),
        before,
        after,
    )
    &&& !valid_utf8(encoded) ==> exists|message: String| #[trigger]
        to_string_from_display_ensures(&utf8_error(encoded), message) && is_failed_row(
            message@,
            before,
            after,
        )
}

/// Adds a row to the column: the point of a geohash by the bits of its longitude and
/// latitude, or the origin and an error where the bytes are no geohash.
pub fn geohash_decode(encoded: &[u8], builder: &mut Vec<(u64, u64)>, ctx: &mut EvalContext)
    requires
        encoded@.len() > 0,
    ensures
        decode_gives(
            encoded@,
            (old(builder)@, old(ctx)@),
            (final(builder)@, final(ctx)@),
        ),
{
    proof {
        if is_geohash(encoded@) {
            law_geohash_is_text(encoded@);
        }
    }
    match core::str::from_utf8(encoded) {
        Ok(text) => {
            assert(text@.len() > 0);
            match decode(text) {
                Ok(point) => builder.push(point),
                Err(e) => {
                    let message = e.to_string();
                    assert(to_string_from_display_ensures(&e, message));
                    ctx.set_error(builder.len(), message);
                    builder.push((0, 0));
                },
            }
        },
        Err(e) => {
            let message = e.to_string();
            assert(to_string_from_display_ensures(&utf8_error(encoded@), message));
            ctx.set_error(builder.len(), message);
            builder.push((0, 0));
        },
    }
}

/// The texts of a column.
pub open spec fn texts(builder: Seq<String>) -> Seq<Seq<char>> {
    builder.map_values(|s: String| s@)
}

/// What a row of `geohash_encode` leaves: the geohash, or an empty text and an error.
pub open spec fn is_encoded_row(
    encoded: Result<String, GeohashError>,
    before: (Seq<Seq<char>>, Seq<(int, Seq<char>)>),
    after: (Seq<Seq<char>>, Seq<(int, Seq<char>)>),
) -> bool {
    match encoded {
        Ok(text) => {
            &&& after.0 == before.0.push(text@)
            &&& after.1 == before.1
        },
        Err(e) => {
            &&& after.0 == before.0.push(Seq::empty())
            &&& exists|message: String|
                #[trigger] to_string_from_display_ensures(&e, message) && after.1 == before.1.push(
                    (before.0.len() as int, message@),
                )
        },
    }
}

/// Adds a row to the column: the geohash, or an empty text and an error.
pub fn push_geohash(
    encoded: Result<String, GeohashError>,
    builder: &mut Vec<String>,
    ctx: &mut EvalContext,
)
    ensures
        is_encoded_row(
            encoded,
            (texts(old(builder)@), old(ctx)@),
            (texts(final(builder)@), final(ctx)@),
        ),
{
    match encoded {
        Ok(text) => {
            builder.push(text);
            assert(texts(builder@) =~= texts(old(builder)@).push(text@));
        },
        Err(e) => {
            let message = e.to_string();
            assert(to_string_from_display_ensures(&e, message));
            ctx.set_error(builder.len(), message);
            builder.push(String::new());
            assert(texts(builder@) =~= texts(old(builder)@).push(Seq::empty()));
        },
    }
}

/// Adds a row to the column: the geohash of the point at the given longitude and
/// latitude in degrees, or an empty text and an error where there is none. `encode`
/// makes a geohash of a longitude, a latitude and the number of characters.
pub fn geohash_encode<T, F: Fn(T, T, usize) -> Result<String, GeohashError>>(
    lon: T,
    lat: T,
    encode: F,
    builder: &mut Vec<String>,
    ctx: &mut EvalContext,
)
    requires
        call_requires(encode, (lon, lat, GEOHASH_LENGTH)),
    ensures
        exists|encoded: Result<String, GeohashError>| #[trigger]
            call_ensures(encode, (lon, lat, GEOHASH_LENGTH), encoded) && is_encoded_row(
                encoded,
                (texts(old(builder)@), old(ctx)@),
                (texts(final(builder)@), final(ctx)@),
            ),
{
    let encoded = encode(lon, lat, GEOHASH_LENGTH);
    assert(call_ensures(encode, (lon, lat, GEOHASH_LENGTH), encoded));
    push_geohash(encoded, builder, ctx);
}

/// Each row adds one point to the column. Where the text was not read, it adds an
/// error, which names that row, and elsewhere none.
pub proof fn law_decoding_adds_one_row(
    point: (u64, u64),
    message: Seq<char>,
    before: (Seq<(u64, u64)>, Seq<(int, Seq<char>)>),
    after: (Seq<(u64, u64)>, Seq<(int, Seq<char>)>),
)
    ensures
        is_decoded_row(point, before, after) ==> after.0.len() == before.0.len() + 1
            && after.0.drop_last() == before.0 && after.1 == before.1,
        is_failed_row(message, before, after) ==> after.0.len() == before.0.len() + 1
            && after.0.drop_last() == before.0 && after.1.len() == before.1.len() + 1
            && after.1.drop_last() == before.1 && after.1.last().0 == before.0.len(),
{
    if is_decoded_row(point, before, after) || is_failed_row(message, before, after) {
        assert(after.0.drop_last() =~= before.0);
    }
    if is_failed_row(message, before, after) {
        assert(after.1.drop_last() =~= before.1);
    }
}

/// Each row adds one text to the column, and an error, which names that row, exactly
/// where there was no geohash.
pub proof fn law_encoding_adds_one_row(
    encoded: Result<String, GeohashError>,
    before: (Seq<Seq<char>>, Seq<(int, Seq<char>)>),
    after: (Seq<Seq<char>>, Seq<(int, Seq<char>)>),
)
    requires
        is_encoded_row(encoded, before, after),
    ensures
        after.0.len() == before.0.len() + 1,
        after.0.drop_last() == before.0,
        encoded is Ok ==> after.1 == before.1,
        encoded is Err ==> after.1.len() == before.1.len() + 1 && after.1.drop_last() == before.1
            && after.1.last().0 == before.0.len() && after.0.last().len() == 0,
{
    assert(after.0.drop_last() =~= before.0);
    if encoded is Err {
        assert(after.1.drop_last() =~= before.1);
    }
}

/// The column keeps its texts and gets one more.
pub open spec fn is_one_more_text(
    before: Seq<String>,
    after: Seq<String>,
    text: Seq<char>,
) -> bool {
    &&& after.len() == before.len() + 1
    &&& forall|i: int| 0 <= i < before.len() ==> (#[trigger] after[i])@ == before[i]@
    &&& after[before.len() as int]@ == text
}

/// A list of texts that is longer by one has one text more.
pub proof fn lemma_one_more_text(before: Seq<String>, after: Seq<String>, text: Seq<char>)
    requires
        texts(after) == texts(before).push(text),
    ensures
        is_one_more_text(before, after, text),
{
    assert(texts(after).len() == texts(before).len() + 1);
    assert forall|i: int| 0 <= i < before.len() implies (#[trigger] after[i])@ == before[i]@ by {
        assert(texts(after)[i] == texts(before)[i]);
    }
    assert(texts(after)[before.len() as int] == text);
}

/// Whatever the column held before, a row gets the geohash that was made for it, character
/// for character, and reports no error.
pub proof fn law_row_gets_its_own_geohash(
    text: String,
    builder: &mut Vec<String>,
    ctx: &mut EvalContext,
)
    requires
        call_ensures(push_geohash, (Ok(text), builder, ctx), ()),
    ensures
        is_one_more_text(old(builder)@, final(builder)@, text@),
        are_same_errors(*old(ctx), *final(ctx)),
{
    lemma_one_more_text(builder@, final(builder)@, text@);
    law_view_shows_the_errors(*ctx, *final(ctx), 0, Seq::empty());
}

/// Whatever the column held before, a row without a geohash gets an empty text and reports
/// why there is none.
pub proof fn law_row_without_geohash_gets_no_text(
    e: GeohashError,
    builder: &mut Vec<String>,
    ctx: &mut EvalContext,
)
    requires
        call_ensures(push_geohash, (Err(e), builder, ctx), ()),
    ensures
        is_one_more_text(old(builder)@, final(builder)@, Seq::empty()),
        exists|message: String| #[trigger]
            to_string_from_display_ensures(&e, message) && is_one_more_error(
                *old(ctx),
                *final(ctx),
                old(builder)@.len() as int,
                message@,
            ),
{
    let n = builder@.len() as int;
    lemma_one_more_text(builder@, final(builder)@, Seq::empty());
    let message = choose|message: String| #[trigger]
        to_string_from_display_ensures(&e, message) && final(ctx)@ == old(ctx)@.push((n, message@));
    law_view_shows_the_errors(*ctx, *final(ctx), n, message@);
}

/// A row of `geohash_encode` asks for the geohash of twelve characters of its own longitude
/// and latitude, and gets it, or an empty text and an error where there is none.
pub proof fn law_row_asks_for_its_own_geohash<
    T,
    F: Fn(T, T, usize) -> Result<String, GeohashError>,
>(lon: T, lat: T, encode: F, builder: &mut Vec<String>, ctx: &mut EvalContext)
    requires
        call_ensures(geohash_encode::<T, F>, (lon, lat, encode, builder, ctx), ()),
    ensures
        exists|encoded: Result<String, GeohashError>| #[trigger]
            call_ensures(encode, (lon, lat, 12usize), encoded) && match encoded {
                Ok(text) => is_one_more_text(old(builder)@, final(builder)@, text@)
                    && are_same_errors(*old(ctx), *final(ctx)),
                Err(e) => is_one_more_text(old(builder)@, final(builder)@, Seq::empty()) && exists|
                    message: String,
                | #[trigger]
                    to_string_from_display_ensures(&e, message) && is_one_more_error(
                        *old(ctx),
                        *final(ctx),
                        old(builder)@.len() as int,
                        message@,
                    ),
            },
{
    let encoded = choose|encoded: Result<String, GeohashError>| #[trigger]
        call_ensures(encode, (lon, lat, GEOHASH_LENGTH), encoded) && is_encoded_row(
            encoded,
            (texts(old(builder)@), old(ctx)@),
            (texts(final(builder)@), final(ctx)@),
        );
    match encoded {
        Ok(text) => {
            lemma_one_more_text(builder@, final(builder)@, text@);
            law_view_shows_the_errors(*ctx, *final(ctx), 0, Seq::empty());
        },
        Err(e) => {
            let n = builder@.len() as int;
            lemma_one_more_text(builder@, final(builder)@, Seq::empty());
            let message = choose|message: String| #[trigger]
                to_string_from_display_ensures(&e, message) && final(ctx)@ == old(ctx)@.push(
                    (n, message@),
                );
            law_view_shows_the_errors(*ctx, *final(ctx), n, message@);
        },
    }
    assert(call_ensures(encode, (lon, lat, 12usize), encoded));
}

/// The byte is one of the characters of a geohash.
pub open spec fn stands_in_a_geohash(b: u8) -> bool {
    "0123456789bcdefghjkmnpqrstuvwxyz"@.contains(b as char)
}

/// The bytes that can stand in a geohash are the 32 characters of its alphabet.
pub proof fn law_alphabet_of_a_geohash(b: u8)
    ensures
        is_geohash_byte(b) <==> stands_in_a_geohash(b),
{
    reveal_strlit("0123456789bcdefghjkmnpqrstuvwxyz");
    let s = "0123456789bcdefghjkmnpqrstuvwxyz"@;
    assert(s.len() == 32);
    if is_geohash_byte(b) {
        let k: int = if b <= 0x39 {
            b - 0x30
        } else if b <= 0x68 {
            b - 0x62 + 10
        } else if b <= 0x6b {
            b - 0x6a + 17
        } else if b <= 0x6e {
            b - 0x6d + 19
        } else {
            b - 0x70 + 21
        };
        assert(0 <= k < 32);
        assert(s[k] == b as char);
    }
    if stands_in_a_geohash(b) {
        let k = choose|k: int| 0 <= k < s.len() && s[k] == b as char;
        assert(s[k] == b as char);
    }
}

/// The column keeps its points and gets one more.
pub open spec fn is_one_more_point(
    before: Seq<(u64, u64)>,
    after: Seq<(u64, u64)>,
    point: (u64, u64),
) -> bool {
    &&& after.len() == before.len() + 1
    &&& forall|i: int| 0 <= i < before.len() ==> #[trigger] after[i] == before[i]
    &&& after[before.len() as int] == point
}

/// Whatever the column held before, a row with up to twelve characters of the alphabet gets
/// the point that `geohash::decode` finds for them, and reports no error.
pub proof fn law_row_gets_the_point_of_its_geohash(
    encoded: &[u8],
    builder: &mut Vec<(u64, u64)>,
    ctx: &mut EvalContext,
)
    requires
        call_ensures(geohash_decode, (encoded, builder, ctx), ()),
        encoded@.len() <= 12,
        forall|k: int| 0 <= k < encoded@.len() ==> stands_in_a_geohash(#[trigger] encoded@[k]),
    ensures
        geohash_decoded(encoded@) is Ok,
        is_one_more_point(old(builder)@, final(builder)@, geohash_decoded(encoded@)->Ok_0),
        are_same_errors(*old(ctx), *final(ctx)),
{
    assert forall|k: int| 0 <= k < encoded@.len() implies is_geohash_byte(
        #[trigger] encoded@[k],
    ) by {
        law_alphabet_of_a_geohash(encoded@[k]);
    }
    law_view_shows_the_errors(*ctx, *final(ctx), 0, Seq::empty());
}

/// The first of the bytes that is no character of a geohash is the one at `k`.
pub proof fn lemma_first_bad_byte(bytes: Seq<u8>, k: int)
    requires
        0 <= k < bytes.len(),
        forall|j: int| 0 <= j < k ==> is_geohash_byte(#[trigger] bytes[j]),
        !is_geohash_byte(bytes[k]),
    ensures
        first_bad_byte(bytes) == bytes[k],
    decreases k,
{
    if k > 0 {
        assert(is_geohash_byte(bytes[0]));
        let rest = bytes.drop_first();
        assert forall|j: int| 0 <= j < k - 1 implies is_geohash_byte(#[trigger] rest[j]) by {
            assert(is_geohash_byte(bytes[j + 1]));
        }
        lemma_first_bad_byte(rest, k - 1);
    }
}

/// Whatever the column held before, a row whose text is too long gets the origin and says
/// so, and a row with another character than those of the alphabet gets the origin and
/// names the first such byte.
pub proof fn law_row_without_point_says_why(
    encoded: &[u8],
    k: int,
    builder: &mut Vec<(u64, u64)>,
    ctx: &mut EvalContext,
)
    requires
        call_ensures(geohash_decode, (encoded, builder, ctx), ()),
        valid_utf8(encoded@),
        encoded@.len() > 12 || {
            &&& 0 <= k < encoded@.len()
            &&& forall|j: int| 0 <= j < k ==> stands_in_a_geohash(#[trigger] encoded@[j])
            &&& !stands_in_a_geohash(encoded@[k])
        },
    ensures
        is_one_more_point(old(builder)@, final(builder)@, (0, 0)),
        encoded@.len() > 12 ==> is_one_more_error(
            *old(ctx),
            *final(ctx),
            old(builder)@.len() as int,
            "Invalid input hash: Length of hash string greater than maximum allowed length"@,
        ),
        encoded@.len() <= 12 ==> is_one_more_error(
            *old(ctx),
            *final(ctx),
            old(builder)@.len() as int,
            "invalid hash character: "@ + seq![encoded@[k] as char],
        ),
{
    let n = builder@.len() as int;
    if encoded@.len() <= 12 {
        assert forall|j: int| 0 <= j < k implies is_geohash_byte(#[trigger] encoded@[j]) by {
            law_alphabet_of_a_geohash(encoded@[j]);
        }
        law_alphabet_of_a_geohash(encoded@[k]);
        lemma_first_bad_byte(encoded@, k);
        assert("invalid hash character: "@ + seq![encoded@[k] as char]
            =~= "invalid hash character: "@.push(encoded@[k] as char));
    }
    law_view_shows_the_errors(*ctx, *final(ctx), n, decode_message(encoded@));
}

/// Whatever the column held before, a row whose bytes are no text gets the origin and
/// reports why they are none.
pub proof fn law_row_that_is_no_text_says_why(
    encoded: &[u8],
    builder: &mut Vec<(u64, u64)>,
    ctx: &mut EvalContext,
)
    requires
        call_ensures(geohash_decode, (encoded, builder, ctx), ()),
        !valid_utf8(encoded@),
    ensures
        is_one_more_point(old(builder)@, final(builder)@, (0, 0)),
        exists|message: String| #[trigger]
            to_string_from_display_ensures(&utf8_error(encoded@), message) && is_one_more_error(
                *old(ctx),
                *final(ctx),
                old(builder)@.len() as int,
                message@,
            ),
{
    if is_geohash(encoded@) {
        law_geohash_is_text(encoded@);
    }
    let n = builder@.len() as int;
    let message = choose|message: String| #[trigger]
        to_string_from_display_ensures(&utf8_error(encoded@), message) && is_failed_row(
            message@,
            (old(builder)@, old(ctx)@),
            (final(builder)@, final(ctx)@),
        );
    law_view_shows_the_errors(*ctx, *final(ctx), n, message@);
}

} // verus!
