use geo_scalars::eval::EvalContext;
use geo_scalars::geohash_text::{geohash_decode, geohash_encode, push_geohash, GEOHASH_LENGTH};
use geohash::GeohashError;

#[allow(deprecated)]
fn encode(lon: f64, lat: f64, len: usize) -> Result<String, GeohashError> {
    geohash::encode(geohash::Coordinate { x: lon, y: lat }, len)
}

fn decode_one(encoded: &[u8]) -> ((f64, f64), EvalContext) {
    let mut points: Vec<(u64, u64)> = Vec::new();
    let mut ctx = EvalContext::new();
    geohash_decode(encoded, &mut points, &mut ctx);
    assert_eq!(points.len(), 1);
    ((f64::from_bits(points[0].0), f64::from_bits(points[0].1)), ctx)
}

#[test]
fn text_of_a_point() {
    let mut texts: Vec<String> = Vec::new();
    let mut ctx = EvalContext::new();
    geohash_encode(-5.60302734375, 42.593994140625, encode, &mut texts, &mut ctx);
    assert_eq!(texts, vec!["ezs42d000000".to_string()]);
    assert_eq!(texts[0].len(), GEOHASH_LENGTH);
    assert!(ctx.errors.is_empty());
}

#[test]
fn no_text_for_a_point_off_the_earth() {
    let mut texts: Vec<String> = vec!["x".to_string()];
    let mut ctx = EvalContext::new();
    geohash_encode(181.0, 0.0, encode, &mut texts, &mut ctx);
    assert_eq!(texts, vec!["x".to_string(), "".to_string()]);
    assert_eq!(ctx.errors.len(), 1);
    assert_eq!(ctx.errors[0].0, 1);
    assert_eq!(ctx.errors[0].1, encode(181.0, 0.0, 12).unwrap_err().to_string());
    assert!(ctx.errors[0].1.starts_with("invalid coordinate range"));
}

#[test]
fn an_encoding_that_failed() {
    let mut texts: Vec<String> = Vec::new();
    let mut ctx = EvalContext::new();
    push_geohash(Ok("abc".to_string()), &mut texts, &mut ctx);
    push_geohash(Err(GeohashError::InvalidLength(13)), &mut texts, &mut ctx);
    assert_eq!(texts, vec!["abc".to_string(), "".to_string()]);
    assert_eq!(
        ctx.errors,
        vec![(
            1,
            "Invalid length specified: 13. Accepted values are between 1 and 12, inclusive".to_string()
        )]
    );
}

#[test]
fn point_of_a_text() {
    let ((lon, lat), ctx) = decode_one(b"9q60y");
    assert_eq!((lon, lat), (-120.65185546875, 35.31005859375));
    assert!(ctx.errors.is_empty());
    let ((lon, lat), _) = decode_one(b"ezs42");
    assert_eq!((lon, lat), (-5.60302734375, 42.60498046875));
}

#[test]
fn all_characters_of_a_geohash() {
    for c in b"0123456789bcdefghjkmnpqrstuvwxyz" {
        let (_, ctx) = decode_one(&[*c]);
        assert!(ctx.errors.is_empty());
    }
}

#[test]
fn a_text_that_is_too_long() {
    let (point, ctx) = decode_one(b"ezs42d0000000");
    assert_eq!(point, (0.0, 0.0));
    assert_eq!(
        ctx.errors,
        vec![(
            0,
            "Invalid input hash: Length of hash string greater than maximum allowed length".to_string()
        )]
    );
    // of too many characters that are wrong as well, the number is reported
    let (_, ctx) = decode_one(b"aaaaaaaaaaaaa");
    assert!(ctx.errors[0].1.starts_with("Invalid input hash"));
}

#[test]
fn a_character_that_cannot_stand() {
    for (text, message) in [
        ("a", "invalid hash character: a"),
        ("9i", "invalid hash character: i"),
        ("Ezs42", "invalid hash character: E"),
        ("ez l", "invalid hash character:  "),
        ("zo{", "invalid hash character: o"),
        // the first byte of a character of two bytes
        ("\u{e9}", "invalid hash character: \u{c3}"),
    ] {
        let (point, ctx) = decode_one(text.as_bytes());
        assert_eq!(point, (0.0, 0.0));
        assert_eq!(ctx.errors, vec![(0, message.to_string())]);
    }
}

#[test]
fn bytes_that_are_no_text() {
    let bytes = vec![b'9', 0xff];
    let (point, ctx) = decode_one(&bytes);
    assert_eq!(point, (0.0, 0.0));
    let message = std::str::from_utf8(&bytes).unwrap_err().to_string();
    assert_eq!(ctx.errors, vec![(0, message)]);
}

#[test]
fn decoded_rows_follow_each_other() {
    let mut points: Vec<(u64, u64)> = Vec::new();
    let mut ctx = EvalContext::new();
    geohash_decode(b"ezs42", &mut points, &mut ctx);
    geohash_decode(b"a", &mut points, &mut ctx);
    geohash_decode(b"9q60y", &mut points, &mut ctx);
    geohash_decode(&[0xc3], &mut points, &mut ctx);
    assert_eq!(points.len(), 4);
    assert_eq!(points[1], (0, 0));
    assert_eq!(points[3], (0, 0));
    assert_eq!(f64::from_bits(points[2].0), -120.65185546875);
    let rows: Vec<usize> = ctx.errors.iter().map(|e| e.0).collect();
    assert_eq!(rows, vec![1, 3]);
}

#[test]
fn decoding_an_encoded_point_comes_close() {
    for (lon, lat) in [(0.0, 0.0), (37.79506683, 55.71290588), (-120.6623, 35.3003), (179.5, -89.5)] {
        let mut texts: Vec<String> = Vec::new();
        let mut ctx = EvalContext::new();
        geohash_encode(lon, lat, encode, &mut texts, &mut ctx);
        let ((x, y), ctx) = decode_one(texts[0].as_bytes());
        assert!(ctx.errors.is_empty());
        assert!((x - lon).abs() < 1e-6);
        assert!((y - lat).abs() < 1e-6);
    }
}
