use geo_scalars::eval::EvalContext;
use geo_scalars::h3::{geo_to_h3, push_cell};
use h3o::LatLng;

fn locate(lat: f64, lon: f64) -> Result<LatLng, h3o::error::InvalidLatLng> {
    LatLng::from_degrees(lat, lon)
}

#[test]
fn cell_of_a_location() {
    let mut cells: Vec<u64> = Vec::new();
    let mut ctx = EvalContext::new();
    geo_to_h3(37.79506683, 55.71290588, 15, locate, &mut cells, &mut ctx);
    assert_eq!(cells, vec![644325524701193974]);
    assert!(ctx.errors.is_empty());
}

#[test]
fn every_resolution_has_its_mark() {
    for r in 0..=15u8 {
        let mut cells: Vec<u64> = Vec::new();
        let mut ctx = EvalContext::new();
        geo_to_h3(2.349014, 48.864716, r, locate, &mut cells, &mut ctx);
        assert_eq!(cells.len(), 1);
        assert_eq!(cells[0] >> 52, 128 + r as u64);
        assert!(ctx.errors.is_empty());
    }
}

#[test]
fn no_location_gives_zero_and_an_error() {
    let mut cells: Vec<u64> = vec![1, 2];
    let mut ctx = EvalContext::new();
    geo_to_h3(f64::NAN, 0.0, 3, locate, &mut cells, &mut ctx);
    assert_eq!(cells, vec![1, 2, 0]);
    let message = LatLng::from_degrees(0.0, f64::NAN).unwrap_err().to_string();
    assert_eq!(ctx.errors, vec![(2, message)]);
    // a number that is no resolution is not looked at
    geo_to_h3(0.0, f64::INFINITY, 16, locate, &mut cells, &mut ctx);
    assert_eq!(cells, vec![1, 2, 0, 0]);
    assert_eq!(ctx.errors.len(), 2);
    assert_eq!(ctx.errors[1].0, 3);
}

#[test]
fn latitude_comes_before_longitude_for_the_location() {
    let mut cells: Vec<u64> = Vec::new();
    let mut ctx = EvalContext::new();
    geo_to_h3(2.349014, 48.864716, 9, locate, &mut cells, &mut ctx);
    let expected = LatLng::from_degrees(48.864716, 2.349014).unwrap();
    assert_eq!(cells[0], u64::from(expected.to_cell(h3o::Resolution::Nine)));
}

#[test]
fn rows_follow_each_other() {
    let mut cells: Vec<u64> = Vec::new();
    let mut ctx = EvalContext::new();
    push_cell(locate(10.0, 20.0), 0, &mut cells, &mut ctx);
    push_cell(locate(f64::NAN, 20.0), 0, &mut cells, &mut ctx);
    push_cell(locate(-10.0, 20.0), 0, &mut cells, &mut ctx);
    assert_eq!(cells.len(), 3);
    assert!(cells[0] != 0 && cells[1] == 0 && cells[2] != 0);
    assert_eq!(ctx.errors.len(), 1);
    assert_eq!(ctx.errors[0].0, 1);
}
