//! Geographic scalar functions: distances on the earth, H3 cells, geohashes, and points
//! in ellipses and polygons.

pub mod distance;
pub mod distance_exact;
pub mod distance_laws;
pub mod ellipses;
pub mod ellipses_laws;
pub mod eval;
pub mod evaluate;
pub mod evaluate_laws;
pub mod exact;
pub mod geohash_text;
pub mod h3;
pub mod lookup_laws;
pub mod numeric;
pub mod polygon;
pub mod registry;
pub mod registry_laws;
pub mod tables;
pub mod tables_laws;
pub mod types;
