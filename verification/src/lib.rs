//! Encoder and decoder for GeoPackage geometry blobs: a small header (magic,
//! version, flags, spatial-reference id, optional envelope) wrapped around an
//! ISO Well-Known-Binary geometry body.
//!
//! Coordinates are carried as the raw bit patterns of IEEE-754 doubles, so the
//! codec is byte-exact: what goes in comes back out bit for bit.
#![allow(unused_imports)]

pub mod byteio;
pub mod types;
pub mod wire;
pub mod flags;
pub mod gpkg_wkb;
pub mod laws;
pub mod result;
pub mod srs;

pub use gpkg_wkb::{decode, decode_header, decode_with_limit, encode, GEOM_NESTING_LIMIT};
pub use srs::SpatialRefSys;
pub use types::{
    GPKGGeometry, GPKGGeometryCollection, GPKGLineString, GPKGLineStringZ, GPKGMultiLineString,
    GPKGMultiPoint, GPKGMultiPolygon, GPKGPoint, GPKGPointZ, GPKGPolygon,
};

pub use byteio::Endian;
pub use flags::{EnvelopeType, GPKGGeomFlags};
pub use result::Error;
