//! Error taxonomy of the geometry codec.
//!
//! Every decoding step returns a `Result`: the first structural inconsistency
//! aborts the whole decode and surfaces the specific error kind. Malformed
//! input never panics.
use vstd::prelude::*;

verus! {

/// The errors the codec can report.
#[derive(Debug, Clone, Copy, PartialEq, Eq, Structural)]
pub enum Error {
    /// The body's byte-order marker, or another structural field of the body,
    /// holds a value the format does not allow.
    GeomDecodeError,
    /// A count does not fit in the 4-byte field the wire format gives it.
    GeomEncodeError,
    /// The body's geometry type code is not one the codec knows.
    UnsupportedGeometryType,
    /// The header is shorter than 8 bytes, or its envelope code is not 0..=4.
    MalformedHeader,
    /// The decoded type code differs from the statically expected kind.
    WrongType,
    /// The buffer ends before a declared count's worth of data was read.
    Truncated,
    /// Geometry collections are nested deeper than the decoder's limit.
    TooDeep,
}

impl Error {
    /// A short human-readable description of the error.
    pub fn description(&self) -> (r: &'static str)
        ensures
            (*self is GeomDecodeError) ==> r@ == "Error decoding WKB geometry"@,
            (*self is GeomEncodeError) ==> r@ == "Error encoding WKB geometry"@,
            (*self is UnsupportedGeometryType) ==> r@ == "Unsupported WKB geometry type"@,
            (*self is MalformedHeader) ==> r@ == "Malformed GeoPackage geometry header"@,
            (*self is WrongType) ==> r@ == "Geometry type does not match the expected type"@,
            (*self is Truncated) ==> r@ == "Geometry buffer ends before its declared contents"@,
            (*self is TooDeep) ==> r@ == "Geometry collections nested too deeply"@,
    {
        match self {
            Error::GeomDecodeError => "Error decoding WKB geometry",
            Error::GeomEncodeError => "Error encoding WKB geometry",
            Error::UnsupportedGeometryType => "Unsupported WKB geometry type",
            Error::MalformedHeader => "Malformed GeoPackage geometry header",
            Error::WrongType => "Geometry type does not match the expected type",
            Error::Truncated => "Geometry buffer ends before its declared contents",
            Error::TooDeep => "Geometry collections nested too deeply",
        }
    }
}

} // verus!
