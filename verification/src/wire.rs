//! The wire format, stated mathematically.
//!
//! `ser_*` functions give the exact bytes the encoder owes for a geometry:
//! a byte-order marker, a 4-byte type code, then the kind-specific payload,
//! parameterized by byte order (the encoder always chooses little-endian,
//! the lemmas cover both). `parse_*` functions give the exact result the
//! decoder owes for any buffer: the value and the position after it, or the
//! specific error. Every executable codec function is proved against these.
use crate::byteio::{de_u32, de_u64, ser_u32, ser_u64, Endian};
use crate::flags::{spec_envelope_length, spec_flags_from_byte, GPKGGeomFlags};
use crate::result::Error;
use crate::types::{GPKGPoint, GPKGPointZ, GeomView, PolyView};
use vstd::prelude::*;

verus! {

/// The wire type code of a geometry kind.
pub open spec fn spec_geom_code(g: GeomView) -> u32 {
    match g {
        GeomView::Point(_) => 1,
        GeomView::LineString(_) => 2,
        GeomView::Polygon(_) => 3,
        GeomView::MultiPoint(_) => 4,
        GeomView::MultiLineString(_) => 5,
        GeomView::MultiPolygon(_) => 6,
        GeomView::GeometryCollection(_) => 7,
        GeomView::PointZ(_) => 1001,
        GeomView::LineStringZ(_) => 1002,
    }
}

/// Whether a wire type code is in the dispatch table.
pub open spec fn spec_known_code(c: u32) -> bool {
    1 <= c <= 7 || c == 1001 || c == 1002
}

/// The marker byte announcing a byte order.
pub open spec fn spec_marker_byte(e: Endian) -> u8 {
    match e {
        Endian::Big => 0,
        Endian::Little => 1,
    }
}

/// The byte order a header's flags declare for the header's own fields.
pub open spec fn spec_flags_endian(f: GPKGGeomFlags) -> Endian {
    if f.little_endian {
        Endian::Little
    } else {
        Endian::Big
    }
}

/// A coordinate pair on the wire: x then y.
pub open spec fn ser_coord(e: Endian, c: GPKGPoint) -> Seq<u8> {
    ser_u64(e, c.x) + ser_u64(e, c.y)
}

/// A coordinate triple on the wire: x, y, then z.
pub open spec fn ser_coord_z(e: Endian, c: GPKGPointZ) -> Seq<u8> {
    ser_u64(e, c.x) + ser_u64(e, c.y) + ser_u64(e, c.z)
}

/// Coordinates in sequence, without a count.
pub open spec fn ser_coords(e: Endian, s: Seq<GPKGPoint>) -> Seq<u8>
    decreases s.len(),
{
    if s.len() == 0 {
        Seq::empty()
    } else {
        ser_coord(e, s[0]) + ser_coords(e, s.subrange(1, s.len() as int))
    }
}

/// Coordinate triples in sequence, without a count.
pub open spec fn ser_coords_z(e: Endian, s: Seq<GPKGPointZ>) -> Seq<u8>
    decreases s.len(),
{
    if s.len() == 0 {
        Seq::empty()
    } else {
        ser_coord_z(e, s[0]) + ser_coords_z(e, s.subrange(1, s.len() as int))
    }
}

/// A count-prefixed coordinate list: the body of a line string, of a
/// multi-point, and of each polygon ring.
pub open spec fn ser_coord_list(e: Endian, s: Seq<GPKGPoint>) -> Seq<u8> {
    ser_u32(e, s.len() as u32) + ser_coords(e, s)
}

/// A count-prefixed coordinate-triple list: the body of a Z line string.
pub open spec fn ser_coord_list_z(e: Endian, s: Seq<GPKGPointZ>) -> Seq<u8> {
    ser_u32(e, s.len() as u32) + ser_coords_z(e, s)
}

/// Untagged rings in sequence, each a count-prefixed coordinate list.
pub open spec fn ser_rings(e: Endian, s: Seq<Seq<GPKGPoint>>) -> Seq<u8>
    decreases s.len(),
{
    if s.len() == 0 {
        Seq::empty()
    } else {
        ser_coord_list(e, s[0]) + ser_rings(e, s.subrange(1, s.len() as int))
    }
}

/// A polygon body: ring count (`interiors + 1`), the exterior ring, then
/// the interior rings, all untagged.
pub open spec fn ser_polygon_body(e: Endian, p: PolyView) -> Seq<u8> {
    ser_u32(e, (p.interiors.len() + 1) as u32) + ser_coord_list(e, p.exterior) + ser_rings(
        e,
        p.interiors,
    )
}

/// Untagged polygon bodies in sequence.
pub open spec fn ser_polygon_bodies(e: Endian, s: Seq<PolyView>) -> Seq<u8>
    decreases s.len(),
{
    if s.len() == 0 {
        Seq::empty()
    } else {
        ser_polygon_body(e, s[0]) + ser_polygon_bodies(e, s.subrange(1, s.len() as int))
    }
}

/// The kind-specific payload that follows a geometry's type code.
pub open spec fn ser_geom_body(e: Endian, g: GeomView) -> Seq<u8>
    decreases g, 0int, 0int,
{
    match g {
        GeomView::Point(c) => ser_coord(e, c),
        GeomView::LineString(s) => ser_coord_list(e, s),
        GeomView::Polygon(p) => ser_polygon_body(e, p),
        GeomView::MultiPoint(s) => ser_coord_list(e, s),
        GeomView::MultiLineString(s) => ser_u32(e, s.len() as u32) + ser_rings(e, s),
        GeomView::MultiPolygon(s) => ser_u32(e, s.len() as u32) + ser_polygon_bodies(e, s),
        GeomView::GeometryCollection(s) => ser_u32(e, s.len() as u32) + ser_geoms(e, s),
        GeomView::PointZ(c) => ser_coord_z(e, c),
        GeomView::LineStringZ(s) => ser_coord_list_z(e, s),
    }
}

/// A tagged geometry: byte-order marker, type code, payload.
pub open spec fn ser_geom(e: Endian, g: GeomView) -> Seq<u8>
    decreases g, 1int, 0int,
{
    seq![spec_marker_byte(e)] + ser_u32(e, spec_geom_code(g)) + ser_geom_body(e, g)
}

/// Tagged geometries in sequence: the members of a collection.
pub open spec fn ser_geoms(e: Endian, s: Seq<GeomView>) -> Seq<u8>
    decreases s, 2int, s.len(),
{
    if s.len() == 0 {
        Seq::empty()
    } else {
        ser_geom(e, s[0]) + ser_geoms(e, s.subrange(1, s.len() as int))
    }
}

/// The 8-byte header this encoder writes: magic "GP", version 0, a flags
/// byte declaring a little-endian header with no envelope, then the SRS id.
pub open spec fn spec_header_bytes(srs_id: i32) -> Seq<u8> {
    seq![0x47u8, 0x50u8, 0x00u8, 0x01u8] + ser_u32(Endian::Little, srs_id as u32)
}

/// The whole encoded blob: header, then the little-endian tagged body.
pub open spec fn spec_encode(g: GeomView, srs_id: i32) -> Seq<u8> {
    spec_header_bytes(srs_id) + ser_geom(Endian::Little, g)
}

/// Read the byte-order marker at `pos`: 0 is big-endian, 1 little-endian,
/// anything else a decode error.
pub open spec fn parse_marker(b: Seq<u8>, pos: int) -> Result<(Endian, int), Error> {
    if pos + 1 <= b.len() {
        if b[pos] == 0 {
            Ok((Endian::Big, pos + 1))
        } else if b[pos] == 1 {
            Ok((Endian::Little, pos + 1))
        } else {
            Err(Error::GeomDecodeError)
        }
    } else {
        Err(Error::Truncated)
    }
}

/// Read the 4-byte integer at `pos`.
pub open spec fn parse_u32(b: Seq<u8>, pos: int, e: Endian) -> Result<(u32, int), Error> {
    if pos + 4 <= b.len() {
        Ok((de_u32(e, b, pos), pos + 4))
    } else {
        Err(Error::Truncated)
    }
}

/// Read the coordinate pair at `pos`.
pub open spec fn parse_coord(b: Seq<u8>, pos: int, e: Endian) -> Result<(GPKGPoint, int), Error> {
    if pos + 16 <= b.len() {
        Ok((GPKGPoint { x: de_u64(e, b, pos), y: de_u64(e, b, pos + 8) }, pos + 16))
    } else {
        Err(Error::Truncated)
    }
}

/// Read the coordinate triple at `pos`.
pub open spec fn parse_coord_z(b: Seq<u8>, pos: int, e: Endian) -> Result<
    (GPKGPointZ, int),
    Error,
> {
    if pos + 24 <= b.len() {
        Ok(
            (
                GPKGPointZ {
                    x: de_u64(e, b, pos),
                    y: de_u64(e, b, pos + 8),
                    z: de_u64(e, b, pos + 16),
                },
                pos + 24,
            ),
        )
    } else {
        Err(Error::Truncated)
    }
}

/// Read `n` coordinate pairs in sequence.
pub open spec fn parse_coords(b: Seq<u8>, pos: int, e: Endian, n: int) -> Result<
    (Seq<GPKGPoint>, int),
    Error,
>
    decreases n,
{
    if n <= 0 {
        Ok((Seq::empty(), pos))
    } else {
        match parse_coord(b, pos, e) {
            Err(er) => Err(er),
            Ok((c, p1)) => match parse_coords(b, p1, e, n - 1) {
                Err(er) => Err(er),
                Ok((s, p2)) => Ok((seq![c] + s, p2)),
            },
        }
    }
}

/// Read `n` coordinate triples in sequence.
pub open spec fn parse_coords_z(b: Seq<u8>, pos: int, e: Endian, n: int) -> Result<
    (Seq<GPKGPointZ>, int),
    Error,
>
    decreases n,
{
    if n <= 0 {
        Ok((Seq::empty(), pos))
    } else {
        match parse_coord_z(b, pos, e) {
            Err(er) => Err(er),
            Ok((c, p1)) => match parse_coords_z(b, p1, e, n - 1) {
                Err(er) => Err(er),
                Ok((s, p2)) => Ok((seq![c] + s, p2)),
            },
        }
    }
}

/// Read a count-prefixed coordinate list.
pub open spec fn parse_coord_list(b: Seq<u8>, pos: int, e: Endian) -> Result<
    (Seq<GPKGPoint>, int),
    Error,
> {
    match parse_u32(b, pos, e) {
        Err(er) => Err(er),
        Ok((n, p1)) => parse_coords(b, p1, e, n as int),
    }
}

/// Read a count-prefixed coordinate-triple list.
pub open spec fn parse_coord_list_z(b: Seq<u8>, pos: int, e: Endian) -> Result<
    (Seq<GPKGPointZ>, int),
    Error,
> {
    match parse_u32(b, pos, e) {
        Err(er) => Err(er),
        Ok((n, p1)) => parse_coords_z(b, p1, e, n as int),
    }
}

/// Read `n` untagged rings in sequence.
pub open spec fn parse_rings(b: Seq<u8>, pos: int, e: Endian, n: int) -> Result<
    (Seq<Seq<GPKGPoint>>, int),
    Error,
>
    decreases n,
{
    if n <= 0 {
        Ok((Seq::empty(), pos))
    } else {
        match parse_coord_list(b, pos, e) {
            Err(er) => Err(er),
            Ok((r, p1)) => match parse_rings(b, p1, e, n - 1) {
                Err(er) => Err(er),
                Ok((s, p2)) => Ok((seq![r] + s, p2)),
            },
        }
    }
}

/// Read a polygon body: a ring count, the exterior ring, then the interior
/// rings. A ring count of zero leaves no room for the exterior ring the
/// format requires, and is a decode error.
pub open spec fn parse_polygon_body(b: Seq<u8>, pos: int, e: Endian) -> Result<
    (PolyView, int),
    Error,
> {
    match parse_u32(b, pos, e) {
        Err(er) => Err(er),
        Ok((nr, p1)) => if nr == 0 {
            Err(Error::GeomDecodeError)
        } else {
            match parse_coord_list(b, p1, e) {
                Err(er) => Err(er),
                Ok((ext, p2)) => match parse_rings(b, p2, e, nr - 1) {
                    Err(er) => Err(er),
                    Ok((ints, p3)) => Ok((PolyView { exterior: ext, interiors: ints }, p3)),
                },
            }
        },
    }
}

/// Read `n` untagged polygon bodies in sequence.
pub open spec fn parse_polygon_bodies(b: Seq<u8>, pos: int, e: Endian, n: int) -> Result<
    (Seq<PolyView>, int),
    Error,
>
    decreases n,
{
    if n <= 0 {
        Ok((Seq::empty(), pos))
    } else {
        match parse_polygon_body(b, pos, e) {
            Err(er) => Err(er),
            Ok((p, p1)) => match parse_polygon_bodies(b, p1, e, n - 1) {
                Err(er) => Err(er),
                Ok((s, p2)) => Ok((seq![p] + s, p2)),
            },
        }
    }
}

/// Read the payload of a known type code. For a collection, `depth` is the
/// budget left for the members.
pub open spec fn parse_body_for_code(b: Seq<u8>, pos: int, e: Endian, code: u32, depth: int)
    -> Result<(GeomView, int), Error>
    recommends
        spec_known_code(code),
    decreases depth, 2int, 0int,
{
    if code == 1 {
        match parse_coord(b, pos, e) {
            Err(er) => Err(er),
            Ok((c, p)) => Ok((GeomView::Point(c), p)),
        }
    } else if code == 2 {
        match parse_coord_list(b, pos, e) {
            Err(er) => Err(er),
            Ok((s, p)) => Ok((GeomView::LineString(s), p)),
        }
    } else if code == 3 {
        match parse_polygon_body(b, pos, e) {
            Err(er) => Err(er),
            Ok((pv, p)) => Ok((GeomView::Polygon(pv), p)),
        }
    } else if code == 4 {
        match parse_coord_list(b, pos, e) {
            Err(er) => Err(er),
            Ok((s, p)) => Ok((GeomView::MultiPoint(s), p)),
        }
    } else if code == 5 {
        match parse_u32(b, pos, e) {
            Err(er) => Err(er),
            Ok((n, p1)) => match parse_rings(b, p1, e, n as int) {
                Err(er) => Err(er),
                Ok((s, p2)) => Ok((GeomView::MultiLineString(s), p2)),
            },
        }
    } else if code == 6 {
        match parse_u32(b, pos, e) {
            Err(er) => Err(er),
            Ok((n, p1)) => match parse_polygon_bodies(b, p1, e, n as int) {
                Err(er) => Err(er),
                Ok((s, p2)) => Ok((GeomView::MultiPolygon(s), p2)),
            },
        }
    } else if code == 7 {
        match parse_u32(b, pos, e) {
            Err(er) => Err(er),
            Ok((n, p1)) => match parse_geoms(b, p1, n as int, depth) {
                Err(er) => Err(er),
                Ok((s, p2)) => Ok((GeomView::GeometryCollection(s), p2)),
            },
        }
    } else if code == 1001 {
        match parse_coord_z(b, pos, e) {
            Err(er) => Err(er),
            Ok((c, p)) => Ok((GeomView::PointZ(c), p)),
        }
    } else {
        match parse_coord_list_z(b, pos, e) {
            Err(er) => Err(er),
            Ok((s, p)) => Ok((GeomView::LineStringZ(s), p)),
        }
    }
}

/// Read one tagged geometry: marker, type code, payload. Collection members
/// spend one unit of the nesting budget; an exhausted budget is an error.
pub open spec fn parse_geom(b: Seq<u8>, pos: int, depth: int) -> Result<(GeomView, int), Error>
    decreases depth, 0int, 0int,
{
    if depth <= 0 {
        Err(Error::TooDeep)
    } else {
        match parse_marker(b, pos) {
            Err(er) => Err(er),
            Ok((e, p1)) => match parse_u32(b, p1, e) {
                Err(er) => Err(er),
                Ok((code, p2)) => if !spec_known_code(code) {
                    Err(Error::UnsupportedGeometryType)
                } else {
                    parse_body_for_code(b, p2, e, code, depth - 1)
                },
            },
        }
    }
}

/// Read `n` tagged geometries in sequence.
pub open spec fn parse_geoms(b: Seq<u8>, pos: int, n: int, depth: int) -> Result<
    (Seq<GeomView>, int),
    Error,
>
    decreases depth, 1int, n,
{
    if n <= 0 {
        Ok((Seq::empty(), pos))
    } else {
        match parse_geom(b, pos, depth) {
            Err(er) => Err(er),
            Ok((g, p1)) => match parse_geoms(b, p1, n - 1, depth) {
                Err(er) => Err(er),
                Ok((s, p2)) => Ok((seq![g] + s, p2)),
            },
        }
    }
}

/// Read one tagged geometry whose type code must equal `expected`: an
/// unknown code is unsupported, a known but different code is the wrong
/// type, and only then is the payload read.
pub open spec fn parse_geom_expect(b: Seq<u8>, pos: int, expected: u32, depth: int) -> Result<
    (GeomView, int),
    Error,
> {
    match parse_marker(b, pos) {
        Err(er) => Err(er),
        Ok((e, p1)) => match parse_u32(b, p1, e) {
            Err(er) => Err(er),
            Ok((code, p2)) => if !spec_known_code(code) {
                Err(Error::UnsupportedGeometryType)
            } else if code != expected {
                Err(Error::WrongType)
            } else {
                parse_body_for_code(b, p2, e, code, depth - 1)
            },
        },
    }
}

/// Read the header: the buffer must hold at least the 8 fixed bytes, the
/// flags byte sits at offset 3, the SRS id is read in the byte order the
/// flags declare, and the body starts after the declared envelope.
pub open spec fn parse_header(b: Seq<u8>) -> Result<(GPKGGeomFlags, i32, int), Error> {
    if b.len() < 8 {
        Err(Error::MalformedHeader)
    } else {
        match spec_flags_from_byte(b[3]) {
            Err(er) => Err(er),
            Ok(f) => Ok(
                (
                    f,
                    de_u32(spec_flags_endian(f), b, 4) as i32,
                    8 + spec_envelope_length(f.envelope),
                ),
            ),
        }
    }
}

/// Decode a whole blob: header, envelope skip, then one tagged geometry of
/// any kind. Trailing bytes are ignored.
pub open spec fn spec_decode(b: Seq<u8>, depth: int) -> Result<GeomView, Error> {
    match parse_header(b) {
        Err(er) => Err(er),
        Ok((_f, _srs, off)) => match parse_geom(b, off, depth) {
            Err(er) => Err(er),
            Ok((g, _)) => Ok(g),
        },
    }
}

/// Decode a whole blob through a type-checked entry point.
pub open spec fn spec_decode_expect(b: Seq<u8>, expected: u32, depth: int) -> Result<
    GeomView,
    Error,
> {
    match parse_header(b) {
        Err(er) => Err(er),
        Ok((_f, _srs, off)) => match parse_geom_expect(b, off, expected, depth) {
            Err(er) => Err(er),
            Ok((g, _)) => Ok(g),
        },
    }
}

} // verus!
