//! The executable codec: header, flags and WKB body, reader and writer.
//!
//! Every reader is proved to return exactly what the spec parser of
//! `crate::wire` returns, and every writer to append exactly the bytes the
//! spec serializer gives. The writer always emits little-endian fields; the
//! reader honors the byte-order marker it finds.
use crate::byteio::{push_u32_le, push_u64_le, read_u32_at, read_u64_at, ser_u32, Endian};
use crate::flags::{envelope_length, GPKGGeomFlags};
use crate::result::Error;
use crate::types::{
    gview, gview_seq, lemma_gview_seq_index, lemma_gview_seq_len, lemma_gview_seq_push, polys_view,
    rings_view, lemma_wf_geom_seq_iff, wf_coords,
    wf_coords_z, wf_geom, wf_geom_seq, wf_poly, GPKGGeometry, GPKGGeometryCollection,
    GPKGLineString, GPKGLineStringZ, GPKGMultiLineString, GPKGMultiPoint, GPKGMultiPolygon,
    GPKGPoint, GPKGPointZ, GPKGPolygon, GeomView, PolyView,
};
use crate::wire::{
    parse_body_for_code, parse_coord, parse_coord_list, parse_coord_list_z, parse_coord_z,
    parse_coords, parse_coords_z, parse_geom, parse_geom_expect, parse_geoms, parse_header,
    parse_marker, parse_polygon_bodies, parse_polygon_body, parse_rings, parse_u32, ser_coord,
    ser_coord_list, ser_coord_list_z, ser_coord_z, ser_coords, ser_coords_z, ser_geom,
    ser_geom_body, ser_geoms, ser_polygon_bodies, ser_polygon_body, ser_rings, spec_decode,
    spec_decode_expect, spec_encode, spec_geom_code, spec_header_bytes, spec_known_code,
};
use vstd::prelude::*;

verus! {

/// Most deeply a decoded geometry collection may nest. Members of a
/// collection spend one unit; a blob that nests deeper decodes to `TooDeep`
/// instead of exhausting the stack.
pub const GEOM_NESTING_LIMIT: u32 = 32;

/// The executable step (a value and the position after it, or an error)
/// equals the spec parser's step.
pub open spec fn step_matches<T>(r: Result<(T, usize), Error>, s: Result<(T, int), Error>) -> bool {
    match (r, s) {
        (Ok((v1, p1)), Ok((v2, p2))) => v1 == v2 && p1 as int == p2,
        (Err(e1), Err(e2)) => e1 == e2,
        _ => false,
    }
}

/// As `step_matches`, for results compared through their views.
pub open spec fn step_matches_view<T: View>(
    r: Result<(T, usize), Error>,
    s: Result<(T::V, int), Error>,
) -> bool {
    match (r, s) {
        (Ok((v1, p1)), Ok((v2, p2))) => v1@ == v2 && p1 as int == p2,
        (Err(e1), Err(e2)) => e1 == e2,
        _ => false,
    }
}

/// Read the byte-order marker at `pos`.
fn read_marker(b: &Vec<u8>, pos: usize) -> (r: Result<(Endian, usize), Error>)
    ensures
        step_matches(r, parse_marker(b@, pos as int)),
{
    if pos >= b.len() {
        return Err(Error::Truncated);
    }
    let m: u8 = b[pos];
    if m == 0 {
        Ok((Endian::Big, pos + 1))
    } else if m == 1 {
        Ok((Endian::Little, pos + 1))
    } else {
        Err(Error::GeomDecodeError)
    }
}

/// Read the 4-byte integer at `pos`.
fn read_u32_field(b: &Vec<u8>, pos: usize, e: Endian) -> (r: Result<(u32, usize), Error>)
    ensures
        step_matches(r, parse_u32(b@, pos as int, e)),
{
    if pos > b.len() || b.len() - pos < 4 {
        return Err(Error::Truncated);
    }
    Ok((read_u32_at(b, pos, e), pos + 4))
}

/// Read the coordinate pair at `pos`.
fn read_coord(b: &Vec<u8>, pos: usize, e: Endian) -> (r: Result<(GPKGPoint, usize), Error>)
    ensures
        step_matches(r, parse_coord(b@, pos as int, e)),
{
    if pos > b.len() || b.len() - pos < 16 {
        return Err(Error::Truncated);
    }
    let x: u64 = read_u64_at(b, pos, e);
    let y: u64 = read_u64_at(b, pos + 8, e);
    Ok((GPKGPoint { x, y }, pos + 16))
}

/// Read the coordinate triple at `pos`.
fn read_coord_z(b: &Vec<u8>, pos: usize, e: Endian) -> (r: Result<(GPKGPointZ, usize), Error>)
    ensures
        step_matches(r, parse_coord_z(b@, pos as int, e)),
{
    if pos > b.len() || b.len() - pos < 24 {
        return Err(Error::Truncated);
    }
    let x: u64 = read_u64_at(b, pos, e);
    let y: u64 = read_u64_at(b, pos + 8, e);
    let z: u64 = read_u64_at(b, pos + 16, e);
    Ok((GPKGPointZ { x, y, z }, pos + 24))
}

/// Read `n` coordinate pairs in sequence.
#[verifier::loop_isolation(false)]
fn read_coords(b: &Vec<u8>, pos: usize, e: Endian, n: u32) -> (r: Result<
    (Vec<GPKGPoint>, usize),
    Error,
>)
    ensures
        step_matches_view(r, parse_coords(b@, pos as int, e, n as int)),
{
    let ghost goal = parse_coords(b@, pos as int, e, n as int);
    let mut acc: Vec<GPKGPoint> = Vec::new();
    let mut i: u32 = 0;
    let mut p: usize = pos;
    while i < n
        invariant
            i <= n,
            goal == match parse_coords(b@, p as int, e, (n - i) as int) {
                Ok((s, q)) => Ok::<(Seq<GPKGPoint>, int), Error>((acc@ + s, q)),
                Err(er) => Err::<(Seq<GPKGPoint>, int), Error>(er),
            },
        decreases n - i,
    {
        match read_coord(b, p, e) {
            Err(er) => {
                return Err(er);
            },
            Ok((c, p1)) => {
                proof {
                    let inner = parse_coords(b@, p1 as int, e, (n - i - 1) as int);
                    if inner is Ok {
                        let s = inner->Ok_0.0;
                        assert(acc@ + (seq![c] + s) =~= acc@.push(c) + s);
                    }
                }
                acc.push(c);
                p = p1;
                i = i + 1;
            },
        }
    }
    proof {
        assert(acc@ + Seq::<GPKGPoint>::empty() =~= acc@);
    }
    Ok((acc, p))
}

/// Read `n` coordinate triples in sequence.
#[verifier::loop_isolation(false)]
fn read_coords_z(b: &Vec<u8>, pos: usize, e: Endian, n: u32) -> (r: Result<
    (Vec<GPKGPointZ>, usize),
    Error,
>)
    ensures
        step_matches_view(r, parse_coords_z(b@, pos as int, e, n as int)),
{
    let ghost goal = parse_coords_z(b@, pos as int, e, n as int);
    let mut acc: Vec<GPKGPointZ> = Vec::new();
    let mut i: u32 = 0;
    let mut p: usize = pos;
    while i < n
        invariant
            i <= n,
            goal == match parse_coords_z(b@, p as int, e, (n - i) as int) {
                Ok((s, q)) => Ok::<(Seq<GPKGPointZ>, int), Error>((acc@ + s, q)),
                Err(er) => Err::<(Seq<GPKGPointZ>, int), Error>(er),
            },
        decreases n - i,
    {
        match read_coord_z(b, p, e) {
            Err(er) => {
                return Err(er);
            },
            Ok((c, p1)) => {
                proof {
                    let inner = parse_coords_z(b@, p1 as int, e, (n - i - 1) as int);
                    if inner is Ok {
                        let s = inner->Ok_0.0;
                        assert(acc@ + (seq![c] + s) =~= acc@.push(c) + s);
                    }
                }
                acc.push(c);
                p = p1;
                i = i + 1;
            },
        }
    }
    proof {
        assert(acc@ + Seq::<GPKGPointZ>::empty() =~= acc@);
    }
    Ok((acc, p))
}

/// Read a count-prefixed coordinate list.
fn read_coord_list(b: &Vec<u8>, pos: usize, e: Endian) -> (r: Result<
    (Vec<GPKGPoint>, usize),
    Error,
>)
    ensures
        step_matches_view(r, parse_coord_list(b@, pos as int, e)),
{
    match read_u32_field(b, pos, e) {
        Err(er) => Err(er),
        Ok((n, p1)) => read_coords(b, p1, e, n),
    }
}

/// Read a count-prefixed coordinate-triple list.
fn read_coord_list_z(b: &Vec<u8>, pos: usize, e: Endian) -> (r: Result<
    (Vec<GPKGPointZ>, usize),
    Error,
>)
    ensures
        step_matches_view(r, parse_coord_list_z(b@, pos as int, e)),
{
    match read_u32_field(b, pos, e) {
        Err(er) => Err(er),
        Ok((n, p1)) => read_coords_z(b, p1, e, n),
    }
}

/// Read `n` untagged rings in sequence.
#[verifier::loop_isolation(false)]
#[verifier::rlimit(30)]
fn read_rings(b: &Vec<u8>, pos: usize, e: Endian, n: u32) -> (r: Result<
    (Vec<GPKGLineString>, usize),
    Error,
>)
    ensures
        (match (r, parse_rings(b@, pos as int, e, n as int)) {
            (Ok((v1, p1)), Ok((v2, p2))) => rings_view(v1@) == v2 && p1 as int == p2,
            (Err(e1), Err(e2)) => e1 == e2,
            _ => false,
        }),
{
    let ghost goal = parse_rings(b@, pos as int, e, n as int);
    let mut acc: Vec<GPKGLineString> = Vec::new();
    let mut i: u32 = 0;
    let mut p: usize = pos;
    while i < n
        invariant
            i <= n,
            goal == match parse_rings(b@, p as int, e, (n - i) as int) {
                Ok((s, q)) => Ok::<(Seq<Seq<GPKGPoint>>, int), Error>((rings_view(acc@) + s, q)),
                Err(er) => Err::<(Seq<Seq<GPKGPoint>>, int), Error>(er),
            },
        decreases n - i,
    {
        match read_coord_list(b, p, e) {
            Err(er) => {
                return Err(er);
            },
            Ok((ring, p1)) => {
                let ring = GPKGLineString(ring);
                proof {
                    let inner = parse_rings(b@, p1 as int, e, (n - i - 1) as int);
                    assert(rings_view(acc@.push(ring)) =~= rings_view(acc@).push(ring@));
                    if inner is Ok {
                        let s = inner->Ok_0.0;
                        assert(rings_view(acc@) + (seq![ring@] + s) =~= rings_view(acc@).push(
                            ring@,
                        ) + s);
                    }
                }
                acc.push(ring);
                p = p1;
                i = i + 1;
            },
        }
    }
    proof {
        assert(rings_view(acc@) + Seq::<Seq<GPKGPoint>>::empty() =~= rings_view(acc@));
    }
    Ok((acc, p))
}

/// Read a polygon body: ring count, exterior ring, interior rings.
fn read_polygon_body(b: &Vec<u8>, pos: usize, e: Endian) -> (r: Result<
    (GPKGPolygon, usize),
    Error,
>)
    ensures
        step_matches_view(r, parse_polygon_body(b@, pos as int, e)),
{
    match read_u32_field(b, pos, e) {
        Err(er) => Err(er),
        Ok((nr, p1)) => {
            if nr == 0 {
                return Err(Error::GeomDecodeError);
            }
            match read_coord_list(b, p1, e) {
                Err(er) => Err(er),
                Ok((ext, p2)) => match read_rings(b, p2, e, nr - 1) {
                    Err(er) => Err(er),
                    Ok((ints, p3)) => {
                        let poly = GPKGPolygon { exterior: GPKGLineString(ext), interiors: ints };
                        Ok((poly, p3))
                    },
                },
            }
        },
    }
}

/// Read `n` untagged polygon bodies in sequence.
#[verifier::loop_isolation(false)]
#[verifier::rlimit(30)]
fn read_polygon_bodies(b: &Vec<u8>, pos: usize, e: Endian, n: u32) -> (r: Result<
    (Vec<GPKGPolygon>, usize),
    Error,
>)
    ensures
        (match (r, parse_polygon_bodies(b@, pos as int, e, n as int)) {
            (Ok((v1, p1)), Ok((v2, p2))) => polys_view(v1@) == v2 && p1 as int == p2,
            (Err(e1), Err(e2)) => e1 == e2,
            _ => false,
        }),
{
    let ghost goal = parse_polygon_bodies(b@, pos as int, e, n as int);
    let mut acc: Vec<GPKGPolygon> = Vec::new();
    let mut i: u32 = 0;
    let mut p: usize = pos;
    while i < n
        invariant
            i <= n,
            goal == match parse_polygon_bodies(b@, p as int, e, (n - i) as int) {
                Ok((s, q)) => Ok::<(Seq<PolyView>, int), Error>((polys_view(acc@) + s, q)),
                Err(er) => Err::<(Seq<PolyView>, int), Error>(er),
            },
        decreases n - i,
    {
        match read_polygon_body(b, p, e) {
            Err(er) => {
                return Err(er);
            },
            Ok((poly, p1)) => {
                proof {
                    let inner = parse_polygon_bodies(b@, p1 as int, e, (n - i - 1) as int);
                    assert(polys_view(acc@.push(poly)) =~= polys_view(acc@).push(poly@));
                    if inner is Ok {
                        let s = inner->Ok_0.0;
                        assert(polys_view(acc@) + (seq![poly@] + s) =~= polys_view(acc@).push(
                            poly@,
                        ) + s);
                    }
                }
                acc.push(poly);
                p = p1;
                i = i + 1;
            },
        }
    }
    proof {
        assert(polys_view(acc@) + Seq::<PolyView>::empty() =~= polys_view(acc@));
    }
    Ok((acc, p))
}

/// Read one tagged geometry: marker, type code, payload. Spends one unit of
/// the nesting budget; a zero budget is an error.
fn read_tagged_geom(b: &Vec<u8>, pos: usize, depth: u32) -> (r: Result<
    (GPKGGeometry, usize),
    Error,
>)
    ensures
        step_matches_view(r, parse_geom(b@, pos as int, depth as int)),
    decreases depth, 0int,
{
    if depth == 0 {
        return Err(Error::TooDeep);
    }
    match read_marker(b, pos) {
        Err(er) => Err(er),
        Ok((e, p1)) => match read_u32_field(b, p1, e) {
            Err(er) => Err(er),
            Ok((code, p2)) => {
                if !((1 <= code && code <= 7) || code == 1001 || code == 1002) {
                    return Err(Error::UnsupportedGeometryType);
                }
                read_body_for_code(b, p2, e, code, depth - 1)
            },
        },
    }
}

/// Read the payload of a known type code; `depth` is the nesting budget
/// left for collection members.
#[verifier::rlimit(40)]
fn read_body_for_code(b: &Vec<u8>, pos: usize, e: Endian, code: u32, depth: u32) -> (r: Result<
    (GPKGGeometry, usize),
    Error,
>)
    requires
        spec_known_code(code),
    ensures
        step_matches_view(r, parse_body_for_code(b@, pos as int, e, code, depth as int)),
    decreases depth, 2int,
{
    if code == 1 {
        match read_coord(b, pos, e) {
            Err(er) => Err(er),
            Ok((c, p)) => Ok((GPKGGeometry::Point(c), p)),
        }
    } else if code == 2 {
        match read_coord_list(b, pos, e) {
            Err(er) => Err(er),
            Ok((v, p)) => Ok((GPKGGeometry::LineString(GPKGLineString(v)), p)),
        }
    } else if code == 3 {
        match read_polygon_body(b, pos, e) {
            Err(er) => Err(er),
            Ok((poly, p)) => Ok((GPKGGeometry::Polygon(poly), p)),
        }
    } else if code == 4 {
        match read_coord_list(b, pos, e) {
            Err(er) => Err(er),
            Ok((v, p)) => Ok((GPKGGeometry::MultiPoint(GPKGMultiPoint(v)), p)),
        }
    } else if code == 5 {
        match read_u32_field(b, pos, e) {
            Err(er) => Err(er),
            Ok((n, p1)) => match read_rings(b, p1, e, n) {
                Err(er) => Err(er),
                Ok((v, p2)) => Ok((GPKGGeometry::MultiLineString(GPKGMultiLineString(v)), p2)),
            },
        }
    } else if code == 6 {
        match read_u32_field(b, pos, e) {
            Err(er) => Err(er),
            Ok((n, p1)) => match read_polygon_bodies(b, p1, e, n) {
                Err(er) => Err(er),
                Ok((v, p2)) => Ok((GPKGGeometry::MultiPolygon(GPKGMultiPolygon(v)), p2)),
            },
        }
    } else if code == 7 {
        match read_u32_field(b, pos, e) {
            Err(er) => Err(er),
            Ok((n, p1)) => match read_geom_list(b, p1, n, depth) {
                Err(er) => Err(er),
                Ok((v, p2)) => Ok(
                    (GPKGGeometry::GeometryCollection(GPKGGeometryCollection(v)), p2),
                ),
            },
        }
    } else if code == 1001 {
        match read_coord_z(b, pos, e) {
            Err(er) => Err(er),
            Ok((c, p)) => Ok((GPKGGeometry::PointZ(c), p)),
        }
    } else {
        match read_coord_list_z(b, pos, e) {
            Err(er) => Err(er),
            Ok((v, p)) => Ok((GPKGGeometry::LineStringZ(GPKGLineStringZ(v)), p)),
        }
    }
}

/// Read `n` tagged geometries in sequence: the members of a collection.
#[verifier::loop_isolation(false)]
#[verifier::rlimit(40)]
fn read_geom_list(b: &Vec<u8>, pos: usize, n: u32, depth: u32) -> (r: Result<
    (Vec<GPKGGeometry>, usize),
    Error,
>)
    ensures
        (match (r, parse_geoms(b@, pos as int, n as int, depth as int)) {
            (Ok((v1, p1)), Ok((v2, p2))) => gview_seq(v1@) == v2 && p1 as int == p2,
            (Err(e1), Err(e2)) => e1 == e2,
            _ => false,
        }),
    decreases depth, 1int,
{
    let ghost goal = parse_geoms(b@, pos as int, n as int, depth as int);
    let mut acc: Vec<GPKGGeometry> = Vec::new();
    let mut i: u32 = 0;
    let mut p: usize = pos;
    while i < n
        invariant
            i <= n,
            goal == match parse_geoms(b@, p as int, (n - i) as int, depth as int) {
                Ok((s, q)) => Ok::<(Seq<GeomView>, int), Error>((gview_seq(acc@) + s, q)),
                Err(er) => Err::<(Seq<GeomView>, int), Error>(er),
            },
        decreases n - i,
    {
        match read_tagged_geom(b, p, depth) {
            Err(er) => {
                return Err(er);
            },
            Ok((g, p1)) => {
                proof {
                    lemma_gview_seq_push(acc@, g);
                    let inner = parse_geoms(b@, p1 as int, (n - i - 1) as int, depth as int);
                    if inner is Ok {
                        let s = inner->Ok_0.0;
                        assert(gview_seq(acc@) + (seq![gview(g)] + s) =~= gview_seq(acc@).push(
                            gview(g),
                        ) + s);
                    }
                }
                acc.push(g);
                p = p1;
                i = i + 1;
            },
        }
    }
    proof {
        assert(gview_seq(acc@) + Seq::<GeomView>::empty() =~= gview_seq(acc@));
    }
    Ok((acc, p))
}

/// Read one tagged geometry whose type code must equal `expected`.
fn read_tagged_expect(b: &Vec<u8>, pos: usize, expected: u32, depth: u32) -> (r: Result<
    (GPKGGeometry, usize),
    Error,
>)
    requires
        depth >= 1,
    ensures
        step_matches_view(r, parse_geom_expect(b@, pos as int, expected, depth as int)),
{
    match read_marker(b, pos) {
        Err(er) => Err(er),
        Ok((e, p1)) => match read_u32_field(b, p1, e) {
            Err(er) => Err(er),
            Ok((code, p2)) => {
                if !((1 <= code && code <= 7) || code == 1001 || code == 1002) {
                    return Err(Error::UnsupportedGeometryType);
                }
                if code != expected {
                    return Err(Error::WrongType);
                }
                read_body_for_code(b, p2, e, code, depth - 1)
            },
        },
    }
}

/// Decode the 8-byte header of a blob: the flags, the SRS id read in the
/// byte order the flags declare, and the offset at which the WKB body
/// starts (past the declared envelope).
pub fn decode_header(b: &Vec<u8>) -> (r: Result<(GPKGGeomFlags, i32, usize), Error>)
    ensures
        (match (r, parse_header(b@)) {
            (Ok((f1, s1, o1)), Ok((f2, s2, o2))) => f1 == f2 && s1 == s2 && o1 as int == o2,
            (Err(e1), Err(e2)) => e1 == e2,
            _ => false,
        }),
{
    if b.len() < 8 {
        return Err(Error::MalformedHeader);
    }
    let f: GPKGGeomFlags = match GPKGGeomFlags::from_byte(b[3]) {
        Ok(f) => f,
        Err(er) => {
            return Err(er);
        },
    };
    let e: Endian = if f.little_endian {
        Endian::Little
    } else {
        Endian::Big
    };
    let srs: i32 = read_u32_at(b, 4, e) as i32;
    let env: usize = envelope_length(f.envelope);
    Ok((f, srs, 8 + env))
}

/// Decode a whole blob into a geometry of any supported kind, with a
/// caller-chosen limit on how deeply collections may nest. The magic and
/// version bytes are consumed but not validated; trailing bytes after the
/// body are ignored.
pub fn decode_with_limit(b: &Vec<u8>, max_depth: u32) -> (r: Result<GPKGGeometry, Error>)
    ensures
        (match (r, spec_decode(b@, max_depth as int)) {
            (Ok(g), Ok(gv)) => g@ == gv,
            (Err(e1), Err(e2)) => e1 == e2,
            _ => false,
        }),
{
    match decode_header(b) {
        Err(er) => Err(er),
        Ok((_f, _srs, off)) => match read_tagged_geom(b, off, max_depth) {
            Err(er) => Err(er),
            Ok((g, _)) => Ok(g),
        },
    }
}

/// Decode a whole blob with the default nesting limit.
pub fn decode(b: &Vec<u8>) -> (r: Result<GPKGGeometry, Error>)
    ensures
        (match (r, spec_decode(b@, GEOM_NESTING_LIMIT as int)) {
            (Ok(g), Ok(gv)) => g@ == gv,
            (Err(e1), Err(e2)) => e1 == e2,
            _ => false,
        }),
{
    decode_with_limit(b, GEOM_NESTING_LIMIT)
}

/// Decode a whole blob whose body must carry the expected type code.
fn decode_expect(b: &Vec<u8>, expected: u32) -> (r: Result<GPKGGeometry, Error>)
    ensures
        (match (r, spec_decode_expect(b@, expected, GEOM_NESTING_LIMIT as int)) {
            (Ok(g), Ok(gv)) => g@ == gv,
            (Err(e1), Err(e2)) => e1 == e2,
            _ => false,
        }),
{
    match decode_header(b) {
        Err(er) => Err(er),
        Ok((_f, _srs, off)) => match read_tagged_expect(b, off, expected, GEOM_NESTING_LIMIT) {
            Err(er) => Err(er),
            Ok((g, _)) => Ok(g),
        },
    }
}

/// Append one coordinate pair, little-endian.
fn write_coord(w: &mut Vec<u8>, c: GPKGPoint)
    ensures
        final(w)@ == old(w)@ + ser_coord(Endian::Little, c),
{
    push_u64_le(w, c.x);
    push_u64_le(w, c.y);
    assert(w@ =~= old(w)@ + ser_coord(Endian::Little, c));
}

/// Append one coordinate triple, little-endian.
fn write_coord_z(w: &mut Vec<u8>, c: GPKGPointZ)
    ensures
        final(w)@ == old(w)@ + ser_coord_z(Endian::Little, c),
{
    push_u64_le(w, c.x);
    push_u64_le(w, c.y);
    push_u64_le(w, c.z);
    assert(w@ =~= old(w)@ + ser_coord_z(Endian::Little, c));
}

/// Append the coordinates in sequence, without a count.
#[verifier::loop_isolation(false)]
fn write_coords(w: &mut Vec<u8>, s: &Vec<GPKGPoint>)
    ensures
        final(w)@ == old(w)@ + ser_coords(Endian::Little, s@),
{
    let mut i: usize = 0;
    proof {
        assert(s@.subrange(0, s@.len() as int) =~= s@);
    }
    while i < s.len()
        invariant
            i <= s@.len(),
            w@ + ser_coords(Endian::Little, s@.subrange(i as int, s@.len() as int)) == old(w)@
                + ser_coords(Endian::Little, s@),
        decreases s@.len() - i,
    {
        let ghost pre = w@;
        let ghost rest = s@.subrange(i as int, s@.len() as int);
        write_coord(w, s[i]);
        proof {
            assert(rest.subrange(1, rest.len() as int) =~= s@.subrange(
                i as int + 1,
                s@.len() as int,
            ));
            assert(pre + (ser_coord(Endian::Little, s@[i as int]) + ser_coords(
                Endian::Little,
                s@.subrange(i as int + 1, s@.len() as int),
            )) =~= (pre + ser_coord(Endian::Little, s@[i as int])) + ser_coords(
                Endian::Little,
                s@.subrange(i as int + 1, s@.len() as int),
            ));
        }
        i = i + 1;
    }
    proof {
        assert(s@.subrange(s@.len() as int, s@.len() as int) =~= Seq::<GPKGPoint>::empty());
        assert(w@ + Seq::<u8>::empty() =~= w@);
    }
}

/// Append the coordinate triples in sequence, without a count.
#[verifier::loop_isolation(false)]
fn write_coords_z(w: &mut Vec<u8>, s: &Vec<GPKGPointZ>)
    ensures
        final(w)@ == old(w)@ + ser_coords_z(Endian::Little, s@),
{
    let mut i: usize = 0;
    proof {
        assert(s@.subrange(0, s@.len() as int) =~= s@);
    }
    while i < s.len()
        invariant
            i <= s@.len(),
            w@ + ser_coords_z(Endian::Little, s@.subrange(i as int, s@.len() as int)) == old(w)@
                + ser_coords_z(Endian::Little, s@),
        decreases s@.len() - i,
    {
        let ghost pre = w@;
        let ghost rest = s@.subrange(i as int, s@.len() as int);
        write_coord_z(w, s[i]);
        proof {
            assert(rest.subrange(1, rest.len() as int) =~= s@.subrange(
                i as int + 1,
                s@.len() as int,
            ));
            assert(pre + (ser_coord_z(Endian::Little, s@[i as int]) + ser_coords_z(
                Endian::Little,
                s@.subrange(i as int + 1, s@.len() as int),
            )) =~= (pre + ser_coord_z(Endian::Little, s@[i as int])) + ser_coords_z(
                Endian::Little,
                s@.subrange(i as int + 1, s@.len() as int),
            ));
        }
        i = i + 1;
    }
    proof {
        assert(s@.subrange(s@.len() as int, s@.len() as int) =~= Seq::<GPKGPointZ>::empty());
        assert(w@ + Seq::<u8>::empty() =~= w@);
    }
}

/// Append a count-prefixed coordinate list. The count must fit its 4-byte
/// field; a longer list is an encoding error, and the buffer is unchanged.
fn write_coord_list(w: &mut Vec<u8>, s: &Vec<GPKGPoint>) -> (r: Result<(), Error>)
    ensures
        r is Ok <==> wf_coords(s@),
        r is Ok ==> final(w)@ == old(w)@ + ser_coord_list(Endian::Little, s@),
        r is Err ==> r == Err::<(), Error>(Error::GeomEncodeError) && *final(w) == *old(w),
{
    if s.len() > u32::MAX as usize {
        return Err(Error::GeomEncodeError);
    }
    push_u32_le(w, s.len() as u32);
    write_coords(w, s);
    proof {
        assert(w@ =~= old(w)@ + ser_coord_list(Endian::Little, s@));
    }
    Ok(())
}

/// Append a count-prefixed coordinate-triple list.
fn write_coord_list_z(w: &mut Vec<u8>, s: &Vec<GPKGPointZ>) -> (r: Result<(), Error>)
    ensures
        r is Ok <==> wf_coords_z(s@),
        r is Ok ==> final(w)@ == old(w)@ + ser_coord_list_z(Endian::Little, s@),
        r is Err ==> r == Err::<(), Error>(Error::GeomEncodeError) && *final(w) == *old(w),
{
    if s.len() > u32::MAX as usize {
        return Err(Error::GeomEncodeError);
    }
    push_u32_le(w, s.len() as u32);
    write_coords_z(w, s);
    proof {
        assert(w@ =~= old(w)@ + ser_coord_list_z(Endian::Little, s@));
    }
    Ok(())
}

/// Append untagged rings in sequence. On an error the buffer may hold a
/// partial prefix, as a failed write to any sink would.
#[verifier::loop_isolation(false)]
#[verifier::rlimit(30)]
fn write_rings(w: &mut Vec<u8>, rs: &Vec<GPKGLineString>) -> (r: Result<(), Error>)
    ensures
        r is Ok <==> (forall|i: int| 0 <= i < rs@.len() ==> wf_coords(#[trigger] rs@[i]@)),
        r is Ok ==> final(w)@ == old(w)@ + ser_rings(Endian::Little, rings_view(rs@)),
        r is Err ==> r == Err::<(), Error>(Error::GeomEncodeError),
{
    let ghost rv = rings_view(rs@);
    let mut i: usize = 0;
    proof {
        assert(rv.subrange(0, rv.len() as int) =~= rv);
    }
    while i < rs.len()
        invariant
            i <= rs@.len(),
            forall|j: int| 0 <= j < i ==> wf_coords(#[trigger] rs@[j]@),
            w@ + ser_rings(Endian::Little, rv.subrange(i as int, rv.len() as int)) == old(w)@
                + ser_rings(Endian::Little, rv),
        decreases rs@.len() - i,
    {
        let ghost pre = w@;
        let ghost rest = rv.subrange(i as int, rv.len() as int);
        match write_coord_list(w, &rs[i].0) {
            Err(er) => {
                proof {
                    assert(!wf_coords(rs@[i as int]@));
                }
                return Err(er);
            },
            Ok(()) => {
                proof {
                    assert(rest[0] == rv[i as int]);
                    assert(rest.subrange(1, rest.len() as int) =~= rv.subrange(
                        i as int + 1,
                        rv.len() as int,
                    ));
                    assert(pre + (ser_coord_list(Endian::Little, rv[i as int]) + ser_rings(
                        Endian::Little,
                        rv.subrange(i as int + 1, rv.len() as int),
                    )) =~= (pre + ser_coord_list(Endian::Little, rv[i as int])) + ser_rings(
                        Endian::Little,
                        rv.subrange(i as int + 1, rv.len() as int),
                    ));
                }
                i = i + 1;
            },
        }
    }
    proof {
        assert(rv.subrange(rv.len() as int, rv.len() as int) =~= Seq::<Seq<GPKGPoint>>::empty());
        assert(w@ + Seq::<u8>::empty() =~= w@);
    }
    Ok(())
}

/// Append a polygon body: ring count, exterior ring, interior rings.
fn write_polygon_body(w: &mut Vec<u8>, p: &GPKGPolygon) -> (r: Result<(), Error>)
    ensures
        r is Ok <==> wf_poly(p@),
        r is Ok ==> final(w)@ == old(w)@ + ser_polygon_body(Endian::Little, p@),
        r is Err ==> r == Err::<(), Error>(Error::GeomEncodeError),
{
    if p.interiors.len() >= u32::MAX as usize {
        return Err(Error::GeomEncodeError);
    }
    push_u32_le(w, (p.interiors.len() + 1) as u32);
    match write_coord_list(w, &p.exterior.0) {
        Err(er) => {
            return Err(er);
        },
        Ok(()) => {},
    }
    match write_rings(w, &p.interiors) {
        Err(er) => {
            proof {
                let i = choose|i: int|
                    0 <= i < p.interiors@.len() && !wf_coords(p.interiors@[i]@);
                assert(p@.interiors[i] == p.interiors@[i]@);
            }
            return Err(er);
        },
        Ok(()) => {},
    }
    proof {
        assert forall|i: int| 0 <= i < p@.interiors.len() implies wf_coords(
            #[trigger] p@.interiors[i],
        ) by {
            assert(p@.interiors[i] == p.interiors@[i]@);
        }
        assert(w@ =~= old(w)@ + ser_polygon_body(Endian::Little, p@));
    }
    Ok(())
}

/// Append untagged polygon bodies in sequence.
#[verifier::loop_isolation(false)]
#[verifier::rlimit(30)]
fn write_polygon_bodies(w: &mut Vec<u8>, ps: &Vec<GPKGPolygon>) -> (r: Result<(), Error>)
    ensures
        r is Ok <==> (forall|i: int| 0 <= i < ps@.len() ==> wf_poly(#[trigger] ps@[i]@)),
        r is Ok ==> final(w)@ == old(w)@ + ser_polygon_bodies(Endian::Little, polys_view(ps@)),
        r is Err ==> r == Err::<(), Error>(Error::GeomEncodeError),
{
    let ghost pv = polys_view(ps@);
    let mut i: usize = 0;
    proof {
        assert(pv.subrange(0, pv.len() as int) =~= pv);
    }
    while i < ps.len()
        invariant
            i <= ps@.len(),
            forall|j: int| 0 <= j < i ==> wf_poly(#[trigger] ps@[j]@),
            w@ + ser_polygon_bodies(Endian::Little, pv.subrange(i as int, pv.len() as int)) == old(
                w,
            )@ + ser_polygon_bodies(Endian::Little, pv),
        decreases ps@.len() - i,
    {
        let ghost pre = w@;
        let ghost rest = pv.subrange(i as int, pv.len() as int);
        match write_polygon_body(w, &ps[i]) {
            Err(er) => {
                proof {
                    assert(!wf_poly(ps@[i as int]@));
                }
                return Err(er);
            },
            Ok(()) => {
                proof {
                    assert(rest[0] == pv[i as int]);
                    assert(rest.subrange(1, rest.len() as int) =~= pv.subrange(
                        i as int + 1,
                        pv.len() as int,
                    ));
                    assert(pre + (ser_polygon_body(Endian::Little, pv[i as int])
                        + ser_polygon_bodies(
                        Endian::Little,
                        pv.subrange(i as int + 1, pv.len() as int),
                    )) =~= (pre + ser_polygon_body(Endian::Little, pv[i as int]))
                        + ser_polygon_bodies(
                        Endian::Little,
                        pv.subrange(i as int + 1, pv.len() as int),
                    ));
                }
                i = i + 1;
            },
        }
    }
    proof {
        assert(pv.subrange(pv.len() as int, pv.len() as int) =~= Seq::<PolyView>::empty());
        assert(w@ + Seq::<u8>::empty() =~= w@);
    }
    Ok(())
}

/// Append a count-prefixed list of untagged rings: the body of a
/// multi-line-string.
fn write_ring_list(w: &mut Vec<u8>, rs: &Vec<GPKGLineString>) -> (r: Result<(), Error>)
    ensures
        r is Ok <==> (rings_view(rs@).len() <= u32::MAX && forall|i: int|
            0 <= i < rings_view(rs@).len() ==> wf_coords(#[trigger] rings_view(rs@)[i])),
        r is Ok ==> final(w)@ == old(w)@ + ser_u32(Endian::Little, rs@.len() as u32) + ser_rings(
            Endian::Little,
            rings_view(rs@),
        ),
        r is Err ==> r == Err::<(), Error>(Error::GeomEncodeError),
{
    if rs.len() > u32::MAX as usize {
        return Err(Error::GeomEncodeError);
    }
    push_u32_le(w, rs.len() as u32);
    match write_rings(w, rs) {
        Err(er) => {
            proof {
                let i = choose|i: int| 0 <= i < rs@.len() && !wf_coords(rs@[i]@);
                assert(rings_view(rs@)[i] == rs@[i]@);
            }
            Err(er)
        },
        Ok(()) => {
            proof {
                assert forall|i: int| 0 <= i < rings_view(rs@).len() implies wf_coords(
                    #[trigger] rings_view(rs@)[i],
                ) by {
                    assert(rings_view(rs@)[i] == rs@[i]@);
                }
                assert(w@ =~= old(w)@ + ser_u32(Endian::Little, rs@.len() as u32) + ser_rings(
                    Endian::Little,
                    rings_view(rs@),
                ));
            }
            Ok(())
        },
    }
}

/// Append a count-prefixed list of untagged polygon bodies: the body of a
/// multi-polygon.
fn write_polygon_list(w: &mut Vec<u8>, ps: &Vec<GPKGPolygon>) -> (r: Result<(), Error>)
    ensures
        r is Ok <==> (polys_view(ps@).len() <= u32::MAX && forall|i: int|
            0 <= i < polys_view(ps@).len() ==> wf_poly(#[trigger] polys_view(ps@)[i])),
        r is Ok ==> final(w)@ == old(w)@ + ser_u32(Endian::Little, ps@.len() as u32)
            + ser_polygon_bodies(Endian::Little, polys_view(ps@)),
        r is Err ==> r == Err::<(), Error>(Error::GeomEncodeError),
{
    if ps.len() > u32::MAX as usize {
        return Err(Error::GeomEncodeError);
    }
    push_u32_le(w, ps.len() as u32);
    match write_polygon_bodies(w, ps) {
        Err(er) => {
            proof {
                let i = choose|i: int| 0 <= i < ps@.len() && !wf_poly(ps@[i]@);
                assert(polys_view(ps@)[i] == ps@[i]@);
            }
            Err(er)
        },
        Ok(()) => {
            proof {
                assert forall|i: int| 0 <= i < polys_view(ps@).len() implies wf_poly(
                    #[trigger] polys_view(ps@)[i],
                ) by {
                    assert(polys_view(ps@)[i] == ps@[i]@);
                }
                assert(w@ =~= old(w)@ + ser_u32(Endian::Little, ps@.len() as u32)
                    + ser_polygon_bodies(Endian::Little, polys_view(ps@)));
            }
            Ok(())
        },
    }
}

/// The wire type code of a geometry value.
fn geom_code(g: &GPKGGeometry) -> (r: u32)
    ensures
        r == spec_geom_code(g@),
{
    match g {
        GPKGGeometry::Point(_) => 1,
        GPKGGeometry::LineString(_) => 2,
        GPKGGeometry::Polygon(_) => 3,
        GPKGGeometry::MultiPoint(_) => 4,
        GPKGGeometry::MultiLineString(_) => 5,
        GPKGGeometry::MultiPolygon(_) => 6,
        GPKGGeometry::GeometryCollection(_) => 7,
        GPKGGeometry::PointZ(_) => 1001,
        GPKGGeometry::LineStringZ(_) => 1002,
    }
}

/// Append one tagged geometry: little-endian marker, type code, payload.
fn write_tagged_geom(w: &mut Vec<u8>, g: &GPKGGeometry) -> (r: Result<(), Error>)
    ensures
        r is Ok <==> wf_geom(g@),
        r is Ok ==> final(w)@ == old(w)@ + ser_geom(Endian::Little, g@),
        r is Err ==> r == Err::<(), Error>(Error::GeomEncodeError),
    decreases g@, 1int,
{
    w.push(1u8);
    let code: u32 = geom_code(g);
    push_u32_le(w, code);
    match write_geom_body(w, g) {
        Err(er) => Err(er),
        Ok(()) => {
            proof {
                assert(w@ =~= old(w)@ + ser_geom(Endian::Little, g@));
            }
            Ok(())
        },
    }
}

/// Append the kind-specific payload of a geometry.
#[verifier::rlimit(40)]
fn write_geom_body(w: &mut Vec<u8>, g: &GPKGGeometry) -> (r: Result<(), Error>)
    ensures
        r is Ok <==> wf_geom(g@),
        r is Ok ==> final(w)@ == old(w)@ + ser_geom_body(Endian::Little, g@),
        r is Err ==> r == Err::<(), Error>(Error::GeomEncodeError),
    decreases g@, 0int,
{
    match g {
        GPKGGeometry::Point(c) => {
            write_coord(w, *c);
            Ok(())
        },
        GPKGGeometry::LineString(ls) => write_coord_list(w, &ls.0),
        GPKGGeometry::Polygon(p) => write_polygon_body(w, p),
        GPKGGeometry::MultiPoint(mp) => write_coord_list(w, &mp.0),
        GPKGGeometry::MultiLineString(m) => write_ring_list(w, &m.0),
        GPKGGeometry::MultiPolygon(m) => write_polygon_list(w, &m.0),
        GPKGGeometry::GeometryCollection(c) => {
            if c.0.len() > u32::MAX as usize {
                proof {
                    lemma_gview_seq_len(c.0@);
                }
                return Err(Error::GeomEncodeError);
            }
            push_u32_le(w, c.0.len() as u32);
            proof {
                lemma_gview_seq_len(c.0@);
                assert(decreases_to!(g@ => g@->GeometryCollection_0));
            }
            match write_geom_list(w, &c.0) {
                Err(er) => Err(er),
                Ok(()) => {
                    proof {
                        assert(w@ =~= old(w)@ + ser_geom_body(Endian::Little, g@));
                    }
                    Ok(())
                },
            }
        },
        GPKGGeometry::PointZ(c) => {
            write_coord_z(w, *c);
            Ok(())
        },
        GPKGGeometry::LineStringZ(l) => write_coord_list_z(w, &l.0),
    }
}

/// Append tagged geometries in sequence: the members of a collection.
#[verifier::loop_isolation(false)]
#[verifier::rlimit(40)]
fn write_geom_list(w: &mut Vec<u8>, gs: &Vec<GPKGGeometry>) -> (r: Result<(), Error>)
    ensures
        r is Ok <==> wf_geom_seq(gview_seq(gs@)),
        r is Ok ==> final(w)@ == old(w)@ + ser_geoms(Endian::Little, gview_seq(gs@)),
        r is Err ==> r == Err::<(), Error>(Error::GeomEncodeError),
    decreases gview_seq(gs@), 2int,
{
    let ghost gv = gview_seq(gs@);
    proof {
        lemma_gview_seq_len(gs@);
        lemma_wf_geom_seq_iff(gv);
        assert(gv.subrange(0, gv.len() as int) =~= gv);
    }
    let mut i: usize = 0;
    while i < gs.len()
        invariant
            i <= gs@.len(),
            forall|j: int| 0 <= j < i ==> wf_geom(#[trigger] gv[j]),
            w@ + ser_geoms(Endian::Little, gv.subrange(i as int, gv.len() as int)) == old(w)@
                + ser_geoms(Endian::Little, gv),
        decreases gs@.len() - i,
    {
        proof {
            lemma_gview_seq_index(gs@, i as int);
            assert(decreases_to!(gv => gv[i as int]));
        }
        let ghost pre = w@;
        let ghost rest = gv.subrange(i as int, gv.len() as int);
        match write_tagged_geom(w, &gs[i]) {
            Err(er) => {
                return Err(er);
            },
            Ok(()) => {
                proof {
                    assert(rest[0] == gv[i as int]);
                    assert(rest.subrange(1, rest.len() as int) =~= gv.subrange(
                        i as int + 1,
                        gv.len() as int,
                    ));
                    assert(pre + (ser_geom(Endian::Little, gv[i as int]) + ser_geoms(
                        Endian::Little,
                        gv.subrange(i as int + 1, gv.len() as int),
                    )) =~= (pre + ser_geom(Endian::Little, gv[i as int])) + ser_geoms(
                        Endian::Little,
                        gv.subrange(i as int + 1, gv.len() as int),
                    ));
                }
                i = i + 1;
            },
        }
    }
    proof {
        assert(gv.subrange(gv.len() as int, gv.len() as int) =~= Seq::<GeomView>::empty());
        assert(w@ + Seq::<u8>::empty() =~= w@);
    }
    Ok(())
}

/// Append the 8-byte header: magic "GP", version 0, the little-endian
/// no-envelope flags byte, then the SRS id little-endian.
fn write_header(w: &mut Vec<u8>, srs_id: i32)
    ensures
        final(w)@ == old(w)@ + spec_header_bytes(srs_id),
{
    w.push(0x47);
    w.push(0x50);
    w.push(0x00);
    w.push(0x01);
    push_u32_le(w, srs_id as u32);
    assert(w@ =~= old(w)@ + spec_header_bytes(srs_id));
}

/// Encode a geometry into a GeoPackage blob carrying the given SRS id.
/// Succeeds exactly when every element count of the geometry fits its
/// 4-byte wire field.
pub fn encode(g: &GPKGGeometry, srs_id: i32) -> (r: Result<Vec<u8>, Error>)
    ensures
        r is Ok <==> wf_geom(g@),
        r is Ok ==> r->Ok_0@ == spec_encode(g@, srs_id),
        r is Err ==> r == Err::<Vec<u8>, Error>(Error::GeomEncodeError),
{
    let mut w: Vec<u8> = Vec::new();
    write_header(&mut w, srs_id);
    match write_tagged_geom(&mut w, g) {
        Err(er) => Err(er),
        Ok(()) => {
            proof {
                assert(w@ =~= spec_encode(g@, srs_id));
            }
            Ok(w)
        },
    }
}

impl GPKGPoint {
    /// Append this geometry's tagged WKB body: little-endian marker, type
    /// code 1, then the payload. On an error the buffer may be left
    /// holding a partial prefix, as a failed write to any sink would.
    pub fn write_as_wkb(&self, w: &mut Vec<u8>) -> (r: Result<(), Error>)
        ensures
            r is Ok <==> wf_geom(GeomView::Point(*self)),
            r is Ok ==> final(w)@ == old(w)@ + ser_geom(Endian::Little, GeomView::Point(*self)),
            r is Err ==> r == Err::<(), Error>(Error::GeomEncodeError),
    {
        w.push(1u8);
        push_u32_le(w, 1);
        write_coord(w, *self);
        proof {
            assert(w@ =~= old(w)@ + ser_geom(Endian::Little, GeomView::Point(*self)));
        }
        Ok(())
    }

    /// Decode exactly this kind from a tagged WKB body starting at the
    /// beginning of `b`. A known but different type code is a `WrongType`
    /// error; an unknown one is `UnsupportedGeometryType`.
    pub fn read_from_wkb(b: &Vec<u8>) -> (r: Result<GPKGPoint, Error>)
        ensures
            (match (r, parse_geom_expect(b@, 0, 1, GEOM_NESTING_LIMIT as int)) {
                (Ok(v), Ok((gv, _))) => gv == GeomView::Point(v),
                (Err(e1), Err(e2)) => e1 == e2,
                _ => false,
            }),
    {
        match read_tagged_expect(b, 0, 1, GEOM_NESTING_LIMIT) {
            Err(er) => Err(er),
            Ok((g, _)) => match g {
                GPKGGeometry::Point(v) => Ok(v),
                _ => {
                    proof {
                        assert(false);
                    }
                    Err(Error::WrongType)
                },
            },
        }
    }

    /// Encode as a whole GeoPackage blob with SRS id 4326, the writer's
    /// fixed policy.
    pub fn to_wkb(&self) -> (r: Result<Vec<u8>, Error>)
        ensures
            r is Ok <==> wf_geom(GeomView::Point(*self)),
            r is Ok ==> r->Ok_0@ == spec_encode(GeomView::Point(*self), 4326),
            r is Err ==> r == Err::<Vec<u8>, Error>(Error::GeomEncodeError),
    {
        let mut w: Vec<u8> = Vec::new();
        write_header(&mut w, 4326);
        match self.write_as_wkb(&mut w) {
            Err(er) => Err(er),
            Ok(()) => {
                proof {
                    assert(w@ =~= spec_encode(GeomView::Point(*self), 4326));
                }
                Ok(w)
            },
        }
    }

    /// Decode exactly this kind from a whole GeoPackage blob.
    pub fn from_wkb(b: &Vec<u8>) -> (r: Result<GPKGPoint, Error>)
        ensures
            (match (r, spec_decode_expect(b@, 1, GEOM_NESTING_LIMIT as int)) {
                (Ok(v), Ok(gv)) => gv == GeomView::Point(v),
                (Err(e1), Err(e2)) => e1 == e2,
                _ => false,
            }),
    {
        match decode_expect(b, 1) {
            Err(er) => Err(er),
            Ok(g) => match g {
                GPKGGeometry::Point(v) => Ok(v),
                _ => {
                    proof {
                        assert(false);
                    }
                    Err(Error::WrongType)
                },
            },
        }
    }
}

impl GPKGLineString {
    /// Append this geometry's tagged WKB body: little-endian marker, type
    /// code 2, then the payload. On an error the buffer may be left
    /// holding a partial prefix, as a failed write to any sink would.
    pub fn write_as_wkb(&self, w: &mut Vec<u8>) -> (r: Result<(), Error>)
        ensures
            r is Ok <==> wf_geom(GeomView::LineString(self@)),
            r is Ok ==> final(w)@ == old(w)@ + ser_geom(Endian::Little, GeomView::LineString(self@)),
            r is Err ==> r == Err::<(), Error>(Error::GeomEncodeError),
    {
        w.push(1u8);
        push_u32_le(w, 2);
        match write_coord_list(w, &self.0) {
            Err(er) => Err(er),
            Ok(()) => {
                proof {
                    assert(w@ =~= old(w)@ + ser_geom(Endian::Little, GeomView::LineString(self@)));
                }
                Ok(())
            },
        }
    }

    /// Decode exactly this kind from a tagged WKB body starting at the
    /// beginning of `b`. A known but different type code is a `WrongType`
    /// error; an unknown one is `UnsupportedGeometryType`.
    pub fn read_from_wkb(b: &Vec<u8>) -> (r: Result<GPKGLineString, Error>)
        ensures
            (match (r, parse_geom_expect(b@, 0, 2, GEOM_NESTING_LIMIT as int)) {
                (Ok(v), Ok((gv, _))) => gv == GeomView::LineString(v@),
                (Err(e1), Err(e2)) => e1 == e2,
                _ => false,
            }),
    {
        match read_tagged_expect(b, 0, 2, GEOM_NESTING_LIMIT) {
            Err(er) => Err(er),
            Ok((g, _)) => match g {
                GPKGGeometry::LineString(v) => Ok(v),
                _ => {
                    proof {
                        assert(false);
                    }
                    Err(Error::WrongType)
                },
            },
        }
    }

    /// Encode as a whole GeoPackage blob with SRS id 4326, the writer's
    /// fixed policy.
    pub fn to_wkb(&self) -> (r: Result<Vec<u8>, Error>)
        ensures
            r is Ok <==> wf_geom(GeomView::LineString(self@)),
            r is Ok ==> r->Ok_0@ == spec_encode(GeomView::LineString(self@), 4326),
            r is Err ==> r == Err::<Vec<u8>, Error>(Error::GeomEncodeError),
    {
        let mut w: Vec<u8> = Vec::new();
        write_header(&mut w, 4326);
        match self.write_as_wkb(&mut w) {
            Err(er) => Err(er),
            Ok(()) => {
                proof {
                    assert(w@ =~= spec_encode(GeomView::LineString(self@), 4326));
                }
                Ok(w)
            },
        }
    }

    /// Decode exactly this kind from a whole GeoPackage blob.
    pub fn from_wkb(b: &Vec<u8>) -> (r: Result<GPKGLineString, Error>)
        ensures
            (match (r, spec_decode_expect(b@, 2, GEOM_NESTING_LIMIT as int)) {
                (Ok(v), Ok(gv)) => gv == GeomView::LineString(v@),
                (Err(e1), Err(e2)) => e1 == e2,
                _ => false,
            }),
    {
        match decode_expect(b, 2) {
            Err(er) => Err(er),
            Ok(g) => match g {
                GPKGGeometry::LineString(v) => Ok(v),
                _ => {
                    proof {
                        assert(false);
                    }
                    Err(Error::WrongType)
                },
            },
        }
    }
}

impl GPKGPolygon {
    /// Append this geometry's tagged WKB body: little-endian marker, type
    /// code 3, then the payload. On an error the buffer may be left
    /// holding a partial prefix, as a failed write to any sink would.
    pub fn write_as_wkb(&self, w: &mut Vec<u8>) -> (r: Result<(), Error>)
        ensures
            r is Ok <==> wf_geom(GeomView::Polygon(self@)),
            r is Ok ==> final(w)@ == old(w)@ + ser_geom(Endian::Little, GeomView::Polygon(self@)),
            r is Err ==> r == Err::<(), Error>(Error::GeomEncodeError),
    {
        w.push(1u8);
        push_u32_le(w, 3);
        match write_polygon_body(w, self) {
            Err(er) => Err(er),
            Ok(()) => {
                proof {
                    assert(w@ =~= old(w)@ + ser_geom(Endian::Little, GeomView::Polygon(self@)));
                }
                Ok(())
            },
        }
    }

    /// Decode exactly this kind from a tagged WKB body starting at the
    /// beginning of `b`. A known but different type code is a `WrongType`
    /// error; an unknown one is `UnsupportedGeometryType`.
    pub fn read_from_wkb(b: &Vec<u8>) -> (r: Result<GPKGPolygon, Error>)
        ensures
            (match (r, parse_geom_expect(b@, 0, 3, GEOM_NESTING_LIMIT as int)) {
                (Ok(v), Ok((gv, _))) => gv == GeomView::Polygon(v@),
                (Err(e1), Err(e2)) => e1 == e2,
                _ => false,
            }),
    {
        match read_tagged_expect(b, 0, 3, GEOM_NESTING_LIMIT) {
            Err(er) => Err(er),
            Ok((g, _)) => match g {
                GPKGGeometry::Polygon(v) => Ok(v),
                _ => {
                    proof {
                        assert(false);
                    }
                    Err(Error::WrongType)
                },
            },
        }
    }

    /// Encode as a whole GeoPackage blob with SRS id 4326, the writer's
    /// fixed policy.
    pub fn to_wkb(&self) -> (r: Result<Vec<u8>, Error>)
        ensures
            r is Ok <==> wf_geom(GeomView::Polygon(self@)),
            r is Ok ==> r->Ok_0@ == spec_encode(GeomView::Polygon(self@), 4326),
            r is Err ==> r == Err::<Vec<u8>, Error>(Error::GeomEncodeError),
    {
        let mut w: Vec<u8> = Vec::new();
        write_header(&mut w, 4326);
        match self.write_as_wkb(&mut w) {
            Err(er) => Err(er),
            Ok(()) => {
                proof {
                    assert(w@ =~= spec_encode(GeomView::Polygon(self@), 4326));
                }
                Ok(w)
            },
        }
    }

    /// Decode exactly this kind from a whole GeoPackage blob.
    pub fn from_wkb(b: &Vec<u8>) -> (r: Result<GPKGPolygon, Error>)
        ensures
            (match (r, spec_decode_expect(b@, 3, GEOM_NESTING_LIMIT as int)) {
                (Ok(v), Ok(gv)) => gv == GeomView::Polygon(v@),
                (Err(e1), Err(e2)) => e1 == e2,
                _ => false,
            }),
    {
        match decode_expect(b, 3) {
            Err(er) => Err(er),
            Ok(g) => match g {
                GPKGGeometry::Polygon(v) => Ok(v),
                _ => {
                    proof {
                        assert(false);
                    }
                    Err(Error::WrongType)
                },
            },
        }
    }
}

impl GPKGMultiPoint {
    /// Append this geometry's tagged WKB body: little-endian marker, type
    /// code 4, then the payload. On an error the buffer may be left
    /// holding a partial prefix, as a failed write to any sink would.
    pub fn write_as_wkb(&self, w: &mut Vec<u8>) -> (r: Result<(), Error>)
        ensures
            r is Ok <==> wf_geom(GeomView::MultiPoint(self@)),
            r is Ok ==> final(w)@ == old(w)@ + ser_geom(Endian::Little, GeomView::MultiPoint(self@)),
            r is Err ==> r == Err::<(), Error>(Error::GeomEncodeError),
    {
        w.push(1u8);
        push_u32_le(w, 4);
        match write_coord_list(w, &self.0) {
            Err(er) => Err(er),
            Ok(()) => {
                proof {
                    assert(w@ =~= old(w)@ + ser_geom(Endian::Little, GeomView::MultiPoint(self@)));
                }
                Ok(())
            },
        }
    }

    /// Decode exactly this kind from a tagged WKB body starting at the
    /// beginning of `b`. A known but different type code is a `WrongType`
    /// error; an unknown one is `UnsupportedGeometryType`.
    pub fn read_from_wkb(b: &Vec<u8>) -> (r: Result<GPKGMultiPoint, Error>)
        ensures
            (match (r, parse_geom_expect(b@, 0, 4, GEOM_NESTING_LIMIT as int)) {
                (Ok(v), Ok((gv, _))) => gv == GeomView::MultiPoint(v@),
                (Err(e1), Err(e2)) => e1 == e2,
                _ => false,
            }),
    {
        match read_tagged_expect(b, 0, 4, GEOM_NESTING_LIMIT) {
            Err(er) => Err(er),
            Ok((g, _)) => match g {
                GPKGGeometry::MultiPoint(v) => Ok(v),
                _ => {
                    proof {
                        assert(false);
                    }
                    Err(Error::WrongType)
                },
            },
        }
    }

    /// Encode as a whole GeoPackage blob with SRS id 4326, the writer's
    /// fixed policy.
    pub fn to_wkb(&self) -> (r: Result<Vec<u8>, Error>)
        ensures
            r is Ok <==> wf_geom(GeomView::MultiPoint(self@)),
            r is Ok ==> r->Ok_0@ == spec_encode(GeomView::MultiPoint(self@), 4326),
            r is Err ==> r == Err::<Vec<u8>, Error>(Error::GeomEncodeError),
    {
        let mut w: Vec<u8> = Vec::new();
        write_header(&mut w, 4326);
        match self.write_as_wkb(&mut w) {
            Err(er) => Err(er),
            Ok(()) => {
                proof {
                    assert(w@ =~= spec_encode(GeomView::MultiPoint(self@), 4326));
                }
                Ok(w)
            },
        }
    }

    /// Decode exactly this kind from a whole GeoPackage blob.
    pub fn from_wkb(b: &Vec<u8>) -> (r: Result<GPKGMultiPoint, Error>)
        ensures
            (match (r, spec_decode_expect(b@, 4, GEOM_NESTING_LIMIT as int)) {
                (Ok(v), Ok(gv)) => gv == GeomView::MultiPoint(v@),
                (Err(e1), Err(e2)) => e1 == e2,
                _ => false,
            }),
    {
        match decode_expect(b, 4) {
            Err(er) => Err(er),
            Ok(g) => match g {
                GPKGGeometry::MultiPoint(v) => Ok(v),
                _ => {
                    proof {
                        assert(false);
                    }
                    Err(Error::WrongType)
                },
            },
        }
    }
}

impl GPKGMultiLineString {
    /// Append this geometry's tagged WKB body: little-endian marker, type
    /// code 5, then the payload. On an error the buffer may be left
    /// holding a partial prefix, as a failed write to any sink would.
    pub fn write_as_wkb(&self, w: &mut Vec<u8>) -> (r: Result<(), Error>)
        ensures
            r is Ok <==> wf_geom(GeomView::MultiLineString(self@)),
            r is Ok ==> final(w)@ == old(w)@ + ser_geom(Endian::Little, GeomView::MultiLineString(self@)),
            r is Err ==> r == Err::<(), Error>(Error::GeomEncodeError),
    {
        w.push(1u8);
        push_u32_le(w, 5);
        match write_ring_list(w, &self.0) {
            Err(er) => Err(er),
            Ok(()) => {
                proof {
                    assert(w@ =~= old(w)@ + ser_geom(Endian::Little, GeomView::MultiLineString(self@)));
                }
                Ok(())
            },
        }
    }

    /// Decode exactly this kind from a tagged WKB body starting at the
    /// beginning of `b`. A known but different type code is a `WrongType`
    /// error; an unknown one is `UnsupportedGeometryType`.
    pub fn read_from_wkb(b: &Vec<u8>) -> (r: Result<GPKGMultiLineString, Error>)
        ensures
            (match (r, parse_geom_expect(b@, 0, 5, GEOM_NESTING_LIMIT as int)) {
                (Ok(v), Ok((gv, _))) => gv == GeomView::MultiLineString(v@),
                (Err(e1), Err(e2)) => e1 == e2,
                _ => false,
            }),
    {
        match read_tagged_expect(b, 0, 5, GEOM_NESTING_LIMIT) {
            Err(er) => Err(er),
            Ok((g, _)) => match g {
                GPKGGeometry::MultiLineString(v) => Ok(v),
                _ => {
                    proof {
                        assert(false);
                    }
                    Err(Error::WrongType)
                },
            },
        }
    }

    /// Encode as a whole GeoPackage blob with SRS id 4326, the writer's
    /// fixed policy.
    pub fn to_wkb(&self) -> (r: Result<Vec<u8>, Error>)
        ensures
            r is Ok <==> wf_geom(GeomView::MultiLineString(self@)),
            r is Ok ==> r->Ok_0@ == spec_encode(GeomView::MultiLineString(self@), 4326),
            r is Err ==> r == Err::<Vec<u8>, Error>(Error::GeomEncodeError),
    {
        let mut w: Vec<u8> = Vec::new();
        write_header(&mut w, 4326);
        match self.write_as_wkb(&mut w) {
            Err(er) => Err(er),
            Ok(()) => {
                proof {
                    assert(w@ =~= spec_encode(GeomView::MultiLineString(self@), 4326));
                }
                Ok(w)
            },
        }
    }

    /// Decode exactly this kind from a whole GeoPackage blob.
    pub fn from_wkb(b: &Vec<u8>) -> (r: Result<GPKGMultiLineString, Error>)
        ensures
            (match (r, spec_decode_expect(b@, 5, GEOM_NESTING_LIMIT as int)) {
                (Ok(v), Ok(gv)) => gv == GeomView::MultiLineString(v@),
                (Err(e1), Err(e2)) => e1 == e2,
                _ => false,
            }),
    {
        match decode_expect(b, 5) {
            Err(er) => Err(er),
            Ok(g) => match g {
                GPKGGeometry::MultiLineString(v) => Ok(v),
                _ => {
                    proof {
                        assert(false);
                    }
                    Err(Error::WrongType)
                },
            },
        }
    }
}

impl GPKGMultiPolygon {
    /// Append this geometry's tagged WKB body: little-endian marker, type
    /// code 6, then the payload. On an error the buffer may be left
    /// holding a partial prefix, as a failed write to any sink would.
    pub fn write_as_wkb(&self, w: &mut Vec<u8>) -> (r: Result<(), Error>)
        ensures
            r is Ok <==> wf_geom(GeomView::MultiPolygon(self@)),
            r is Ok ==> final(w)@ == old(w)@ + ser_geom(Endian::Little, GeomView::MultiPolygon(self@)),
            r is Err ==> r == Err::<(), Error>(Error::GeomEncodeError),
    {
        w.push(1u8);
        push_u32_le(w, 6);
        match write_polygon_list(w, &self.0) {
            Err(er) => Err(er),
            Ok(()) => {
                proof {
                    assert(w@ =~= old(w)@ + ser_geom(Endian::Little, GeomView::MultiPolygon(self@)));
                }
                Ok(())
            },
        }
    }

    /// Decode exactly this kind from a tagged WKB body starting at the
    /// beginning of `b`. A known but different type code is a `WrongType`
    /// error; an unknown one is `UnsupportedGeometryType`.
    pub fn read_from_wkb(b: &Vec<u8>) -> (r: Result<GPKGMultiPolygon, Error>)
        ensures
            (match (r, parse_geom_expect(b@, 0, 6, GEOM_NESTING_LIMIT as int)) {
                (Ok(v), Ok((gv, _))) => gv == GeomView::MultiPolygon(v@),
                (Err(e1), Err(e2)) => e1 == e2,
                _ => false,
            }),
    {
        match read_tagged_expect(b, 0, 6, GEOM_NESTING_LIMIT) {
            Err(er) => Err(er),
            Ok((g, _)) => match g {
                GPKGGeometry::MultiPolygon(v) => Ok(v),
                _ => {
                    proof {
                        assert(false);
                    }
                    Err(Error::WrongType)
                },
            },
        }
    }

    /// Encode as a whole GeoPackage blob with SRS id 4326, the writer's
    /// fixed policy.
    pub fn to_wkb(&self) -> (r: Result<Vec<u8>, Error>)
        ensures
            r is Ok <==> wf_geom(GeomView::MultiPolygon(self@)),
            r is Ok ==> r->Ok_0@ == spec_encode(GeomView::MultiPolygon(self@), 4326),
            r is Err ==> r == Err::<Vec<u8>, Error>(Error::GeomEncodeError),
    {
        let mut w: Vec<u8> = Vec::new();
        write_header(&mut w, 4326);
        match self.write_as_wkb(&mut w) {
            Err(er) => Err(er),
            Ok(()) => {
                proof {
                    assert(w@ =~= spec_encode(GeomView::MultiPolygon(self@), 4326));
                }
                Ok(w)
            },
        }
    }

    /// Decode exactly this kind from a whole GeoPackage blob.
    pub fn from_wkb(b: &Vec<u8>) -> (r: Result<GPKGMultiPolygon, Error>)
        ensures
            (match (r, spec_decode_expect(b@, 6, GEOM_NESTING_LIMIT as int)) {
                (Ok(v), Ok(gv)) => gv == GeomView::MultiPolygon(v@),
                (Err(e1), Err(e2)) => e1 == e2,
                _ => false,
            }),
    {
        match decode_expect(b, 6) {
            Err(er) => Err(er),
            Ok(g) => match g {
                GPKGGeometry::MultiPolygon(v) => Ok(v),
                _ => {
                    proof {
                        assert(false);
                    }
                    Err(Error::WrongType)
                },
            },
        }
    }
}

impl GPKGGeometryCollection {
    /// Append this geometry's tagged WKB body: little-endian marker, type
    /// code 7, then the payload. On an error the buffer may be left
    /// holding a partial prefix, as a failed write to any sink would.
    pub fn write_as_wkb(&self, w: &mut Vec<u8>) -> (r: Result<(), Error>)
        ensures
            r is Ok <==> wf_geom(GeomView::GeometryCollection(self@)),
            r is Ok ==> final(w)@ == old(w)@ + ser_geom(Endian::Little, GeomView::GeometryCollection(self@)),
            r is Err ==> r == Err::<(), Error>(Error::GeomEncodeError),
    {
        w.push(1u8);
        push_u32_le(w, 7);
        if self.0.len() > u32::MAX as usize {
            proof {
                lemma_gview_seq_len(self.0@);
            }
            return Err(Error::GeomEncodeError);
        }
        push_u32_le(w, self.0.len() as u32);
        proof {
            lemma_gview_seq_len(self.0@);
        }
        match write_geom_list(w, &self.0) {
            Err(er) => Err(er),
            Ok(()) => {
                proof {
                    assert(w@ =~= old(w)@ + ser_geom(
                        Endian::Little,
                        GeomView::GeometryCollection(self@),
                    ));
                }
                Ok(())
            },
        }
    }

    /// Decode exactly this kind from a tagged WKB body starting at the
    /// beginning of `b`. A known but different type code is a `WrongType`
    /// error; an unknown one is `UnsupportedGeometryType`.
    pub fn read_from_wkb(b: &Vec<u8>) -> (r: Result<GPKGGeometryCollection, Error>)
        ensures
            (match (r, parse_geom_expect(b@, 0, 7, GEOM_NESTING_LIMIT as int)) {
                (Ok(v), Ok((gv, _))) => gv == GeomView::GeometryCollection(v@),
                (Err(e1), Err(e2)) => e1 == e2,
                _ => false,
            }),
    {
        match read_tagged_expect(b, 0, 7, GEOM_NESTING_LIMIT) {
            Err(er) => Err(er),
            Ok((g, _)) => match g {
                GPKGGeometry::GeometryCollection(v) => Ok(v),
                _ => {
                    proof {
                        assert(false);
                    }
                    Err(Error::WrongType)
                },
            },
        }
    }

    /// Encode as a whole GeoPackage blob with SRS id 4326, the writer's
    /// fixed policy.
    pub fn to_wkb(&self) -> (r: Result<Vec<u8>, Error>)
        ensures
            r is Ok <==> wf_geom(GeomView::GeometryCollection(self@)),
            r is Ok ==> r->Ok_0@ == spec_encode(GeomView::GeometryCollection(self@), 4326),
            r is Err ==> r == Err::<Vec<u8>, Error>(Error::GeomEncodeError),
    {
        let mut w: Vec<u8> = Vec::new();
        write_header(&mut w, 4326);
        match self.write_as_wkb(&mut w) {
            Err(er) => Err(er),
            Ok(()) => {
                proof {
                    assert(w@ =~= spec_encode(GeomView::GeometryCollection(self@), 4326));
                }
                Ok(w)
            },
        }
    }

    /// Decode exactly this kind from a whole GeoPackage blob.
    pub fn from_wkb(b: &Vec<u8>) -> (r: Result<GPKGGeometryCollection, Error>)
        ensures
            (match (r, spec_decode_expect(b@, 7, GEOM_NESTING_LIMIT as int)) {
                (Ok(v), Ok(gv)) => gv == GeomView::GeometryCollection(v@),
                (Err(e1), Err(e2)) => e1 == e2,
                _ => false,
            }),
    {
        match decode_expect(b, 7) {
            Err(er) => Err(er),
            Ok(g) => match g {
                GPKGGeometry::GeometryCollection(v) => Ok(v),
                _ => {
                    proof {
                        assert(false);
                    }
                    Err(Error::WrongType)
                },
            },
        }
    }
}

impl GPKGPointZ {
    /// Append this geometry's tagged WKB body: little-endian marker, type
    /// code 1001, then the payload. On an error the buffer may be left
    /// holding a partial prefix, as a failed write to any sink would.
    pub fn write_as_wkb(&self, w: &mut Vec<u8>) -> (r: Result<(), Error>)
        ensures
            r is Ok <==> wf_geom(GeomView::PointZ(*self)),
            r is Ok ==> final(w)@ == old(w)@ + ser_geom(Endian::Little, GeomView::PointZ(*self)),
            r is Err ==> r == Err::<(), Error>(Error::GeomEncodeError),
    {
        w.push(1u8);
        push_u32_le(w, 1001);
        write_coord_z(w, *self);
        proof {
            assert(w@ =~= old(w)@ + ser_geom(Endian::Little, GeomView::PointZ(*self)));
        }
        Ok(())
    }

    /// Decode exactly this kind from a tagged WKB body starting at the
    /// beginning of `b`. A known but different type code is a `WrongType`
    /// error; an unknown one is `UnsupportedGeometryType`.
    pub fn read_from_wkb(b: &Vec<u8>) -> (r: Result<GPKGPointZ, Error>)
        ensures
            (match (r, parse_geom_expect(b@, 0, 1001, GEOM_NESTING_LIMIT as int)) {
                (Ok(v), Ok((gv, _))) => gv == GeomView::PointZ(v),
                (Err(e1), Err(e2)) => e1 == e2,
                _ => false,
            }),
    {
        match read_tagged_expect(b, 0, 1001, GEOM_NESTING_LIMIT) {
            Err(er) => Err(er),
            Ok((g, _)) => match g {
                GPKGGeometry::PointZ(v) => Ok(v),
                _ => {
                    proof {
                        assert(false);
                    }
                    Err(Error::WrongType)
                },
            },
        }
    }

    /// Encode as a whole GeoPackage blob with SRS id 4326, the writer's
    /// fixed policy.
    pub fn to_wkb(&self) -> (r: Result<Vec<u8>, Error>)
        ensures
            r is Ok <==> wf_geom(GeomView::PointZ(*self)),
            r is Ok ==> r->Ok_0@ == spec_encode(GeomView::PointZ(*self), 4326),
            r is Err ==> r == Err::<Vec<u8>, Error>(Error::GeomEncodeError),
    {
        let mut w: Vec<u8> = Vec::new();
        write_header(&mut w, 4326);
        match self.write_as_wkb(&mut w) {
            Err(er) => Err(er),
            Ok(()) => {
                proof {
                    assert(w@ =~= spec_encode(GeomView::PointZ(*self), 4326));
                }
                Ok(w)
            },
        }
    }

    /// Decode exactly this kind from a whole GeoPackage blob.
    pub fn from_wkb(b: &Vec<u8>) -> (r: Result<GPKGPointZ, Error>)
        ensures
            (match (r, spec_decode_expect(b@, 1001, GEOM_NESTING_LIMIT as int)) {
                (Ok(v), Ok(gv)) => gv == GeomView::PointZ(v),
                (Err(e1), Err(e2)) => e1 == e2,
                _ => false,
            }),
    {
        match decode_expect(b, 1001) {
            Err(er) => Err(er),
            Ok(g) => match g {
                GPKGGeometry::PointZ(v) => Ok(v),
                _ => {
                    proof {
                        assert(false);
                    }
                    Err(Error::WrongType)
                },
            },
        }
    }
}

impl GPKGLineStringZ {
    /// Append this geometry's tagged WKB body: little-endian marker, type
    /// code 1002, then the payload. On an error the buffer may be left
    /// holding a partial prefix, as a failed write to any sink would.
    pub fn write_as_wkb(&self, w: &mut Vec<u8>) -> (r: Result<(), Error>)
        ensures
            r is Ok <==> wf_geom(GeomView::LineStringZ(self@)),
            r is Ok ==> final(w)@ == old(w)@ + ser_geom(Endian::Little, GeomView::LineStringZ(self@)),
            r is Err ==> r == Err::<(), Error>(Error::GeomEncodeError),
    {
        w.push(1u8);
        push_u32_le(w, 1002);
        match write_coord_list_z(w, &self.0) {
            Err(er) => Err(er),
            Ok(()) => {
                proof {
                    assert(w@ =~= old(w)@ + ser_geom(Endian::Little, GeomView::LineStringZ(self@)));
                }
                Ok(())
            },
        }
    }

    /// Decode exactly this kind from a tagged WKB body starting at the
    /// beginning of `b`. A known but different type code is a `WrongType`
    /// error; an unknown one is `UnsupportedGeometryType`.
    pub fn read_from_wkb(b: &Vec<u8>) -> (r: Result<GPKGLineStringZ, Error>)
        ensures
            (match (r, parse_geom_expect(b@, 0, 1002, GEOM_NESTING_LIMIT as int)) {
                (Ok(v), Ok((gv, _))) => gv == GeomView::LineStringZ(v@),
                (Err(e1), Err(e2)) => e1 == e2,
                _ => false,
            }),
    {
        match read_tagged_expect(b, 0, 1002, GEOM_NESTING_LIMIT) {
            Err(er) => Err(er),
            Ok((g, _)) => match g {
                GPKGGeometry::LineStringZ(v) => Ok(v),
                _ => {
                    proof {
                        assert(false);
                    }
                    Err(Error::WrongType)
                },
            },
        }
    }

    /// Encode as a whole GeoPackage blob with SRS id 4326, the writer's
    /// fixed policy.
    pub fn to_wkb(&self) -> (r: Result<Vec<u8>, Error>)
        ensures
            r is Ok <==> wf_geom(GeomView::LineStringZ(self@)),
            r is Ok ==> r->Ok_0@ == spec_encode(GeomView::LineStringZ(self@), 4326),
            r is Err ==> r == Err::<Vec<u8>, Error>(Error::GeomEncodeError),
    {
        let mut w: Vec<u8> = Vec::new();
        write_header(&mut w, 4326);
        match self.write_as_wkb(&mut w) {
            Err(er) => Err(er),
            Ok(()) => {
                proof {
                    assert(w@ =~= spec_encode(GeomView::LineStringZ(self@), 4326));
                }
                Ok(w)
            },
        }
    }

    /// Decode exactly this kind from a whole GeoPackage blob.
    pub fn from_wkb(b: &Vec<u8>) -> (r: Result<GPKGLineStringZ, Error>)
        ensures
            (match (r, spec_decode_expect(b@, 1002, GEOM_NESTING_LIMIT as int)) {
                (Ok(v), Ok(gv)) => gv == GeomView::LineStringZ(v@),
                (Err(e1), Err(e2)) => e1 == e2,
                _ => false,
            }),
    {
        match decode_expect(b, 1002) {
            Err(er) => Err(er),
            Ok(g) => match g {
                GPKGGeometry::LineStringZ(v) => Ok(v),
                _ => {
                    proof {
                        assert(false);
                    }
                    Err(Error::WrongType)
                },
            },
        }
    }
}

impl GPKGGeometry {
    /// Append this geometry's tagged WKB body. On an error the buffer may
    /// be left holding a partial prefix, as a failed write to any sink
    /// would.
    pub fn write_as_wkb(&self, w: &mut Vec<u8>) -> (r: Result<(), Error>)
        ensures
            r is Ok <==> wf_geom(self@),
            r is Ok ==> final(w)@ == old(w)@ + ser_geom(Endian::Little, self@),
            r is Err ==> r == Err::<(), Error>(Error::GeomEncodeError),
    {
        write_tagged_geom(w, self)
    }

    /// Decode a tagged WKB body of any supported kind, starting at the
    /// beginning of `b`.
    pub fn read_from_wkb(b: &Vec<u8>) -> (r: Result<GPKGGeometry, Error>)
        ensures
            (match (r, parse_geom(b@, 0, GEOM_NESTING_LIMIT as int)) {
                (Ok(g), Ok((gv, _))) => g@ == gv,
                (Err(e1), Err(e2)) => e1 == e2,
                _ => false,
            }),
    {
        match read_tagged_geom(b, 0, GEOM_NESTING_LIMIT) {
            Err(er) => Err(er),
            Ok((g, _)) => Ok(g),
        }
    }

    /// Encode as a whole GeoPackage blob with SRS id 4326.
    pub fn to_wkb(&self) -> (r: Result<Vec<u8>, Error>)
        ensures
            r is Ok <==> wf_geom(self@),
            r is Ok ==> r->Ok_0@ == spec_encode(self@, 4326),
            r is Err ==> r == Err::<Vec<u8>, Error>(Error::GeomEncodeError),
    {
        encode(self, 4326)
    }

    /// Decode a whole GeoPackage blob into a geometry of any supported kind.
    pub fn from_wkb(b: &Vec<u8>) -> (r: Result<GPKGGeometry, Error>)
        ensures
            (match (r, spec_decode(b@, GEOM_NESTING_LIMIT as int)) {
                (Ok(g), Ok(gv)) => g@ == gv,
                (Err(e1), Err(e2)) => e1 == e2,
                _ => false,
            }),
    {
        decode(b)
    }
}

} // verus!
