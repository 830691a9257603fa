//! The laws of the codec.
//!
//! The workhorse is `lemma_parse_geom_ser`: wherever a buffer holds the
//! serialized bytes of a well-formed geometry, the parser reads back exactly
//! that geometry, in either byte order. From it follow the round-trip law,
//! the cross-endianness law, and the envelope-skip law.
use crate::byteio::{
    lemma_de_ser_u32, lemma_de_ser_u64, lemma_i32_bits_round_trip, ser_u32, ser_u64, Endian,
};
use crate::flags::{spec_envelope_length, spec_flags_from_byte, EnvelopeType, GPKGGeomFlags};
use crate::result::Error;
use crate::types::{
    gdepth, gdepth_seq, wf_coords, wf_coords_z, wf_geom, wf_geom_seq, wf_poly, GPKGPoint,
    GPKGPointZ, GeomView, PolyView,
};
use crate::wire::{
    parse_body_for_code, parse_coord, parse_coord_list, parse_coord_list_z, parse_coord_z,
    parse_coords, parse_coords_z, parse_geom, parse_geoms, parse_header, parse_polygon_bodies,
    parse_polygon_body, parse_rings, ser_coord, ser_coord_list, ser_coord_list_z, ser_coord_z,
    ser_coords, ser_coords_z, ser_geom, ser_geom_body, ser_geoms, ser_polygon_bodies,
    ser_polygon_body, ser_rings, spec_decode, spec_encode, spec_geom_code, spec_header_bytes,
    spec_marker_byte,
};
use vstd::prelude::*;

verus! {

/// A subrange equal to a concatenation splits into the two parts.
proof fn lemma_split_at(b: Seq<u8>, pos: int, x: Seq<u8>, y: Seq<u8>)
    requires
        0 <= pos,
        pos + x.len() + y.len() <= b.len(),
        b.subrange(pos, pos + x.len() + y.len()) == x + y,
    ensures
        b.subrange(pos, pos + x.len()) == x,
        b.subrange(pos + x.len(), pos + x.len() + y.len()) == y,
{
    let whole = b.subrange(pos, pos + x.len() + y.len());
    assert forall|i: int| 0 <= i < x.len() implies b.subrange(pos, pos + x.len())[i] == x[i] by {
        assert(whole[i] == (x + y)[i]);
    }
    assert(b.subrange(pos, pos + x.len()) =~= x);
    assert forall|i: int| 0 <= i < y.len() implies b.subrange(
        pos + x.len(),
        pos + x.len() + y.len(),
    )[i] == y[i] by {
        assert(whole[x.len() + i] == (x + y)[x.len() + i]);
    }
    assert(b.subrange(pos + x.len(), pos + x.len() + y.len()) =~= y);
}

/// A buffer holding the bytes of a coordinate parses back to it.
proof fn lemma_parse_coord_ser(b: Seq<u8>, pos: int, e: Endian, c: GPKGPoint)
    requires
        0 <= pos,
        pos + 16 <= b.len(),
        b.subrange(pos, pos + 16) == ser_coord(e, c),
    ensures
        parse_coord(b, pos, e) == Ok::<(GPKGPoint, int), Error>((c, pos + 16)),
{
    lemma_split_at(b, pos, ser_u64(e, c.x), ser_u64(e, c.y));
    lemma_de_ser_u64(e, b, pos, c.x);
    lemma_de_ser_u64(e, b, pos + 8, c.y);
}

/// A buffer holding the bytes of a coordinate triple parses back to it.
proof fn lemma_parse_coord_z_ser(b: Seq<u8>, pos: int, e: Endian, c: GPKGPointZ)
    requires
        0 <= pos,
        pos + 24 <= b.len(),
        b.subrange(pos, pos + 24) == ser_coord_z(e, c),
    ensures
        parse_coord_z(b, pos, e) == Ok::<(GPKGPointZ, int), Error>((c, pos + 24)),
{
    assert((ser_u64(e, c.x) + ser_u64(e, c.y)) + ser_u64(e, c.z) =~= ser_u64(e, c.x) + (ser_u64(
        e,
        c.y,
    ) + ser_u64(e, c.z)));
    lemma_split_at(b, pos, ser_u64(e, c.x), ser_u64(e, c.y) + ser_u64(e, c.z));
    lemma_split_at(b, pos + 8, ser_u64(e, c.y), ser_u64(e, c.z));
    lemma_de_ser_u64(e, b, pos, c.x);
    lemma_de_ser_u64(e, b, pos + 8, c.y);
    lemma_de_ser_u64(e, b, pos + 16, c.z);
}

/// A buffer holding the bytes of a coordinate run parses back to it.
proof fn lemma_parse_coords_ser(b: Seq<u8>, pos: int, e: Endian, s: Seq<GPKGPoint>)
    requires
        0 <= pos,
        pos + ser_coords(e, s).len() <= b.len(),
        b.subrange(pos, pos + ser_coords(e, s).len()) == ser_coords(e, s),
    ensures
        parse_coords(b, pos, e, s.len() as int) == Ok::<(Seq<GPKGPoint>, int), Error>(
            (s, pos + ser_coords(e, s).len()),
        ),
    decreases s.len(),
{
    if s.len() == 0 {
        assert(s =~= Seq::<GPKGPoint>::empty());
    } else {
        let rest = s.subrange(1, s.len() as int);
        lemma_split_at(b, pos, ser_coord(e, s[0]), ser_coords(e, rest));
        lemma_parse_coord_ser(b, pos, e, s[0]);
        lemma_parse_coords_ser(b, pos + 16, e, rest);
        assert(seq![s[0]] + rest =~= s);
    }
}

/// A buffer holding the bytes of a coordinate-triple run parses back to it.
proof fn lemma_parse_coords_z_ser(b: Seq<u8>, pos: int, e: Endian, s: Seq<GPKGPointZ>)
    requires
        0 <= pos,
        pos + ser_coords_z(e, s).len() <= b.len(),
        b.subrange(pos, pos + ser_coords_z(e, s).len()) == ser_coords_z(e, s),
    ensures
        parse_coords_z(b, pos, e, s.len() as int) == Ok::<(Seq<GPKGPointZ>, int), Error>(
            (s, pos + ser_coords_z(e, s).len()),
        ),
    decreases s.len(),
{
    if s.len() == 0 {
        assert(s =~= Seq::<GPKGPointZ>::empty());
    } else {
        let rest = s.subrange(1, s.len() as int);
        lemma_split_at(b, pos, ser_coord_z(e, s[0]), ser_coords_z(e, rest));
        lemma_parse_coord_z_ser(b, pos, e, s[0]);
        lemma_parse_coords_z_ser(b, pos + 24, e, rest);
        assert(seq![s[0]] + rest =~= s);
    }
}

/// A buffer holding a count-prefixed coordinate list parses back to it.
proof fn lemma_parse_coord_list_ser(b: Seq<u8>, pos: int, e: Endian, s: Seq<GPKGPoint>)
    requires
        wf_coords(s),
        0 <= pos,
        pos + ser_coord_list(e, s).len() <= b.len(),
        b.subrange(pos, pos + ser_coord_list(e, s).len()) == ser_coord_list(e, s),
    ensures
        parse_coord_list(b, pos, e) == Ok::<(Seq<GPKGPoint>, int), Error>(
            (s, pos + ser_coord_list(e, s).len()),
        ),
{
    lemma_split_at(b, pos, ser_u32(e, s.len() as u32), ser_coords(e, s));
    lemma_de_ser_u32(e, b, pos, s.len() as u32);
    lemma_parse_coords_ser(b, pos + 4, e, s);
}

/// A buffer holding a count-prefixed coordinate-triple list parses back to it.
proof fn lemma_parse_coord_list_z_ser(b: Seq<u8>, pos: int, e: Endian, s: Seq<GPKGPointZ>)
    requires
        wf_coords_z(s),
        0 <= pos,
        pos + ser_coord_list_z(e, s).len() <= b.len(),
        b.subrange(pos, pos + ser_coord_list_z(e, s).len()) == ser_coord_list_z(e, s),
    ensures
        parse_coord_list_z(b, pos, e) == Ok::<(Seq<GPKGPointZ>, int), Error>(
            (s, pos + ser_coord_list_z(e, s).len()),
        ),
{
    lemma_split_at(b, pos, ser_u32(e, s.len() as u32), ser_coords_z(e, s));
    lemma_de_ser_u32(e, b, pos, s.len() as u32);
    lemma_parse_coords_z_ser(b, pos + 4, e, s);
}

/// A buffer holding a run of untagged rings parses back to them.
proof fn lemma_parse_rings_ser(b: Seq<u8>, pos: int, e: Endian, s: Seq<Seq<GPKGPoint>>)
    requires
        forall|i: int| 0 <= i < s.len() ==> wf_coords(#[trigger] s[i]),
        0 <= pos,
        pos + ser_rings(e, s).len() <= b.len(),
        b.subrange(pos, pos + ser_rings(e, s).len()) == ser_rings(e, s),
    ensures
        parse_rings(b, pos, e, s.len() as int) == Ok::<(Seq<Seq<GPKGPoint>>, int), Error>(
            (s, pos + ser_rings(e, s).len()),
        ),
    decreases s.len(),
{
    if s.len() == 0 {
        assert(s =~= Seq::<Seq<GPKGPoint>>::empty());
    } else {
        let rest = s.subrange(1, s.len() as int);
        lemma_split_at(b, pos, ser_coord_list(e, s[0]), ser_rings(e, rest));
        lemma_parse_coord_list_ser(b, pos, e, s[0]);
        lemma_parse_rings_ser(b, pos + ser_coord_list(e, s[0]).len(), e, rest);
        assert(seq![s[0]] + rest =~= s);
    }
}

/// A buffer holding a polygon body parses back to the polygon.
proof fn lemma_parse_polygon_body_ser(b: Seq<u8>, pos: int, e: Endian, p: PolyView)
    requires
        wf_poly(p),
        0 <= pos,
        pos + ser_polygon_body(e, p).len() <= b.len(),
        b.subrange(pos, pos + ser_polygon_body(e, p).len()) == ser_polygon_body(e, p),
    ensures
        parse_polygon_body(b, pos, e) == Ok::<(PolyView, int), Error>(
            (p, pos + ser_polygon_body(e, p).len()),
        ),
{
    let cnt = ser_u32(e, (p.interiors.len() + 1) as u32);
    let ext = ser_coord_list(e, p.exterior);
    let ints = ser_rings(e, p.interiors);
    assert((cnt + ext) + ints =~= cnt + (ext + ints));
    lemma_split_at(b, pos, cnt, ext + ints);
    lemma_split_at(b, pos + 4, ext, ints);
    lemma_de_ser_u32(e, b, pos, (p.interiors.len() + 1) as u32);
    lemma_parse_coord_list_ser(b, pos + 4, e, p.exterior);
    lemma_parse_rings_ser(b, pos + 4 + ext.len(), e, p.interiors);
}

/// A buffer holding a run of untagged polygon bodies parses back to them.
proof fn lemma_parse_polygon_bodies_ser(b: Seq<u8>, pos: int, e: Endian, s: Seq<PolyView>)
    requires
        forall|i: int| 0 <= i < s.len() ==> wf_poly(#[trigger] s[i]),
        0 <= pos,
        pos + ser_polygon_bodies(e, s).len() <= b.len(),
        b.subrange(pos, pos + ser_polygon_bodies(e, s).len()) == ser_polygon_bodies(e, s),
    ensures
        parse_polygon_bodies(b, pos, e, s.len() as int) == Ok::<(Seq<PolyView>, int), Error>(
            (s, pos + ser_polygon_bodies(e, s).len()),
        ),
    decreases s.len(),
{
    if s.len() == 0 {
        assert(s =~= Seq::<PolyView>::empty());
    } else {
        let rest = s.subrange(1, s.len() as int);
        lemma_split_at(b, pos, ser_polygon_body(e, s[0]), ser_polygon_bodies(e, rest));
        lemma_parse_polygon_body_ser(b, pos, e, s[0]);
        lemma_parse_polygon_bodies_ser(b, pos + ser_polygon_body(e, s[0]).len(), e, rest);
        assert(seq![s[0]] + rest =~= s);
    }
}

/// A buffer holding the payload of a well-formed geometry parses back to
/// exactly that geometry under the geometry's own type code.
#[verifier::rlimit(100)]
#[verifier::spinoff_prover]
proof fn lemma_parse_body_ser(b: Seq<u8>, pos: int, e: Endian, g: GeomView, depth: int)
    requires
        wf_geom(g),
        gdepth(g) <= depth + 1,
        0 <= pos,
        pos + ser_geom_body(e, g).len() <= b.len(),
        b.subrange(pos, pos + ser_geom_body(e, g).len()) == ser_geom_body(e, g),
    ensures
        parse_body_for_code(b, pos, e, spec_geom_code(g), depth) == Ok::<(GeomView, int), Error>(
            (g, pos + ser_geom_body(e, g).len()),
        ),
    decreases g, 1int,
{
    match g {
        GeomView::Point(c) => {
            lemma_parse_coord_ser(b, pos, e, c);
        },
        GeomView::LineString(s) => {
            lemma_parse_coord_list_ser(b, pos, e, s);
        },
        GeomView::Polygon(p) => {
            lemma_parse_polygon_body_ser(b, pos, e, p);
        },
        GeomView::MultiPoint(s) => {
            lemma_parse_coord_list_ser(b, pos, e, s);
        },
        GeomView::MultiLineString(s) => {
            lemma_split_at(b, pos, ser_u32(e, s.len() as u32), ser_rings(e, s));
            lemma_de_ser_u32(e, b, pos, s.len() as u32);
            lemma_parse_rings_ser(b, pos + 4, e, s);
        },
        GeomView::MultiPolygon(s) => {
            lemma_split_at(b, pos, ser_u32(e, s.len() as u32), ser_polygon_bodies(e, s));
            lemma_de_ser_u32(e, b, pos, s.len() as u32);
            lemma_parse_polygon_bodies_ser(b, pos + 4, e, s);
        },
        GeomView::GeometryCollection(s) => {
            lemma_split_at(b, pos, ser_u32(e, s.len() as u32), ser_geoms(e, s));
            lemma_de_ser_u32(e, b, pos, s.len() as u32);
            lemma_parse_geoms_ser(b, pos + 4, e, s, depth);
        },
        GeomView::PointZ(c) => {
            lemma_parse_coord_z_ser(b, pos, e, c);
        },
        GeomView::LineStringZ(s) => {
            lemma_parse_coord_list_z_ser(b, pos, e, s);
        },
    }
}

/// The workhorse: a buffer holding the serialized bytes of a well-formed
/// geometry, in either byte order, parses back to exactly that geometry,
/// given a nesting budget at least its depth.
#[verifier::rlimit(50)]
#[verifier::spinoff_prover]
pub proof fn lemma_parse_geom_ser(b: Seq<u8>, pos: int, e: Endian, g: GeomView, depth: int)
    requires
        wf_geom(g),
        gdepth(g) <= depth,
        0 <= pos,
        pos + ser_geom(e, g).len() <= b.len(),
        b.subrange(pos, pos + ser_geom(e, g).len()) == ser_geom(e, g),
    ensures
        parse_geom(b, pos, depth) == Ok::<(GeomView, int), Error>((g, pos + ser_geom(e, g).len())),
    decreases g, 2int,
{
    let code = spec_geom_code(g);
    let body = ser_geom_body(e, g);
    let marker = seq![spec_marker_byte(e)];
    assert((marker + ser_u32(e, code)) + body =~= marker + (ser_u32(e, code) + body));
    lemma_split_at(b, pos, marker, ser_u32(e, code) + body);
    lemma_split_at(b, pos + 1, ser_u32(e, code), body);
    assert(b[pos] == marker[0]);
    lemma_de_ser_u32(e, b, pos + 1, code);
    lemma_parse_body_ser(b, pos + 5, e, g, depth - 1);
}

/// A buffer holding a run of tagged geometries parses back to them.
proof fn lemma_parse_geoms_ser(b: Seq<u8>, pos: int, e: Endian, s: Seq<GeomView>, depth: int)
    requires
        wf_geom_seq(s),
        gdepth_seq(s) <= depth,
        0 <= pos,
        pos + ser_geoms(e, s).len() <= b.len(),
        b.subrange(pos, pos + ser_geoms(e, s).len()) == ser_geoms(e, s),
    ensures
        parse_geoms(b, pos, s.len() as int, depth) == Ok::<(Seq<GeomView>, int), Error>(
            (s, pos + ser_geoms(e, s).len()),
        ),
    decreases s, 3int,
{
    if s.len() == 0 {
        assert(s =~= Seq::<GeomView>::empty());
    } else {
        let rest = s.subrange(1, s.len() as int);
        lemma_split_at(b, pos, ser_geom(e, s[0]), ser_geoms(e, rest));
        lemma_parse_geom_ser(b, pos, e, s[0], depth);
        lemma_parse_geoms_ser(b, pos + ser_geom(e, s[0]).len(), e, rest, depth);
        assert(seq![s[0]] + rest =~= s);
    }
}

/// Decoding the header this encoder writes gives back the flags it chose
/// (little-endian, no envelope) and the SRS id, with the body at offset 8,
/// whatever follows the header.
pub proof fn lemma_header_round_trip(srs_id: i32, tail: Seq<u8>)
    ensures
        parse_header(spec_header_bytes(srs_id) + tail) == Ok::<(GPKGGeomFlags, i32, int), Error>(
            (
                GPKGGeomFlags {
                    extended: false,
                    empty_geom: false,
                    little_endian: true,
                    envelope: EnvelopeType::Missing,
                },
                srs_id,
                8,
            ),
        ),
{
    let b = spec_header_bytes(srs_id) + tail;
    assert(((1u8 >> 1) & 0x7) == 0 && ((1u8 >> 5) & 1) == 0 && ((1u8 >> 4) & 1) == 0 && (1u8 & 1)
        == 1) by (bit_vector);
    assert(b[3] == 1u8);
    assert(b.subrange(4, 8) =~= ser_u32(Endian::Little, srs_id as u32));
    lemma_de_ser_u32(Endian::Little, b, 4, srs_id as u32);
    lemma_i32_bits_round_trip(srs_id);
}

/// Law: round trip. Decoding an encoded blob reconstructs the geometry
/// bit-exactly — same coordinate bit patterns, same point order, same ring
/// order — for every geometry whose element counts fit their 4-byte wire
/// fields and whose collections nest within the decoder's budget.
pub proof fn lemma_encode_decode_round_trip(g: GeomView, srs_id: i32)
    requires
        wf_geom(g),
        gdepth(g) <= crate::gpkg_wkb::GEOM_NESTING_LIMIT as int,
    ensures
        spec_decode(spec_encode(g, srs_id), crate::gpkg_wkb::GEOM_NESTING_LIMIT as int)
            == Ok::<GeomView, Error>(g),
{
    let b = spec_encode(g, srs_id);
    lemma_header_round_trip(srs_id, ser_geom(Endian::Little, g));
    assert(b.subrange(8, (8 + ser_geom(Endian::Little, g).len()) as int) =~= ser_geom(
        Endian::Little,
        g,
    ));
    lemma_parse_geom_ser(b, 8, Endian::Little, g, crate::gpkg_wkb::GEOM_NESTING_LIMIT as int);
}

/// Law: cross-endianness. A big-endian body and a little-endian body of the
/// same geometry both parse, to the same geometry.
pub proof fn lemma_cross_endianness(g: GeomView, depth: int)
    requires
        wf_geom(g),
        gdepth(g) <= depth,
    ensures
        parse_geom(ser_geom(Endian::Big, g), 0, depth) == Ok::<(GeomView, int), Error>(
            (g, ser_geom(Endian::Big, g).len() as int),
        ),
        parse_geom(ser_geom(Endian::Little, g), 0, depth) == Ok::<(GeomView, int), Error>(
            (g, ser_geom(Endian::Little, g).len() as int),
        ),
{
    let bb = ser_geom(Endian::Big, g);
    assert(bb.subrange(0, bb.len() as int) =~= bb);
    lemma_parse_geom_ser(bb, 0, Endian::Big, g, depth);
    let bl = ser_geom(Endian::Little, g);
    assert(bl.subrange(0, bl.len() as int) =~= bl);
    lemma_parse_geom_ser(bl, 0, Endian::Little, g, depth);
}

/// Law: envelope skip. A blob made of any 8-byte header with a valid flags
/// byte, an envelope's worth of filler bytes, and a serialized body decodes
/// to the body's geometry, whatever the filler holds and in either body
/// byte order.
pub proof fn lemma_envelope_skip(h: Seq<u8>, filler: Seq<u8>, e: Endian, g: GeomView, depth: int)
    requires
        h.len() == 8,
        spec_flags_from_byte(h[3]) is Ok,
        filler.len() == spec_envelope_length(spec_flags_from_byte(h[3])->Ok_0.envelope),
        wf_geom(g),
        gdepth(g) <= depth,
    ensures
        spec_decode(h + filler + ser_geom(e, g), depth) == Ok::<GeomView, Error>(g),
{
    let b = h + filler + ser_geom(e, g);
    assert(b[3] == h[3]);
    let off = 8 + filler.len() as int;
    assert(b.subrange(off, off + ser_geom(e, g).len()) =~= ser_geom(e, g));
    lemma_parse_geom_ser(b, off, e, g, depth);
}

} // verus!
