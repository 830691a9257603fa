//! Whole-blob scenarios: exact header bytes, round trips for every kind,
//! envelope skipping, and each error kind of the decoder.
use gpkg::{
    decode, decode_header, decode_with_limit, encode, Error, GPKGGeometry, GPKGGeometryCollection, GPKGLineString,
    GPKGLineStringZ, GPKGMultiLineString, GPKGMultiPoint, GPKGMultiPolygon, GPKGPoint, GPKGPointZ,
    GPKGPolygon,
};

fn coord(x: f64, y: f64) -> GPKGPoint {
    GPKGPoint { x: x.to_bits(), y: y.to_bits() }
}

fn push_f64_le(buf: &mut Vec<u8>, v: f64) {
    buf.extend_from_slice(&v.to_le_bytes());
}

fn push_f64_be(buf: &mut Vec<u8>, v: f64) {
    buf.extend_from_slice(&v.to_be_bytes());
}

/// Header bytes for a point blob with SRS 4326: magic "GP", version 0,
/// little-endian flags with no envelope, the SRS id, then the body.
#[test]
fn point_blob_exact_bytes() {
    let p = coord(-105.0, 40.0);
    let blob = encode(&GPKGGeometry::Point(p), 4326).unwrap();

    let mut expected = vec![0x47u8, 0x50, 0x00, 0x01];
    expected.extend_from_slice(&[0xE6, 0x10, 0x00, 0x00]);
    expected.extend_from_slice(&[0x01, 0x01, 0x00, 0x00, 0x00]);
    push_f64_le(&mut expected, -105.0);
    push_f64_le(&mut expected, 40.0);

    assert_eq!(blob, expected);
}

#[test]
fn point_blob_round_trip() {
    let p = coord(-105.0, 40.0);
    let blob = encode(&GPKGGeometry::Point(p), 4326).unwrap();
    assert_eq!(decode(&blob).unwrap(), GPKGGeometry::Point(p));
}

/// A LineString of 3 points round-trips through encode/decode and matches a
/// hand-built blob.
#[test]
fn linestring_blob_round_trip() {
    let ls = GPKGLineString(vec![coord(-105.0, 40.0), coord(-106.0, 41.5), coord(-107.0, 43.0)]);
    let blob = ls.to_wkb().unwrap();

    let mut manual = vec![0x47u8, 0x50, 0x00, 0x01, 0xE6, 0x10, 0x00, 0x00];
    manual.extend_from_slice(&[0x01, 0x02, 0x00, 0x00, 0x00]);
    manual.extend_from_slice(&[0x03, 0x00, 0x00, 0x00]);
    push_f64_le(&mut manual, -105.0);
    push_f64_le(&mut manual, 40.0);
    push_f64_le(&mut manual, -106.0);
    push_f64_le(&mut manual, 41.5);
    push_f64_le(&mut manual, -107.0);
    push_f64_le(&mut manual, 43.0);
    assert_eq!(blob, manual);

    let back = GPKGLineString::from_wkb(&blob).unwrap();
    assert_eq!(back, ls);
}

/// A polygon with one exterior ring (5 points) and one interior ring
/// (4 points) round-trips, and its ring count field holds 2.
#[test]
fn polygon_blob_round_trip() {
    let poly = GPKGPolygon {
        exterior: GPKGLineString(vec![
            coord(-105.0, 40.0),
            coord(-106.0, 41.5),
            coord(-107.0, 43.0),
            coord(-107.0, 40.0),
            coord(-105.0, 40.0),
        ]),
        interiors: vec![GPKGLineString(vec![
            coord(-105.5, 40.0),
            coord(-106.0, 41.0),
            coord(-107.0, 42.0),
            coord(-105.5, 40.0),
        ])],
    };
    let blob = poly.to_wkb().unwrap();

    // ring count: header (8) + marker (1) + type code (4), little-endian u32
    assert_eq!(&blob[13..17], &[0x02, 0x00, 0x00, 0x00]);

    let back = GPKGPolygon::from_wkb(&blob).unwrap();
    assert_eq!(back, poly);
}

/// A MultiPolygon of two polygons, one without and one with an interior
/// ring, round-trips with the per-polygon ring counts kept.
#[test]
fn multipolygon_blob_round_trip() {
    let poly1 = GPKGPolygon {
        exterior: GPKGLineString(vec![
            coord(-105.0, 40.0),
            coord(-106.0, 43.5),
            coord(-107.0, 41.0),
            coord(-105.0, 40.0),
        ]),
        interiors: vec![],
    };
    let poly2 = GPKGPolygon {
        exterior: GPKGLineString(vec![
            coord(-15.0, 4.0),
            coord(16.0, 4.5),
            coord(-1.0, 10.0),
            coord(-10.0, 10.0),
            coord(-15.0, 4.0),
        ]),
        interiors: vec![GPKGLineString(vec![
            coord(-1.53, 4.999),
            coord(1.609, 5.67),
            coord(-2.345, 6.2),
            coord(-1.53, 4.999),
        ])],
    };
    let mp = GPKGMultiPolygon(vec![poly1, poly2]);
    let blob = mp.to_wkb().unwrap();
    let back = GPKGMultiPolygon::from_wkb(&blob).unwrap();
    assert_eq!(back.0[0].interiors.len(), 0);
    assert_eq!(back.0[1].interiors.len(), 1);
    assert_eq!(back, mp);
}

#[test]
fn multipoint_blob_round_trip() {
    let mp = GPKGMultiPoint(vec![coord(1.0, 1.0), coord(3.0, 3.0), coord(5.0, 5.0)]);
    let blob = mp.to_wkb().unwrap();
    assert_eq!(GPKGMultiPoint::from_wkb(&blob).unwrap(), mp);
}

#[test]
fn multilinestring_blob_round_trip() {
    let mls = GPKGMultiLineString(vec![
        GPKGLineString(vec![coord(-105.0, 40.0), coord(-106.0, 41.5)]),
        GPKGLineString(vec![coord(-15.0, 4.0), coord(-16.0, 4.5)]),
    ]);
    let blob = mls.to_wkb().unwrap();
    assert_eq!(GPKGMultiLineString::from_wkb(&blob).unwrap(), mls);
}

#[test]
fn point_z_blob_round_trip() {
    let p = GPKGPointZ { x: 40.0f64.to_bits(), y: (-105.0f64).to_bits(), z: 5280.0f64.to_bits() };
    let blob = p.to_wkb().unwrap();

    // type code 1001 = 0x3E9, little-endian, after the marker
    assert_eq!(&blob[9..13], &[0xE9, 0x03, 0x00, 0x00]);
    assert_eq!(GPKGPointZ::from_wkb(&blob).unwrap(), p);
}

#[test]
fn linestring_z_blob_round_trip() {
    let lz = GPKGLineStringZ(vec![
        GPKGPointZ { x: 40.0f64.to_bits(), y: (-105.0f64).to_bits(), z: 5280.0f64.to_bits() },
        GPKGPointZ { x: 41.0f64.to_bits(), y: (-106.0f64).to_bits(), z: 5280.0f64.to_bits() },
    ]);
    let blob = lz.to_wkb().unwrap();

    // type code 1002 = 0x3EA, little-endian, after the marker
    assert_eq!(&blob[9..13], &[0xEA, 0x03, 0x00, 0x00]);
    assert_eq!(GPKGLineStringZ::from_wkb(&blob).unwrap(), lz);
}

/// A collection is written count-prefixed, with fully tagged members.
#[test]
fn geometry_collection_blob_round_trip() {
    let gc = GPKGGeometryCollection(vec![
        GPKGGeometry::Point(coord(1.0, 2.0)),
        GPKGGeometry::LineString(GPKGLineString(vec![coord(3.0, 4.0), coord(5.0, 6.0)])),
    ]);
    let blob = gc.to_wkb().unwrap();

    // marker, type code 7, then the member count
    assert_eq!(&blob[8..17], &[0x01, 0x07, 0x00, 0x00, 0x00, 0x02, 0x00, 0x00, 0x00]);
    // the first member is itself tagged: marker and type code 1
    assert_eq!(&blob[17..22], &[0x01, 0x01, 0x00, 0x00, 0x00]);

    let back = GPKGGeometryCollection::from_wkb(&blob).unwrap();
    assert_eq!(back, gc);
}

/// The count-prefixed collection framing matches the ISO WKB encoding of
/// GEOMETRYCOLLECTION(POINT(4 6), LINESTRING(4 6, 7 10)).
#[test]
fn collection_framing_matches_iso_wkb() {
    let mut body = vec![0x01u8, 0x07, 0x00, 0x00, 0x00, 0x02, 0x00, 0x00, 0x00];
    body.extend_from_slice(&[0x01, 0x01, 0x00, 0x00, 0x00]);
    push_f64_le(&mut body, 4.0);
    push_f64_le(&mut body, 6.0);
    body.extend_from_slice(&[0x01, 0x02, 0x00, 0x00, 0x00, 0x02, 0x00, 0x00, 0x00]);
    push_f64_le(&mut body, 4.0);
    push_f64_le(&mut body, 6.0);
    push_f64_le(&mut body, 7.0);
    push_f64_le(&mut body, 10.0);

    let expected = GPKGGeometryCollection(vec![
        GPKGGeometry::Point(coord(4.0, 6.0)),
        GPKGGeometry::LineString(GPKGLineString(vec![coord(4.0, 6.0), coord(7.0, 10.0)])),
    ]);
    assert_eq!(GPKGGeometryCollection::read_from_wkb(&body).unwrap(), expected);

    let mut written = Vec::new();
    expected.write_as_wkb(&mut written).unwrap();
    assert_eq!(written, body);
}

#[test]
fn nested_collection_round_trip() {
    let inner = GPKGGeometryCollection(vec![GPKGGeometry::Point(coord(7.0, 8.0))]);
    let outer = GPKGGeometryCollection(vec![
        GPKGGeometry::GeometryCollection(inner),
        GPKGGeometry::Point(coord(9.0, 10.0)),
    ]);
    let blob = outer.to_wkb().unwrap();
    assert_eq!(GPKGGeometryCollection::from_wkb(&blob).unwrap(), outer);
}

#[test]
fn empty_geometries_round_trip() {
    let ls = GPKGLineString(vec![]);
    assert_eq!(GPKGLineString::from_wkb(&ls.to_wkb().unwrap()).unwrap(), ls);

    let mp = GPKGMultiPoint(vec![]);
    assert_eq!(GPKGMultiPoint::from_wkb(&mp.to_wkb().unwrap()).unwrap(), mp);

    let gc = GPKGGeometryCollection(vec![]);
    assert_eq!(GPKGGeometryCollection::from_wkb(&gc.to_wkb().unwrap()).unwrap(), gc);
}

/// A polygon-coded blob read through the point-typed entry point is a
/// wrong-type error, not a silently wrong point.
#[test]
fn polygon_through_point_entry_is_wrong_type() {
    let poly = GPKGPolygon {
        exterior: GPKGLineString(vec![
            coord(0.0, 0.0),
            coord(1.0, 0.0),
            coord(0.0, 1.0),
            coord(0.0, 0.0),
        ]),
        interiors: vec![],
    };
    let blob = poly.to_wkb().unwrap();
    assert_eq!(GPKGPoint::from_wkb(&blob), Err(Error::WrongType));
}

/// A blob whose body carries type code 99 is an unsupported geometry type,
/// through the polymorphic and the typed entry points alike.
#[test]
fn unknown_type_code_rejected() {
    let mut blob = vec![0x47u8, 0x50, 0x00, 0x01, 0xE6, 0x10, 0x00, 0x00];
    blob.push(0x01);
    blob.extend_from_slice(&99u32.to_le_bytes());
    push_f64_le(&mut blob, 1.0);
    push_f64_le(&mut blob, 2.0);

    assert_eq!(decode(&blob), Err(Error::UnsupportedGeometryType));
    assert_eq!(GPKGPoint::from_wkb(&blob), Err(Error::UnsupportedGeometryType));
}

/// A header declaring envelope code 2 (48 bytes) is skipped: the body
/// decodes the same whatever the envelope bytes hold.
#[test]
fn envelope_bytes_are_skipped() {
    let p = coord(-105.0, 40.0);
    for filler in [0x00u8, 0xAB] {
        let mut blob = vec![0x47u8, 0x50, 0x00, 0x05, 0xE6, 0x10, 0x00, 0x00];
        blob.extend_from_slice(&[filler; 48]);
        blob.extend_from_slice(&[0x01, 0x01, 0x00, 0x00, 0x00]);
        push_f64_le(&mut blob, -105.0);
        push_f64_le(&mut blob, 40.0);
        assert_eq!(decode(&blob).unwrap(), GPKGGeometry::Point(p));
    }
}

/// A big-endian body with a big-endian header decodes to the same geometry
/// as the little-endian encoding.
#[test]
fn big_endian_blob_decodes() {
    let p = coord(-105.0, 40.0);

    let mut blob = vec![0x47u8, 0x50, 0x00, 0x00];
    blob.extend_from_slice(&4326i32.to_be_bytes());
    blob.push(0x00);
    blob.extend_from_slice(&1u32.to_be_bytes());
    push_f64_be(&mut blob, -105.0);
    push_f64_be(&mut blob, 40.0);

    let (flags, srs, off) = decode_header(&blob).unwrap();
    assert!(!flags.little_endian);
    assert_eq!(srs, 4326);
    assert_eq!(off, 8);
    assert_eq!(decode(&blob).unwrap(), GPKGGeometry::Point(p));
}

#[test]
fn header_with_xy_envelope_offsets_body() {
    let mut blob = vec![0x47u8, 0x50, 0x00, 0x03, 0xE6, 0x10, 0x00, 0x00];
    blob.extend_from_slice(&[0u8; 40]);
    let (_flags, srs, off) = decode_header(&blob).unwrap();
    assert_eq!(srs, 4326);
    assert_eq!(off, 40);
}

#[test]
fn short_buffer_is_malformed_header() {
    let blob = vec![0x47u8, 0x50, 0x00, 0x01, 0xE6];
    assert_eq!(decode(&blob), Err(Error::MalformedHeader));
}

/// Envelope code 5 in the flags byte is outside 0..=4 and rejected.
#[test]
fn invalid_envelope_code_is_malformed_header() {
    let mut blob = vec![0x47u8, 0x50, 0x00, 0x0B, 0xE6, 0x10, 0x00, 0x00];
    blob.extend_from_slice(&[0x01, 0x01, 0x00, 0x00, 0x00]);
    push_f64_le(&mut blob, 1.0);
    push_f64_le(&mut blob, 2.0);
    assert_eq!(decode(&blob), Err(Error::MalformedHeader));
}

#[test]
fn invalid_byte_order_marker_rejected() {
    let mut blob = vec![0x47u8, 0x50, 0x00, 0x01, 0xE6, 0x10, 0x00, 0x00];
    blob.push(0x02);
    blob.extend_from_slice(&1u32.to_le_bytes());
    push_f64_le(&mut blob, 1.0);
    push_f64_le(&mut blob, 2.0);
    assert_eq!(decode(&blob), Err(Error::GeomDecodeError));
}

/// A declared count whose data is missing is a truncation error.
#[test]
fn truncated_body_rejected() {
    let mut blob = vec![0x47u8, 0x50, 0x00, 0x01, 0xE6, 0x10, 0x00, 0x00];
    blob.extend_from_slice(&[0x01, 0x02, 0x00, 0x00, 0x00]);
    blob.extend_from_slice(&3u32.to_le_bytes());
    push_f64_le(&mut blob, -105.0);
    push_f64_le(&mut blob, 40.0);
    assert_eq!(decode(&blob), Err(Error::Truncated));
}

/// A polygon body claiming zero rings leaves no room for the exterior ring
/// the format requires.
#[test]
fn zero_ring_polygon_rejected() {
    let mut blob = vec![0x47u8, 0x50, 0x00, 0x01, 0xE6, 0x10, 0x00, 0x00];
    blob.extend_from_slice(&[0x01, 0x03, 0x00, 0x00, 0x00]);
    blob.extend_from_slice(&0u32.to_le_bytes());
    assert_eq!(decode(&blob), Err(Error::GeomDecodeError));
}

fn nested_collection_blob(levels: usize) -> Vec<u8> {
    let mut body: Vec<u8> = vec![0x01, 0x01, 0x00, 0x00, 0x00];
    push_f64_le(&mut body, 1.0);
    push_f64_le(&mut body, 2.0);
    for _ in 0..levels {
        let mut wrapped: Vec<u8> = vec![0x01, 0x07, 0x00, 0x00, 0x00, 0x01, 0x00, 0x00, 0x00];
        wrapped.extend_from_slice(&body);
        body = wrapped;
    }
    let mut blob = vec![0x47u8, 0x50, 0x00, 0x01, 0xE6, 0x10, 0x00, 0x00];
    blob.extend_from_slice(&body);
    blob
}

/// Collections nested within the limit decode; one level past it is a
/// distinct too-deep error instead of unbounded recursion.
#[test]
fn nesting_limit_enforced() {
    let ok_blob = nested_collection_blob(gpkg::GEOM_NESTING_LIMIT as usize - 1);
    assert!(decode(&ok_blob).is_ok());

    let deep_blob = nested_collection_blob(gpkg::GEOM_NESTING_LIMIT as usize);
    assert_eq!(decode(&deep_blob), Err(Error::TooDeep));
}

/// The nesting limit can be chosen per call.
#[test]
fn nesting_limit_is_configurable() {
    let shallow = nested_collection_blob(2);
    assert!(decode_with_limit(&shallow, 3).is_ok());
    assert_eq!(decode_with_limit(&shallow, 2), Err(Error::TooDeep));
    assert_eq!(decode_with_limit(&shallow, 0), Err(Error::TooDeep));
}
