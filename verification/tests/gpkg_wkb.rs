//! WKB body writer/reader tests: each geometry kind is written and compared
//! against a hand-built byte buffer, then read back, in both byte orders.
use gpkg::{
    GPKGLineString, GPKGMultiLineString, GPKGMultiPoint, GPKGMultiPolygon, GPKGPoint, GPKGPolygon,
};
use std::iter::zip;

fn coord(x: f64, y: f64) -> GPKGPoint {
    GPKGPoint { x: x.to_bits(), y: y.to_bits() }
}

fn push_u32(buf: &mut Vec<u8>, v: u32, le: bool) {
    if le {
        buf.extend_from_slice(&v.to_le_bytes());
    } else {
        buf.extend_from_slice(&v.to_be_bytes());
    }
}

fn push_f64(buf: &mut Vec<u8>, v: f64, le: bool) {
    if le {
        buf.extend_from_slice(&v.to_le_bytes());
    } else {
        buf.extend_from_slice(&v.to_be_bytes());
    }
}

fn points_equal(p1: &GPKGPoint, p2: &GPKGPoint) -> bool {
    p1.x == p2.x && p1.y == p2.y
}

fn linestrings_equal(l1: &GPKGLineString, l2: &GPKGLineString) -> bool {
    if l1.0.len() != l2.0.len() {
        return false;
    }
    for (a, b) in zip(&l1.0, &l2.0) {
        if !points_equal(a, b) {
            return false;
        }
    }
    true
}

fn polygons_equal(p1: &GPKGPolygon, p2: &GPKGPolygon) -> bool {
    if !linestrings_equal(&p1.exterior, &p2.exterior) {
        return false;
    }
    if p1.interiors.len() != p2.interiors.len() {
        return false;
    }
    for (a, b) in zip(&p1.interiors, &p2.interiors) {
        if !linestrings_equal(a, b) {
            return false;
        }
    }
    true
}

fn write_test_point_buf(le: bool, endian_byte: u8) -> Vec<u8> {
    let mut manual_buf = Vec::new();
    manual_buf.push(endian_byte);
    // geom type flag
    push_u32(&mut manual_buf, 1, le);
    push_f64(&mut manual_buf, -105.0, le);
    push_f64(&mut manual_buf, 40.0, le);

    manual_buf
}

fn get_test_point() -> GPKGPoint {
    coord(-105.0, 40.0)
}

fn write_test_linestring_buf(le: bool, endian_byte: u8) -> Vec<u8> {
    let mut manual_buf = Vec::new();
    manual_buf.push(endian_byte);
    // geom type flag
    push_u32(&mut manual_buf, 2, le);
    // number of points
    push_u32(&mut manual_buf, 3, le);
    // points
    push_f64(&mut manual_buf, -105.0, le);
    push_f64(&mut manual_buf, 40.0, le);
    push_f64(&mut manual_buf, -106.0, le);
    push_f64(&mut manual_buf, 41.5, le);
    push_f64(&mut manual_buf, -107.0, le);
    push_f64(&mut manual_buf, 43.0, le);

    manual_buf
}

fn get_test_linestring() -> GPKGLineString {
    GPKGLineString(vec![coord(-105.0, 40.0), coord(-106.0, 41.5), coord(-107.0, 43.0)])
}

fn write_test_polygon_buf(le: bool, endian_byte: u8) -> Vec<u8> {
    let mut manual_buf = Vec::new();
    manual_buf.push(endian_byte);
    // geom type flag
    push_u32(&mut manual_buf, 3, le);
    // number of rings
    push_u32(&mut manual_buf, 2, le);
    // exterior ring
    push_u32(&mut manual_buf, 5, le);
    push_f64(&mut manual_buf, -105.0, le);
    push_f64(&mut manual_buf, 40.0, le);
    push_f64(&mut manual_buf, -106.0, le);
    push_f64(&mut manual_buf, 41.5, le);
    push_f64(&mut manual_buf, -107.0, le);
    push_f64(&mut manual_buf, 43.0, le);
    push_f64(&mut manual_buf, -107.0, le);
    push_f64(&mut manual_buf, 40.0, le);
    push_f64(&mut manual_buf, -105.0, le);
    push_f64(&mut manual_buf, 40.0, le);
    // interior ring
    push_u32(&mut manual_buf, 4, le);
    push_f64(&mut manual_buf, -105.5, le);
    push_f64(&mut manual_buf, 40.0, le);
    push_f64(&mut manual_buf, -106.0, le);
    push_f64(&mut manual_buf, 41.0, le);
    push_f64(&mut manual_buf, -107.0, le);
    push_f64(&mut manual_buf, 42.0, le);
    push_f64(&mut manual_buf, -105.5, le);
    push_f64(&mut manual_buf, 40.0, le);

    manual_buf
}

fn get_test_polygon() -> GPKGPolygon {
    let exterior_ring = GPKGLineString(vec![
        coord(-105.0, 40.0),
        coord(-106.0, 41.5),
        coord(-107.0, 43.0),
        coord(-107.0, 40.0),
        coord(-105.0, 40.0),
    ]);

    let interior_ring = GPKGLineString(vec![
        coord(-105.5, 40.0),
        coord(-106.0, 41.0),
        coord(-107.0, 42.0),
        coord(-105.5, 40.0),
    ]);
    GPKGPolygon { exterior: exterior_ring, interiors: vec![interior_ring] }
}

fn write_test_multipoint_buf(le: bool, endian_byte: u8) -> Vec<u8> {
    let mut manual_buf = Vec::new();
    manual_buf.push(endian_byte);
    // geom type flag
    push_u32(&mut manual_buf, 4, le);
    // number of points
    push_u32(&mut manual_buf, 4, le);
    push_f64(&mut manual_buf, -105.0, le);
    push_f64(&mut manual_buf, 40.0, le);
    push_f64(&mut manual_buf, -95.0, le);
    push_f64(&mut manual_buf, 15.0, le);
    push_f64(&mut manual_buf, 105.0, le);
    push_f64(&mut manual_buf, -40.0, le);
    push_f64(&mut manual_buf, -135.0, le);
    push_f64(&mut manual_buf, -20.0, le);

    manual_buf
}

fn get_test_multipoint() -> GPKGMultiPoint {
    GPKGMultiPoint(vec![
        coord(-105.0, 40.0),
        coord(-95.0, 15.0),
        coord(105.0, -40.0),
        coord(-135.0, -20.0),
    ])
}

fn write_test_multilinestring_buf(le: bool, endian_byte: u8) -> Vec<u8> {
    let mut manual_buf = Vec::new();
    manual_buf.push(endian_byte);
    // geom type flag
    push_u32(&mut manual_buf, 5, le);
    // number of linestrings
    push_u32(&mut manual_buf, 2, le);
    // number of points for linestring 1
    push_u32(&mut manual_buf, 3, le);
    // points
    push_f64(&mut manual_buf, -105.0, le);
    push_f64(&mut manual_buf, 40.0, le);
    push_f64(&mut manual_buf, -106.0, le);
    push_f64(&mut manual_buf, 41.5, le);
    push_f64(&mut manual_buf, -107.0, le);
    push_f64(&mut manual_buf, 43.0, le);

    // number of points for linestring 2
    push_u32(&mut manual_buf, 3, le);
    // points
    push_f64(&mut manual_buf, -15.0, le);
    push_f64(&mut manual_buf, 4.0, le);
    push_f64(&mut manual_buf, -16.0, le);
    push_f64(&mut manual_buf, 4.5, le);
    push_f64(&mut manual_buf, -17.0, le);
    push_f64(&mut manual_buf, 4.0, le);

    manual_buf
}

fn get_test_multilinestring() -> GPKGMultiLineString {
    let ls1 = GPKGLineString(vec![coord(-105.0, 40.0), coord(-106.0, 41.5), coord(-107.0, 43.0)]);

    let ls2 = GPKGLineString(vec![coord(-15.0, 4.0), coord(-16.0, 4.5), coord(-17.0, 4.0)]);
    GPKGMultiLineString(vec![ls1, ls2])
}

fn write_test_multipolygon_buf(le: bool, endian_byte: u8) -> Vec<u8> {
    let mut manual_buf = Vec::new();
    manual_buf.push(endian_byte);
    // geom type flag
    push_u32(&mut manual_buf, 6, le);
    // number of polygons
    push_u32(&mut manual_buf, 2, le);
    // number of rings in polygon 1
    push_u32(&mut manual_buf, 1, le);
    // number of points for exterior
    push_u32(&mut manual_buf, 4, le);
    // points
    push_f64(&mut manual_buf, -105.0, le);
    push_f64(&mut manual_buf, 40.0, le);
    push_f64(&mut manual_buf, -106.0, le);
    push_f64(&mut manual_buf, 43.5, le);
    push_f64(&mut manual_buf, -107.0, le);
    push_f64(&mut manual_buf, 41.0, le);
    push_f64(&mut manual_buf, -105.0, le);
    push_f64(&mut manual_buf, 40.0, le);

    // number of rings in polygon 2
    push_u32(&mut manual_buf, 2, le);
    // number of points for exterior
    push_u32(&mut manual_buf, 5, le);
    // points
    push_f64(&mut manual_buf, -15.0, le);
    push_f64(&mut manual_buf, 4.0, le);
    push_f64(&mut manual_buf, 16.0, le);
    push_f64(&mut manual_buf, 4.5, le);
    push_f64(&mut manual_buf, -1.0, le);
    push_f64(&mut manual_buf, 10.0, le);
    push_f64(&mut manual_buf, -10.0, le);
    push_f64(&mut manual_buf, 10.0, le);
    push_f64(&mut manual_buf, -15.0, le);
    push_f64(&mut manual_buf, 4.0, le);
    // number of points for interior ring 1
    push_u32(&mut manual_buf, 4, le);
    push_f64(&mut manual_buf, -1.53, le);
    push_f64(&mut manual_buf, 4.999, le);
    push_f64(&mut manual_buf, 1.609, le);
    push_f64(&mut manual_buf, 5.67, le);
    push_f64(&mut manual_buf, -2.345, le);
    push_f64(&mut manual_buf, 6.2, le);
    push_f64(&mut manual_buf, -1.53, le);
    push_f64(&mut manual_buf, 4.999, le);

    manual_buf
}

fn get_test_multipolygon() -> GPKGMultiPolygon {
    let poly1_exterior = GPKGLineString(vec![
        coord(-105.0, 40.0),
        coord(-106.0, 43.5),
        coord(-107.0, 41.0),
        coord(-105.0, 40.0),
    ]);
    let poly1 = GPKGPolygon { exterior: poly1_exterior, interiors: vec![] };

    let poly2_exterior = GPKGLineString(vec![
        coord(-15.0, 4.0),
        coord(16.0, 4.5),
        coord(-1.0, 10.0),
        coord(-10.0, 10.0),
        coord(-15.0, 4.0),
    ]);

    let poly2_interior = GPKGLineString(vec![
        coord(-1.53, 4.999),
        coord(1.609, 5.67),
        coord(-2.345, 6.2),
        coord(-1.53, 4.999),
    ]);
    let poly2 = GPKGPolygon { exterior: poly2_exterior, interiors: vec![poly2_interior] };

    GPKGMultiPolygon(vec![poly1, poly2])
}

#[test]
fn write_point() {
    let manual_buf = write_test_point_buf(true, 1);
    let point = get_test_point();
    let mut auto_buf = Vec::new();
    point.write_as_wkb(&mut auto_buf).unwrap();
    assert_eq!(manual_buf, auto_buf);

    // lets also make sure we can read in our own output
    let written_point = GPKGPoint::read_from_wkb(&auto_buf).unwrap();
    assert!(points_equal(&point, &written_point));
}

#[test]
fn read_point() {
    let pt = get_test_point();

    let le_buf = write_test_point_buf(true, 1);
    let le_cmp_pt = GPKGPoint::read_from_wkb(&le_buf).unwrap();

    assert!(points_equal(&pt, &le_cmp_pt));

    let be_buf = write_test_point_buf(false, 0);
    let be_cmp_pt = GPKGPoint::read_from_wkb(&be_buf).unwrap();

    assert!(points_equal(&pt, &be_cmp_pt))
}

#[test]
fn write_linestring() {
    let manual_buf = write_test_linestring_buf(true, 1);
    let ls = get_test_linestring();

    let mut auto_buf = Vec::new();
    ls.write_as_wkb(&mut auto_buf).unwrap();

    assert_eq!(manual_buf, auto_buf);

    // lets also make sure we can read in our own output
    let written_ls = GPKGLineString::read_from_wkb(&auto_buf).unwrap();

    assert!(linestrings_equal(&ls, &written_ls));
}

#[test]
fn read_linestring() {
    let ls = get_test_linestring();

    let le_buf = write_test_linestring_buf(true, 1);
    let le_cmp_ls = GPKGLineString::read_from_wkb(&le_buf).unwrap();

    assert_eq!(&ls, &le_cmp_ls);

    let be_buf = write_test_linestring_buf(false, 0);
    let be_cmp_ls = GPKGLineString::read_from_wkb(&be_buf).unwrap();

    assert_eq!(&ls, &be_cmp_ls);
}

#[test]
fn write_polygon() {
    let manual_buf = write_test_polygon_buf(true, 1);
    let poly = get_test_polygon();

    let mut auto_buf = Vec::new();
    poly.write_as_wkb(&mut auto_buf).unwrap();

    assert_eq!(manual_buf, auto_buf);

    // lets also make sure we can read in our own output
    let written_poly = GPKGPolygon::read_from_wkb(&auto_buf).unwrap();

    assert!(polygons_equal(&poly, &written_poly));
}

#[test]
fn read_polygon() {
    let poly = get_test_polygon();

    let le_buf = write_test_polygon_buf(true, 1);
    let le_cmp_poly = GPKGPolygon::read_from_wkb(&le_buf).unwrap();

    assert!(polygons_equal(&poly, &le_cmp_poly));

    let be_buf = write_test_polygon_buf(false, 0);
    let be_cmp_poly = GPKGPolygon::read_from_wkb(&be_buf).unwrap();

    assert!(polygons_equal(&poly, &be_cmp_poly));
}

#[test]
fn write_multipoint() {
    let manual_buf = write_test_multipoint_buf(true, 1);
    let mut auto_buf = Vec::new();

    let mp = get_test_multipoint();
    mp.write_as_wkb(&mut auto_buf).unwrap();

    assert_eq!(manual_buf, auto_buf);

    // lets also make sure we can read in our own output
    let written_mp = GPKGMultiPoint::read_from_wkb(&auto_buf).unwrap();

    for (a, b) in zip(&mp.0, &written_mp.0) {
        assert!(points_equal(a, b));
    }
}

#[test]
fn read_multipoint() {
    let mp = get_test_multipoint();

    let le_buf = write_test_multipoint_buf(true, 1);
    let le_mp = GPKGMultiPoint::read_from_wkb(&le_buf).unwrap();

    for (a, b) in zip(&mp.0, &le_mp.0) {
        assert!(points_equal(a, b));
    }

    let be_buf = write_test_multipoint_buf(false, 0);
    let be_mp = GPKGMultiPoint::read_from_wkb(&be_buf).unwrap();

    for (a, b) in zip(&mp.0, &be_mp.0) {
        assert!(points_equal(a, b));
    }
}

#[test]
fn write_multilinestring() {
    let manual_buf = write_test_multilinestring_buf(true, 1);
    let mls = get_test_multilinestring();
    let mut auto_buf = Vec::new();
    mls.write_as_wkb(&mut auto_buf).unwrap();

    assert_eq!(manual_buf, auto_buf);

    // lets also make sure we can read in our own output
    let written_mls = GPKGMultiLineString::read_from_wkb(&auto_buf).unwrap();

    for (a, b) in zip(&mls.0, &written_mls.0) {
        assert!(linestrings_equal(a, b));
    }
}

#[test]
fn read_multilinestring() {
    let mls = get_test_multilinestring();

    let le_buf = write_test_multilinestring_buf(true, 1);
    let le_cmp_mls = GPKGMultiLineString::read_from_wkb(&le_buf).unwrap();

    for (a, b) in zip(&mls.0, &le_cmp_mls.0) {
        assert!(linestrings_equal(a, b));
    }

    let be_buf = write_test_multilinestring_buf(false, 0);
    let be_cmp_mls = GPKGMultiLineString::read_from_wkb(&be_buf).unwrap();

    for (a, b) in zip(&mls.0, &be_cmp_mls.0) {
        assert!(linestrings_equal(a, b));
    }
}

#[test]
fn write_multipolygon() {
    let manual_buf = write_test_multipolygon_buf(true, 1);
    let mp = get_test_multipolygon();
    let mut auto_buf = Vec::new();
    mp.write_as_wkb(&mut auto_buf).unwrap();

    assert_eq!(manual_buf, auto_buf);

    // lets also make sure we can read in our own output
    let written_mp = GPKGMultiPolygon::read_from_wkb(&auto_buf).unwrap();

    for (a, b) in zip(&mp.0, &written_mp.0) {
        assert!(polygons_equal(a, b));
    }
}

#[test]
fn read_multipolygon() {
    let mls = get_test_multipolygon();

    let le_buf = write_test_multipolygon_buf(true, 1);
    let le_cmp_mls = GPKGMultiPolygon::read_from_wkb(&le_buf).unwrap();

    for (a, b) in zip(&mls.0, &le_cmp_mls.0) {
        assert!(polygons_equal(a, b));
    }

    let be_buf = write_test_multipolygon_buf(false, 0);
    let be_cmp_mls = GPKGMultiPolygon::read_from_wkb(&be_buf).unwrap();

    for (a, b) in zip(&mls.0, &be_cmp_mls.0) {
        assert!(polygons_equal(a, b));
    }
}
