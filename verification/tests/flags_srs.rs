//! Flags byte decoding/packing, envelope lengths, reference systems, and
//! error descriptions.
use gpkg::flags::envelope_length;
use gpkg::{EnvelopeType, Error, GPKGGeomFlags};

#[test]
fn flags_from_byte_fields() {
    // bit 5 extended, bits 1-3 envelope code 2, bit 0 little-endian
    let f = GPKGGeomFlags::from_byte(0b0010_0101).unwrap();
    assert!(f.extended);
    assert!(!f.empty_geom);
    assert!(f.little_endian);
    assert_eq!(f.envelope, EnvelopeType::XYZ);

    // bit 4 empty, envelope code 0, big-endian
    let g = GPKGGeomFlags::from_byte(0b0001_0000).unwrap();
    assert!(!g.extended);
    assert!(g.empty_geom);
    assert!(!g.little_endian);
    assert_eq!(g.envelope, EnvelopeType::Missing);
}

#[test]
fn flags_to_byte_packs() {
    let f = GPKGGeomFlags {
        extended: true,
        empty_geom: false,
        little_endian: true,
        envelope: EnvelopeType::XYZ,
    };
    assert_eq!(f.to_byte(), 0b0010_0101);

    let g = GPKGGeomFlags {
        extended: false,
        empty_geom: false,
        little_endian: true,
        envelope: EnvelopeType::Missing,
    };
    assert_eq!(g.to_byte(), 0b0000_0001);
}

#[test]
fn flags_round_trip() {
    for b in [0b0000_0001u8, 0b0000_0000, 0b0011_0111, 0b0001_1000, 0b0010_0100] {
        let f = GPKGGeomFlags::from_byte(b).unwrap();
        assert_eq!(f.to_byte(), b);
    }
}

#[test]
fn invalid_envelope_codes_rejected() {
    for code in [5u8, 6, 7] {
        let b = code << 1;
        assert!(matches!(GPKGGeomFlags::from_byte(b), Err(Error::MalformedHeader)));
    }
}

#[test]
fn envelope_lengths() {
    assert_eq!(envelope_length(EnvelopeType::Missing), 0);
    assert_eq!(envelope_length(EnvelopeType::XY), 32);
    assert_eq!(envelope_length(EnvelopeType::XYZ), 48);
    assert_eq!(envelope_length(EnvelopeType::XYM), 48);
    assert_eq!(envelope_length(EnvelopeType::XYZM), 64);
}

#[test]
fn default_reference_systems() {
    let wgs = gpkg::srs::wgs84();
    assert_eq!(wgs.id, 4326);
    assert_eq!(wgs.organization, "EPSG");
    assert_eq!(wgs.organization_coordsys_id, 4326);

    let geo = gpkg::srs::geographic();
    assert_eq!(geo.id, 0);
    assert_eq!(geo.definition, "undefined");

    let cart = gpkg::srs::cartesian();
    assert_eq!(cart.id, -1);
    assert_eq!(cart.organization_coordsys_id, -1);
}

#[test]
fn error_descriptions() {
    assert_eq!(Error::GeomDecodeError.description(), "Error decoding WKB geometry");
    assert_eq!(Error::GeomEncodeError.description(), "Error encoding WKB geometry");
    assert_eq!(Error::UnsupportedGeometryType.description(), "Unsupported WKB geometry type");
    assert_eq!(Error::WrongType.description(), "Geometry type does not match the expected type");
    assert_eq!(Error::TooDeep.description(), "Geometry collections nested too deeply");
}
