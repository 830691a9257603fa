//! The GeoPackage header flags byte.
//!
//! One byte encodes: bit 0 the body byte order (0 big-endian, 1 little-endian),
//! bits 1-3 the envelope code (0..=4), bit 4 the empty-geometry flag, and
//! bit 5 the extended-type flag.
use crate::result::Error;
use vstd::prelude::*;

verus! {

/// The envelope kinds a header can declare, selected by the 3-bit code
/// in the flags byte.
#[derive(Debug, Clone, Copy, PartialEq, Eq, Structural)]
pub enum EnvelopeType {
    Missing,
    XY,
    XYZ,
    XYM,
    XYZM,
}

/// Number of bytes the declared envelope occupies in the header.
pub open spec fn spec_envelope_length(e: EnvelopeType) -> int {
    match e {
        EnvelopeType::Missing => 0,
        EnvelopeType::XY => 32,
        EnvelopeType::XYZ => 48,
        EnvelopeType::XYM => 48,
        EnvelopeType::XYZM => 64,
    }
}

/// The 3-bit wire code of an envelope kind.
pub open spec fn spec_envelope_code(e: EnvelopeType) -> u8 {
    match e {
        EnvelopeType::Missing => 0,
        EnvelopeType::XY => 1,
        EnvelopeType::XYZ => 2,
        EnvelopeType::XYM => 3,
        EnvelopeType::XYZM => 4,
    }
}

/// The envelope kind a 3-bit wire code selects.
pub open spec fn spec_envelope_of_code(c: u8) -> EnvelopeType
    recommends
        c <= 4,
{
    if c == 0 {
        EnvelopeType::Missing
    } else if c == 1 {
        EnvelopeType::XY
    } else if c == 2 {
        EnvelopeType::XYZ
    } else if c == 3 {
        EnvelopeType::XYM
    } else {
        EnvelopeType::XYZM
    }
}

/// Number of bytes the declared envelope occupies in the header.
pub fn envelope_length(e: EnvelopeType) -> (r: usize)
    ensures
        r == spec_envelope_length(e),
{
    match e {
        EnvelopeType::Missing => 0,
        EnvelopeType::XY => 32,
        EnvelopeType::XYZ => 48,
        EnvelopeType::XYM => 48,
        EnvelopeType::XYZM => 64,
    }
}

/// The 3-bit wire code of an envelope kind.
pub fn envelope_code(e: EnvelopeType) -> (r: u8)
    ensures
        r == spec_envelope_code(e),
{
    match e {
        EnvelopeType::Missing => 0,
        EnvelopeType::XY => 1,
        EnvelopeType::XYZ => 2,
        EnvelopeType::XYM => 3,
        EnvelopeType::XYZM => 4,
    }
}

/// The header flags byte, decoded into its fields.
#[derive(Debug, Clone, Copy, PartialEq, Eq, Structural)]
pub struct GPKGGeomFlags {
    pub extended: bool,
    pub empty_geom: bool,
    pub little_endian: bool,
    pub envelope: EnvelopeType,
}

/// 1 for true, 0 for false: a flag bit before shifting into place.
pub open spec fn spec_bool_bit(b: bool) -> u8 {
    if b {
        1
    } else {
        0
    }
}

/// The byte a flags value packs into.
pub open spec fn spec_flags_to_byte(f: GPKGGeomFlags) -> u8 {
    (spec_bool_bit(f.extended) << 5) | (spec_bool_bit(f.empty_geom) << 4) | (spec_envelope_code(
        f.envelope,
    ) << 1) | spec_bool_bit(f.little_endian)
}

/// The flags a byte decodes to: an error when the envelope code is outside
/// 0..=4, the fields of the byte otherwise.
pub open spec fn spec_flags_from_byte(b: u8) -> Result<GPKGGeomFlags, Error> {
    if (b >> 1) & 0x7 <= 4 {
        Ok(
            GPKGGeomFlags {
                extended: (b >> 5) & 1 == 1,
                empty_geom: (b >> 4) & 1 == 1,
                little_endian: b & 1 == 1,
                envelope: spec_envelope_of_code((b >> 1) & 0x7),
            },
        )
    } else {
        Err(Error::MalformedHeader)
    }
}

impl GPKGGeomFlags {
    /// Decode a flags byte. An envelope code outside 0..=4 is a malformed
    /// header, reported as an error rather than accepted.
    pub fn from_byte(b: u8) -> (r: Result<GPKGGeomFlags, Error>)
        ensures
            r == spec_flags_from_byte(b),
    {
        let extended: bool = (b >> 5) & 1 == 1;
        let empty_geom: bool = (b >> 4) & 1 == 1;
        let little_endian: bool = b & 1 == 1;
        let env_code: u8 = (b >> 1) & 0x7;
        let envelope: EnvelopeType = if env_code == 0 {
            EnvelopeType::Missing
        } else if env_code == 1 {
            EnvelopeType::XY
        } else if env_code == 2 {
            EnvelopeType::XYZ
        } else if env_code == 3 {
            EnvelopeType::XYM
        } else if env_code == 4 {
            EnvelopeType::XYZM
        } else {
            return Err(Error::MalformedHeader);
        };
        Ok(GPKGGeomFlags { extended, empty_geom, little_endian, envelope })
    }

    /// Pack the flags into their wire byte.
    pub fn to_byte(&self) -> (r: u8)
        ensures
            r == spec_flags_to_byte(*self),
    {
        let ext: u8 = if self.extended {
            1
        } else {
            0
        };
        let emp: u8 = if self.empty_geom {
            1
        } else {
            0
        };
        let le: u8 = if self.little_endian {
            1
        } else {
            0
        };
        let env: u8 = envelope_code(self.envelope);
        (ext << 5) | (emp << 4) | (env << 1) | le
    }
}

/// Decoding a byte whose envelope code is valid and re-packing the flags
/// reproduces the byte's six defined bits; bits 6 and 7 are reserved and
/// dropped.
pub proof fn lemma_flags_byte_round_trip(b: u8)
    requires
        (b >> 1) & 0x7 <= 4,
    ensures
        spec_flags_from_byte(b) is Ok,
        spec_flags_to_byte(spec_flags_from_byte(b)->Ok_0) == b & 0x3f,
{
    let f = spec_flags_from_byte(b)->Ok_0;
    let e = spec_bool_bit(f.extended);
    let m = spec_bool_bit(f.empty_geom);
    let l = spec_bool_bit(f.little_endian);
    let v = spec_envelope_code(f.envelope);
    assert(v == (b >> 1) & 0x7);
    assert((e << 5) | (m << 4) | (v << 1) | l == b & 0x3f) by (bit_vector)
        requires
            e == (if (b >> 5) & 1 == 1 { 1u8 } else { 0u8 }),
            m == (if (b >> 4) & 1 == 1 { 1u8 } else { 0u8 }),
            l == (if b & 1 == 1 { 1u8 } else { 0u8 }),
            v == (b >> 1) & 0x7,
    ;
}

/// Packing a flags value into its byte and decoding that byte gives the
/// flags back.
pub proof fn lemma_flags_round_trip(f: GPKGGeomFlags)
    ensures
        spec_flags_from_byte(spec_flags_to_byte(f)) == Ok::<GPKGGeomFlags, Error>(f),
{
    let e = spec_bool_bit(f.extended);
    let m = spec_bool_bit(f.empty_geom);
    let l = spec_bool_bit(f.little_endian);
    let v = spec_envelope_code(f.envelope);
    let b = spec_flags_to_byte(f);
    assert((b >> 5) & 1 == e && (b >> 4) & 1 == m && (b >> 1) & 0x7 == v && b & 1 == l)
        by (bit_vector)
        requires
            e <= 1,
            m <= 1,
            l <= 1,
            v <= 4,
            b == (e << 5) | (m << 4) | (v << 1) | l,
    ;
}

} // verus!
