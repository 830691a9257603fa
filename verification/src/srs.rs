//! Spatial reference systems as their registry rows describe them.
//!
//! The codec itself carries an SRS id without interpreting it; these are the
//! reference systems every container is seeded with.
use vstd::prelude::*;

verus! {

/// A spatial reference system row: name, registry ids, and the well-known
/// text of its definition.
pub struct SpatialRefSys<'a> {
    pub name: &'a str,
    pub id: i64,
    pub organization: &'a str,
    pub organization_coordsys_id: i64,
    pub definition: &'a str,
    pub description: &'a str,
}

/// The WGS 84 geodetic reference system, registry id 4326.
pub fn wgs84() -> (r: SpatialRefSys<'static>)
    ensures
        r.id == 4326,
        r.organization_coordsys_id == 4326,
        r.name@ == "WGS 84 geodetic"@,
        r.organization@ == "EPSG"@,
{
    SpatialRefSys {
        name: "WGS 84 geodetic",
        id: 4326,
        organization: "EPSG",
        organization_coordsys_id: 4326,
        definition: "GEOGCS[\"WGS 84\",DATUM[\"WGS_1984\",SPHEROID[\"WGS 84\",6378137,298.257223563,AUTHORITY[\"EPSG\",\"7030\"]],AUTHORITY[\"EPSG\",\"6326\"]],PRIMEM[\"Greenwich\",0,AUTHORITY[\"EPSG\",\"8901\"]],UNIT[\"degree\",0.0174532925199433,AUTHORITY[\"EPSG\",\"9122\"]],AUTHORITY[\"EPSG\",\"4326\"]]",
        description: "longitude/latitude coordinates in decimal degrees on the WGS 84 spheroid",
    }
}

/// The undefined geographic reference system, registry id 0.
pub fn geographic() -> (r: SpatialRefSys<'static>)
    ensures
        r.id == 0,
        r.organization_coordsys_id == 0,
        r.name@ == "undefined geographic SRS"@,
        r.organization@ == "NONE"@,
        r.definition@ == "undefined"@,
{
    SpatialRefSys {
        name: "undefined geographic SRS",
        id: 0,
        organization: "NONE",
        organization_coordsys_id: 0,
        definition: "undefined",
        description: "undefined geographic coordinate reference system",
    }
}

/// The undefined cartesian reference system, registry id -1.
pub fn cartesian() -> (r: SpatialRefSys<'static>)
    ensures
        r.id == -1,
        r.organization_coordsys_id == -1,
        r.name@ == "undefined cartesian SRS"@,
        r.organization@ == "NONE"@,
        r.definition@ == "undefined"@,
{
    SpatialRefSys {
        name: "undefined cartesian SRS",
        id: -1,
        organization: "NONE",
        organization_coordsys_id: -1,
        definition: "undefined",
        description: "undefined cartesian coordinate reference system",
    }
}

} // verus!
