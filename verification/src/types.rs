//! The geometry value model: the seven standard kinds plus the two
//! Z-augmented kinds, and their mathematical views.
//!
//! Coordinate components are the raw bit patterns of IEEE-754 doubles. The
//! codec never interprets them numerically, so carrying them as `u64` keeps
//! every round trip bit-exact and keeps equality of geometries exact.
use vstd::prelude::*;

verus! {

/// A coordinate pair; each component is the bit pattern of a double.
#[derive(Debug, Clone, Copy, PartialEq, Eq, Structural)]
pub struct GPKGPoint {
    pub x: u64,
    pub y: u64,
}

/// A coordinate triple with elevation; components are double bit patterns.
#[derive(Debug, Clone, Copy, PartialEq, Eq, Structural)]
pub struct GPKGPointZ {
    pub x: u64,
    pub y: u64,
    pub z: u64,
}

/// An ordered sequence of coordinates. The codec enforces no closure or
/// minimum-length invariant.
#[derive(Debug, Clone, PartialEq)]
pub struct GPKGLineString(pub Vec<GPKGPoint>);

/// An ordered sequence of coordinates with elevation.
#[derive(Debug, Clone, PartialEq)]
pub struct GPKGLineStringZ(pub Vec<GPKGPointZ>);

/// One exterior ring plus zero or more interior rings (holes).
#[derive(Debug, Clone, PartialEq)]
pub struct GPKGPolygon {
    pub exterior: GPKGLineString,
    pub interiors: Vec<GPKGLineString>,
}

/// An ordered sequence of points; wire order is preserved.
#[derive(Debug, Clone, PartialEq)]
pub struct GPKGMultiPoint(pub Vec<GPKGPoint>);

/// An ordered sequence of line strings.
#[derive(Debug, Clone, PartialEq)]
pub struct GPKGMultiLineString(pub Vec<GPKGLineString>);

/// An ordered sequence of polygons.
#[derive(Debug, Clone, PartialEq)]
pub struct GPKGMultiPolygon(pub Vec<GPKGPolygon>);

/// An ordered, heterogeneous sequence of geometries; members may themselves
/// be collections.
#[derive(Debug, PartialEq)]
pub struct GPKGGeometryCollection(pub Vec<GPKGGeometry>);

/// The closed sum of every geometry kind the codec supports.
#[derive(Debug, PartialEq)]
pub enum GPKGGeometry {
    Point(GPKGPoint),
    LineString(GPKGLineString),
    Polygon(GPKGPolygon),
    MultiPoint(GPKGMultiPoint),
    MultiLineString(GPKGMultiLineString),
    MultiPolygon(GPKGMultiPolygon),
    GeometryCollection(GPKGGeometryCollection),
    PointZ(GPKGPointZ),
    LineStringZ(GPKGLineStringZ),
}

/// The mathematical view of a polygon.
#[verifier::ext_equal]
pub struct PolyView {
    pub exterior: Seq<GPKGPoint>,
    pub interiors: Seq<Seq<GPKGPoint>>,
}

/// The mathematical view of a geometry: sequences in place of vectors.
#[verifier::ext_equal]
pub enum GeomView {
    Point(GPKGPoint),
    LineString(Seq<GPKGPoint>),
    Polygon(PolyView),
    MultiPoint(Seq<GPKGPoint>),
    MultiLineString(Seq<Seq<GPKGPoint>>),
    MultiPolygon(Seq<PolyView>),
    GeometryCollection(Seq<GeomView>),
    PointZ(GPKGPointZ),
    LineStringZ(Seq<GPKGPointZ>),
}

/// The views of a sequence of rings.
pub open spec fn rings_view(s: Seq<GPKGLineString>) -> Seq<Seq<GPKGPoint>> {
    s.map(|i: int, r: GPKGLineString| r@)
}

/// The views of a sequence of polygons.
pub open spec fn polys_view(s: Seq<GPKGPolygon>) -> Seq<PolyView> {
    s.map(|i: int, p: GPKGPolygon| p@)
}

impl View for GPKGLineString {
    type V = Seq<GPKGPoint>;

    open spec fn view(&self) -> Seq<GPKGPoint> {
        self.0@
    }
}

impl View for GPKGLineStringZ {
    type V = Seq<GPKGPointZ>;

    open spec fn view(&self) -> Seq<GPKGPointZ> {
        self.0@
    }
}

impl View for GPKGPolygon {
    type V = PolyView;

    open spec fn view(&self) -> PolyView {
        PolyView { exterior: self.exterior@, interiors: rings_view(self.interiors@) }
    }
}

impl View for GPKGMultiPoint {
    type V = Seq<GPKGPoint>;

    open spec fn view(&self) -> Seq<GPKGPoint> {
        self.0@
    }
}

impl View for GPKGMultiLineString {
    type V = Seq<Seq<GPKGPoint>>;

    open spec fn view(&self) -> Seq<Seq<GPKGPoint>> {
        rings_view(self.0@)
    }
}

impl View for GPKGMultiPolygon {
    type V = Seq<PolyView>;

    open spec fn view(&self) -> Seq<PolyView> {
        polys_view(self.0@)
    }
}

/// The view of one geometry.
pub open spec fn gview(g: GPKGGeometry) -> GeomView
    decreases g,
{
    match g {
        GPKGGeometry::Point(p) => GeomView::Point(p),
        GPKGGeometry::LineString(ls) => GeomView::LineString(ls@),
        GPKGGeometry::Polygon(p) => GeomView::Polygon(p@),
        GPKGGeometry::MultiPoint(mp) => GeomView::MultiPoint(mp@),
        GPKGGeometry::MultiLineString(m) => GeomView::MultiLineString(m@),
        GPKGGeometry::MultiPolygon(m) => GeomView::MultiPolygon(m@),
        GPKGGeometry::GeometryCollection(c) => GeomView::GeometryCollection(gview_seq(c.0@)),
        GPKGGeometry::PointZ(p) => GeomView::PointZ(p),
        GPKGGeometry::LineStringZ(l) => GeomView::LineStringZ(l@),
    }
}

/// The views of a sequence of geometries, in order.
pub open spec fn gview_seq(s: Seq<GPKGGeometry>) -> Seq<GeomView>
    decreases s,
{
    if s.len() == 0 {
        Seq::empty()
    } else {
        seq![gview(s[0])] + gview_seq(s.subrange(1, s.len() as int))
    }
}

impl View for GPKGGeometryCollection {
    type V = Seq<GeomView>;

    open spec fn view(&self) -> Seq<GeomView> {
        gview_seq(self.0@)
    }
}

impl View for GPKGGeometry {
    type V = GeomView;

    open spec fn view(&self) -> GeomView {
        gview(*self)
    }
}

/// `gview_seq` maps the sequence elementwise.
pub proof fn lemma_gview_seq_index(s: Seq<GPKGGeometry>, i: int)
    requires
        0 <= i < s.len(),
    ensures
        gview_seq(s).len() == s.len(),
        gview_seq(s)[i] == gview(s[i]),
    decreases s.len(),
{
    lemma_gview_seq_len(s);
    if i > 0 {
        lemma_gview_seq_index(s.subrange(1, s.len() as int), i - 1);
        assert(s.subrange(1, s.len() as int)[i - 1] == s[i]);
    }
}

/// `gview_seq` preserves length.
pub proof fn lemma_gview_seq_len(s: Seq<GPKGGeometry>)
    ensures
        gview_seq(s).len() == s.len(),
    decreases s.len(),
{
    if s.len() > 0 {
        lemma_gview_seq_len(s.subrange(1, s.len() as int));
    }
}

/// Appending one geometry appends its view.
pub proof fn lemma_gview_seq_push(s: Seq<GPKGGeometry>, g: GPKGGeometry)
    ensures
        gview_seq(s.push(g)) == gview_seq(s).push(gview(g)),
    decreases s.len(),
{
    lemma_gview_seq_len(s);
    lemma_gview_seq_len(s.push(g));
    assert forall|j: int| 0 <= j < s.len() + 1 implies gview_seq(s.push(g))[j] == gview_seq(
        s,
    ).push(gview(g))[j] by {
        lemma_gview_seq_index(s.push(g), j);
        if j < s.len() {
            lemma_gview_seq_index(s, j);
            assert(s.push(g)[j] == s[j]);
        } else {
            assert(s.push(g)[j] == g);
        }
    }
    assert(gview_seq(s.push(g)) =~= gview_seq(s).push(gview(g)));
}

/// A coordinate list that fits its 4-byte count field.
pub open spec fn wf_coords(s: Seq<GPKGPoint>) -> bool {
    s.len() <= u32::MAX
}

/// A coordinate list with elevation that fits its 4-byte count field.
pub open spec fn wf_coords_z(s: Seq<GPKGPointZ>) -> bool {
    s.len() <= u32::MAX
}

/// A polygon whose ring count and ring lengths fit their 4-byte count fields.
pub open spec fn wf_poly(p: PolyView) -> bool {
    &&& p.interiors.len() + 1 <= u32::MAX
    &&& wf_coords(p.exterior)
    &&& forall|i: int| 0 <= i < p.interiors.len() ==> wf_coords(#[trigger] p.interiors[i])
}

/// A geometry every one of whose element counts fits its 4-byte count field.
/// Every count the wire format stores is a u32, so only such geometries can
/// be encoded.
pub open spec fn wf_geom(g: GeomView) -> bool
    decreases g,
{
    match g {
        GeomView::Point(_) => true,
        GeomView::LineString(s) => wf_coords(s),
        GeomView::Polygon(p) => wf_poly(p),
        GeomView::MultiPoint(s) => wf_coords(s),
        GeomView::MultiLineString(s) => s.len() <= u32::MAX && forall|i: int|
            0 <= i < s.len() ==> wf_coords(#[trigger] s[i]),
        GeomView::MultiPolygon(s) => s.len() <= u32::MAX && forall|i: int|
            0 <= i < s.len() ==> wf_poly(#[trigger] s[i]),
        GeomView::GeometryCollection(s) => s.len() <= u32::MAX && wf_geom_seq(s),
        GeomView::PointZ(_) => true,
        GeomView::LineStringZ(s) => wf_coords_z(s),
    }
}

/// Every geometry of the sequence is well-formed.
pub open spec fn wf_geom_seq(s: Seq<GeomView>) -> bool
    decreases s,
{
    s.len() == 0 || (wf_geom(s[0]) && wf_geom_seq(s.subrange(1, s.len() as int)))
}

/// A sequence of geometries is well-formed exactly when each member is.
pub proof fn lemma_wf_geom_seq_iff(s: Seq<GeomView>)
    ensures
        wf_geom_seq(s) <==> (forall|i: int| 0 <= i < s.len() ==> wf_geom(#[trigger] s[i])),
    decreases s.len(),
{
    if s.len() > 0 {
        let rest = s.subrange(1, s.len() as int);
        lemma_wf_geom_seq_iff(rest);
        assert forall|i: int| 1 <= i < s.len() implies rest[i - 1] == s[i] by {}
        if wf_geom_seq(s) {
            assert forall|i: int| 0 <= i < s.len() implies wf_geom(#[trigger] s[i]) by {
                if i > 0 {
                    assert(wf_geom(rest[i - 1]));
                }
            }
        }
        if forall|i: int| 0 <= i < s.len() ==> wf_geom(#[trigger] s[i]) {
            assert forall|i: int| 0 <= i < rest.len() implies wf_geom(#[trigger] rest[i]) by {
                assert(rest[i] == s[i + 1]);
            }
        }
    }
}

/// Nesting depth of a geometry: 1 for every kind, plus the deepest member
/// for a collection.
pub open spec fn gdepth(g: GeomView) -> nat
    decreases g,
{
    match g {
        GeomView::GeometryCollection(s) => 1 + gdepth_seq(s),
        _ => 1,
    }
}

/// The deepest nesting depth among the members; 0 for an empty sequence.
pub open spec fn gdepth_seq(s: Seq<GeomView>) -> nat
    decreases s,
{
    if s.len() == 0 {
        0
    } else {
        let d0 = gdepth(s[0]);
        let dr = gdepth_seq(s.subrange(1, s.len() as int));
        if d0 >= dr {
            d0
        } else {
            dr
        }
    }
}

} // verus!
