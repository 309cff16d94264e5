//! The land outlines of the map, read from a GeoJSON file.

use vstd::prelude::*;

use geojson::{GeoJson, GeometryValue, Position};

use crate::ieee::Double;

verus! {

/// A position: longitude and latitude, as a list of numbers.
#[verifier::external_type_specification]
#[verifier::external_body]
pub struct ExPosition(geojson::Position);

/// The numbers that a position holds, in order.
pub uninterp spec fn position_numbers(p: geojson::Position) -> Seq<Double>;

/// `Position::as_slice`: the numbers of the position, in order, each taken by
/// its bit pattern.
#[verifier::external_body]
fn numbers_of(p: &Position) -> (numbers: Vec<Double>)
    ensures
        numbers@ == position_numbers(*p),
{
    p.as_slice().iter().map(|x| Double { bits: x.to_bits() }).collect()
}

/// A ring, as it is parsed.
type ParsedRing = Vec<Position>;

/// The geometry of a feature, as it is parsed.
enum ParsedShape {
    Point,
    MultiPoint,
    LineString,
    MultiLineString,
    Polygon(Vec<ParsedRing>),
    MultiPolygon(Vec<Vec<ParsedRing>>),
    GeometryCollection,
}

/// A GeoJSON document, as it is parsed.
enum ParsedFile {
    Geometry,
    Feature,
    FeatureCollection(Vec<Option<ParsedShape>>),
}

/// The geometry of a feature. A position is the list of its numbers, a ring a
/// list of positions, a polygon a list of rings.
#[derive(Debug)]
pub enum Shape {
    Point,
    MultiPoint,
    LineString,
    MultiLineString,
    Polygon(Vec<Vec<Vec<Double>>>),
    MultiPolygon(Vec<Vec<Vec<Vec<Double>>>>),
    GeometryCollection,
}

/// A GeoJSON document, as far as the map depends on it. The features of a
/// collection are given by their geometries, if they have one.
#[derive(Debug)]
pub enum MapFile {
    Geometry,
    Feature,
    FeatureCollection(Vec<Option<Shape>>),
}

/// What a [`Shape`] says.
#[verifier::ext_equal]
pub enum ShapeView {
    Point,
    MultiPoint,
    LineString,
    MultiLineString,
    Polygon(Seq<Seq<Seq<Double>>>),
    MultiPolygon(Seq<Seq<Seq<Seq<Double>>>>),
    GeometryCollection,
}

/// What a [`MapFile`] says.
#[verifier::ext_equal]
pub enum MapFileView {
    Geometry,
    Feature,
    FeatureCollection(Seq<Option<ShapeView>>),
}

/// The rings of a polygon as sequences.
pub open spec fn polygon_view(polygon: Vec<Vec<Vec<Double>>>) -> Seq<Seq<Seq<Double>>> {
    polygon@.map_values(|ring: Vec<Vec<Double>>| ring@.map_values(|p: Vec<Double>| p@))
}

impl View for Shape {
    type V = ShapeView;

    open spec fn view(&self) -> ShapeView {
        match *self {
            Shape::Point => ShapeView::Point,
            Shape::MultiPoint => ShapeView::MultiPoint,
            Shape::LineString => ShapeView::LineString,
            Shape::MultiLineString => ShapeView::MultiLineString,
            Shape::Polygon(rings) => ShapeView::Polygon(polygon_view(rings)),
            Shape::MultiPolygon(polygons) => ShapeView::MultiPolygon(
                polygons@.map_values(|polygon: Vec<Vec<Vec<Double>>>| polygon_view(polygon)),
            ),
            Shape::GeometryCollection => ShapeView::GeometryCollection,
        }
    }
}

/// The view of a geometry, if there is one.
pub open spec fn shape_view(shape: Option<Shape>) -> Option<ShapeView> {
    match shape {
        Some(s) => Some(s@),
        None => None,
    }
}

impl View for MapFile {
    type V = MapFileView;

    open spec fn view(&self) -> MapFileView {
        match *self {
            MapFile::Geometry => MapFileView::Geometry,
            MapFile::Feature => MapFileView::Feature,
            MapFile::FeatureCollection(features) => MapFileView::FeatureCollection(
                features@.map_values(|shape: Option<Shape>| shape_view(shape)),
            ),
        }
    }
}

spec fn parsed_polygon(polygon: Vec<ParsedRing>) -> Seq<Seq<Seq<Double>>> {
    polygon@.map_values(|ring: ParsedRing| ring@.map_values(|p: Position| position_numbers(p)))
}

spec fn parsed_shape(shape: Option<ParsedShape>) -> Option<ShapeView> {
    match shape {
        None => None,
        Some(ParsedShape::Point) => Some(ShapeView::Point),
        Some(ParsedShape::MultiPoint) => Some(ShapeView::MultiPoint),
        Some(ParsedShape::LineString) => Some(ShapeView::LineString),
        Some(ParsedShape::MultiLineString) => Some(ShapeView::MultiLineString),
        Some(ParsedShape::Polygon(rings)) => Some(ShapeView::Polygon(parsed_polygon(rings))),
        Some(ParsedShape::MultiPolygon(polygons)) => Some(
            ShapeView::MultiPolygon(
                polygons@.map_values(|polygon: Vec<ParsedRing>| parsed_polygon(polygon)),
            ),
        ),
        Some(ParsedShape::GeometryCollection) => Some(ShapeView::GeometryCollection),
    }
}

spec fn parsed_file(file: Option<ParsedFile>) -> Option<MapFileView> {
    match file {
        None => None,
        Some(ParsedFile::Geometry) => Some(MapFileView::Geometry),
        Some(ParsedFile::Feature) => Some(MapFileView::Feature),
        Some(ParsedFile::FeatureCollection(features)) => Some(
            MapFileView::FeatureCollection(
                features@.map_values(|shape: Option<ParsedShape>| parsed_shape(shape)),
            ),
        ),
    }
}

/// The document that a file of these bytes holds, if it is a GeoJSON document.
pub uninterp spec fn map_file(data: Seq<u8>) -> Option<MapFileView>;

/// `GeoJson::from_reader`: parses a GeoJSON document. The contract says that
/// what it finds depends on the bytes alone; the grammar is left to the parser.
#[verifier::external_body]
fn parse_file(data: &Vec<u8>) -> (file: Option<ParsedFile>)
    ensures
        parsed_file(file) == map_file(data@),
{
    let shape = |value: GeometryValue| match value {
        GeometryValue::Point { .. } => ParsedShape::Point,
        GeometryValue::MultiPoint { .. } => ParsedShape::MultiPoint,
        GeometryValue::LineString { .. } => ParsedShape::LineString,
        GeometryValue::MultiLineString { .. } => ParsedShape::MultiLineString,
        GeometryValue::Polygon { coordinates } => ParsedShape::Polygon(coordinates),
        GeometryValue::MultiPolygon { coordinates } => ParsedShape::MultiPolygon(coordinates),
        GeometryValue::GeometryCollection { .. } => ParsedShape::GeometryCollection,
    };
    match GeoJson::from_reader(data.as_slice()).ok()? {
        GeoJson::Geometry(_) => Some(ParsedFile::Geometry),
        GeoJson::Feature(_) => Some(ParsedFile::Feature),
        GeoJson::FeatureCollection(c) => Some(ParsedFile::FeatureCollection(
            c.features.into_iter().map(|f| Some(shape(f.geometry?.value))).collect())),
    }
}

/// Takes the numbers out of the positions of a polygon.
fn plain_polygon(polygon: &Vec<ParsedRing>) -> (out: Vec<Vec<Vec<Double>>>)
    ensures
        polygon_view(out) == parsed_polygon(*polygon),
{
    let mut out: Vec<Vec<Vec<Double>>> = Vec::new();
    let mut i: usize = 0;
    while i < polygon.len()
        invariant
            i <= polygon@.len(),
            out@.len() == i,
            forall|k: int|
                0 <= k < i ==> (#[trigger] out@[k])@.map_values(|p: Vec<Double>| p@)
                    == polygon@[k]@.map_values(|p: Position| position_numbers(p)),
        decreases polygon@.len() - i,
    {
        let ring: &ParsedRing = &polygon[i];
        let mut numbers: Vec<Vec<Double>> = Vec::new();
        let mut j: usize = 0;
        while j < ring.len()
            invariant
                j <= ring@.len(),
                numbers@.len() == j,
                forall|k: int|
                    0 <= k < j ==> (#[trigger] numbers@[k])@ == position_numbers(ring@[k]),
            decreases ring@.len() - j,
        {
            numbers.push(numbers_of(&ring[j]));
            j = j + 1;
        }
        assert(numbers@.map_values(|p: Vec<Double>| p@) =~= ring@.map_values(
            |p: Position| position_numbers(p),
        ));
        out.push(numbers);
        i = i + 1;
    }
    assert(polygon_view(out) =~= parsed_polygon(*polygon));
    out
}

/// Takes the numbers out of the positions of a geometry.
fn plain_shape(shape: &Option<ParsedShape>) -> (out: Option<Shape>)
    ensures
        shape_view(out) == parsed_shape(*shape),
{
    match shape {
        None => None,
        Some(ParsedShape::Point) => Some(Shape::Point),
        Some(ParsedShape::MultiPoint) => Some(Shape::MultiPoint),
        Some(ParsedShape::LineString) => Some(Shape::LineString),
        Some(ParsedShape::MultiLineString) => Some(Shape::MultiLineString),
        Some(ParsedShape::Polygon(rings)) => Some(Shape::Polygon(plain_polygon(rings))),
        Some(ParsedShape::MultiPolygon(polygons)) => {
            let mut all: Vec<Vec<Vec<Vec<Double>>>> = Vec::new();
            let mut i: usize = 0;
            while i < polygons.len()
                invariant
                    i <= polygons@.len(),
                    all@.len() == i,
                    forall|k: int|
                        0 <= k < i ==> polygon_view(#[trigger] all@[k]) == parsed_polygon(
                            polygons@[k],
                        ),
                decreases polygons@.len() - i,
            {
                all.push(plain_polygon(&polygons[i]));
                i = i + 1;
            }
            assert(all@.map_values(|polygon: Vec<Vec<Vec<Double>>>| polygon_view(polygon))
                =~= polygons@.map_values(|polygon: Vec<ParsedRing>| parsed_polygon(polygon)));
            Some(Shape::MultiPolygon(all))
        },
        Some(ParsedShape::GeometryCollection) => Some(Shape::GeometryCollection),
    }
}

/// The view of a document, if there is one.
pub open spec fn file_view(file: Option<MapFile>) -> Option<MapFileView> {
    match file {
        Some(f) => Some(f@),
        None => None,
    }
}

/// Reads the document in a file, given the bytes of the file.
pub fn read_map_file(data: &Vec<u8>) -> (file: Option<MapFile>)
    ensures
        file_view(file) == map_file(data@),
{
    match parse_file(data) {
        None => None,
        Some(ParsedFile::Geometry) => Some(MapFile::Geometry),
        Some(ParsedFile::Feature) => Some(MapFile::Feature),
        Some(ParsedFile::FeatureCollection(features)) => {
            let mut all: Vec<Option<Shape>> = Vec::new();
            let mut i: usize = 0;
            while i < features.len()
                invariant
                    i <= features@.len(),
                    all@.len() == i,
                    forall|k: int|
                        0 <= k < i ==> shape_view(#[trigger] all@[k]) == parsed_shape(
                            features@[k],
                        ),
                decreases features@.len() - i,
            {
                all.push(plain_shape(&features[i]));
                i = i + 1;
            }
            assert(all@.map_values(|shape: Option<Shape>| shape_view(shape))
                =~= features@.map_values(|shape: Option<ParsedShape>| parsed_shape(shape)));
            Some(MapFile::FeatureCollection(all))
        },
    }
}

// ---------------------------------------------------------------------------
// From the document to the outlines
// ---------------------------------------------------------------------------

/// A corner of an outline.
#[derive(Clone, Copy, Debug, PartialEq, Eq, Structural)]
pub struct Corner {
    pub lon: Double,
    pub lat: Double,
}

/// The corners of a ring: its positions, but those that lack a coordinate.
/// Numbers behind the coordinates, such as a height, do not count.
pub open spec fn corners(ring: Seq<Seq<Double>>) -> Seq<Corner>
    decreases ring.len(),
{
    if ring.len() == 0 {
        Seq::empty()
    } else {
        let before = corners(ring.drop_last());
        let last = ring.last();
        if last.len() >= 2 {
            before.push(Corner { lon: last[0], lat: last[1] })
        } else {
            before
        }
    }
}

/// The rings of a polygon.
pub open spec fn rings(polygon: Seq<Seq<Seq<Double>>>) -> Seq<Seq<Corner>> {
    polygon.map_values(|ring: Seq<Seq<Double>>| corners(ring))
}

/// The rings of several polygons, one polygon after the other.
pub open spec fn rings_of_all(polygons: Seq<Seq<Seq<Seq<Double>>>>) -> Seq<Seq<Corner>>
    decreases polygons.len(),
{
    if polygons.len() == 0 {
        Seq::empty()
    } else {
        rings_of_all(polygons.drop_last()) + rings(polygons.last())
    }
}

/// The outline of a feature: the rings of its polygons. A feature without a
/// polygon has an empty one.
pub open spec fn outline(shape: Option<ShapeView>) -> Seq<Seq<Corner>> {
    match shape {
        Some(ShapeView::Polygon(polygon)) => rings(polygon),
        Some(ShapeView::MultiPolygon(polygons)) => rings_of_all(polygons),
        _ => Seq::empty(),
    }
}

/// Why there are no outlines.
#[derive(Clone, Copy, Debug, PartialEq, Eq, Structural)]
pub enum OutlineError {
    /// The file holds no GeoJSON document.
    Unreadable,
    /// The document is no collection of features.
    NotACollection,
}

/// The outlines that a document holds, one for each of its features.
pub open spec fn outlines_in(file: Option<MapFileView>) -> Result<
    Seq<Seq<Seq<Corner>>>,
    OutlineError,
> {
    match file {
        None => Err(OutlineError::Unreadable),
        Some(MapFileView::FeatureCollection(features)) => Ok(
            features.map_values(|shape: Option<ShapeView>| outline(shape)),
        ),
        Some(_) => Err(OutlineError::NotACollection),
    }
}

/// An outline as sequences.
pub open spec fn outline_view(outline: Vec<Vec<Corner>>) -> Seq<Seq<Corner>> {
    outline@.map_values(|ring: Vec<Corner>| ring@)
}

/// Outlines, or the reason why there are none, as sequences.
pub open spec fn outlines_view(found: Result<Vec<Vec<Vec<Corner>>>, OutlineError>) -> Result<
    Seq<Seq<Seq<Corner>>>,
    OutlineError,
> {
    match found {
        Ok(all) => Ok(all@.map_values(|outline: Vec<Vec<Corner>>| outline_view(outline))),
        Err(e) => Err(e),
    }
}

/// Appends the rings of a polygon to an outline.
fn add_rings(out: &mut Vec<Vec<Corner>>, polygon: &Vec<Vec<Vec<Double>>>)
    ensures
        outline_view(*final(out)) == outline_view(*old(out)) + rings(polygon_view(*polygon)),
{
    let ghost before = out@;
    let ghost model = polygon_view(*polygon);
    let mut i: usize = 0;
    while i < polygon.len()
        invariant
            i <= polygon@.len(),
            before == old(out)@,
            model == polygon_view(*polygon),
            out@.len() == before.len() + i,
            forall|k: int| 0 <= k < before.len() ==> #[trigger] out@[k] == before[k],
            forall|k: int|
                before.len() <= k < out@.len() ==> (#[trigger] out@[k])@ == corners(
                    model[k - before.len()],
                ),
        decreases polygon@.len() - i,
    {
        let ring: &Vec<Vec<Double>> = &polygon[i];
        let ghost positions = model[i as int];
        let mut found: Vec<Corner> = Vec::new();
        let mut j: usize = 0;
        assert(positions.take(0) =~= Seq::empty());
        while j < ring.len()
            invariant
                j <= ring@.len(),
                positions == ring@.map_values(|p: Vec<Double>| p@),
                found@ == corners(positions.take(j as int)),
            decreases ring@.len() - j,
        {
            let p: &Vec<Double> = &ring[j];
            assert(positions.take(j + 1).drop_last() =~= positions.take(j as int));
            if p.len() >= 2 {
                found.push(Corner { lon: p[0], lat: p[1] });
            }
            j = j + 1;
        }
        assert(positions.take(ring@.len() as int) =~= positions);
        out.push(found);
        i = i + 1;
    }
    assert(outline_view(*out) =~= outline_view(*old(out)) + rings(model));
}

/// Finds the outline of a feature.
fn outline_of(shape: &Option<Shape>) -> (out: Vec<Vec<Corner>>)
    ensures
        outline_view(out) == outline(shape_view(*shape)),
{
    let mut out: Vec<Vec<Corner>> = Vec::new();
    assert(outline_view(out) =~= Seq::empty());
    match shape {
        Some(Shape::Polygon(polygon)) => {
            add_rings(&mut out, polygon);
            assert(outline_view(out) =~= rings(polygon_view(*polygon)));
        },
        Some(Shape::MultiPolygon(polygons)) => {
            let ghost model = polygons@.map_values(
                |polygon: Vec<Vec<Vec<Double>>>| polygon_view(polygon),
            );
            let mut i: usize = 0;
            assert(model.take(0) =~= Seq::empty());
            while i < polygons.len()
                invariant
                    i <= polygons@.len(),
                    model == polygons@.map_values(
                        |polygon: Vec<Vec<Vec<Double>>>| polygon_view(polygon),
                    ),
                    outline_view(out) == rings_of_all(model.take(i as int)),
                decreases polygons@.len() - i,
            {
                add_rings(&mut out, &polygons[i]);
                assert(model.take(i + 1).drop_last() =~= model.take(i as int));
                i = i + 1;
            }
            assert(model.take(polygons@.len() as int) =~= model);
        },
        _ => {},
    }
    out
}

/// Finds the outlines in a document: only collections of features have any,
/// and only polygons contribute.
pub fn outlines(file: &Option<MapFile>) -> (found: Result<Vec<Vec<Vec<Corner>>>, OutlineError>)
    ensures
        outlines_view(found) == outlines_in(file_view(*file)),
{
    match file {
        None => Err(OutlineError::Unreadable),
        Some(MapFile::FeatureCollection(features)) => {
            let mut all: Vec<Vec<Vec<Corner>>> = Vec::new();
            let mut i: usize = 0;
            while i < features.len()
                invariant
                    i <= features@.len(),
                    all@.len() == i,
                    forall|k: int|
                        0 <= k < i ==> outline_view(#[trigger] all@[k]) == outline(
                            shape_view(features@[k]),
                        ),
                decreases features@.len() - i,
            {
                all.push(outline_of(&features[i]));
                i = i + 1;
            }
            assert(all@.map_values(|outline: Vec<Vec<Corner>>| outline_view(outline))
                =~= features@.map_values(|shape: Option<Shape>| shape_view(shape)).map_values(
                |shape: Option<ShapeView>| outline(shape),
            ));
            Ok(all)
        },
        Some(MapFile::Feature) => Err(OutlineError::NotACollection),
        Some(MapFile::Geometry) => Err(OutlineError::NotACollection),
    }
}

/// Reads the land outlines, given the bytes of the file that holds them.
pub fn read_outlines(data: &Vec<u8>) -> (found: Result<Vec<Vec<Vec<Corner>>>, OutlineError>)
    ensures
        outlines_view(found) == outlines_in(map_file(data@)),
{
    outlines(&read_map_file(data))
}

/// A position becomes a corner if it has a longitude and a latitude, in that
/// order; what else it has is left out. Positions with less are skipped.
pub proof fn positions_become_corners(ring: Seq<Seq<Double>>, p: Seq<Double>)
    ensures
        corners(Seq::<Seq<Double>>::empty()).len() == 0,
        p.len() >= 2 ==> corners(ring.push(p)) == corners(ring).push(Corner { lon: p[0], lat: p[1] }),
        p.len() < 2 ==> corners(ring.push(p)) == corners(ring),
{
    assert(ring.push(p).drop_last() =~= ring);
}

/// A polygon has an outline with one ring of corners for each of its rings.
pub proof fn polygons_are_outlined_ring_by_ring(polygon: Seq<Seq<Seq<Double>>>, i: int)
    requires
        0 <= i < polygon.len(),
    ensures
        outline(Some(ShapeView::Polygon(polygon))).len() == polygon.len(),
        outline(Some(ShapeView::Polygon(polygon)))[i] == corners(polygon[i]),
{
}

/// Several polygons have the rings of the first, then those of the second and
/// so on; one polygon is outlined as it is alone.
pub proof fn polygons_are_outlined_one_by_one(
    polygons: Seq<Seq<Seq<Seq<Double>>>>,
    polygon: Seq<Seq<Seq<Double>>>,
)
    ensures
        outline(Some(ShapeView::MultiPolygon(Seq::empty()))).len() == 0,
        outline(Some(ShapeView::MultiPolygon(polygons.push(polygon)))) == outline(
            Some(ShapeView::MultiPolygon(polygons)),
        ) + outline(Some(ShapeView::Polygon(polygon))),
{
    assert(polygons.push(polygon).drop_last() =~= polygons);
}

/// What is no polygon has no outline.
pub proof fn only_polygons_have_outlines(shape: Option<ShapeView>)
    requires
        shape matches Some(s) ==> !(s is Polygon) && !(s is MultiPolygon),
    ensures
        outline(shape).len() == 0,
{
}

/// A collection has one outline for each of its features. What cannot be read,
/// and what is no collection, has none, and the error tells which.
pub proof fn features_are_outlined_one_by_one(file: Option<MapFileView>, i: int)
    ensures
        outlines_in(file) is Ok <==> file is Some && file->0 is FeatureCollection,
        outlines_in(file) == Err::<Seq<Seq<Seq<Corner>>>, OutlineError>(OutlineError::Unreadable)
            <==> file is None,
        file matches Some(MapFileView::FeatureCollection(features)) ==> {
            &&& outlines_in(file)->Ok_0.len() == features.len()
            &&& 0 <= i < features.len() ==> outlines_in(file)->Ok_0[i] == outline(features[i])
        },
{
}

} // verus!
