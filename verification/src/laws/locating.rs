//! Which documents are shapes.

use crate::condition::place_of;
use crate::geojson::{
    is_position, lines_fault, polygon_fault, polygons_fault, positions_fault, ring_fault,
    rings_fault, shape_fault, shapes_fault,
};
use crate::json::{same_json, JsonV};
use vstd::prelude::*;

verus! {

/// Whether a document is a position: a list of two numbers or more.
pub open spec fn position(value: JsonV) -> bool {
    value is Array && value->Array_0.len() >= 2 && forall|i: int|
        0 <= i < value->Array_0.len() ==> (#[trigger] value->Array_0[i]) is Number
}

/// Whether a document is a list of so many positions or more.
pub open spec fn positions(value: JsonV, least: int) -> bool {
    value is Array && value->Array_0.len() >= least && forall|i: int|
        0 <= i < value->Array_0.len() ==> position(#[trigger] value->Array_0[i])
}

/// Whether a document is a closed line of four positions or more.
pub open spec fn ring(value: JsonV) -> bool {
    positions(value, 4) && same_json(value->Array_0[0], value->Array_0[value->Array_0.len() - 1])
}

/// Whether a document is a list of rings.
pub open spec fn polygon(value: JsonV) -> bool {
    value is Array && forall|i: int|
        0 <= i < value->Array_0.len() ==> ring(#[trigger] value->Array_0[i])
}

proof fn lemma_position(value: JsonV)
    ensures
        is_position(value) == position(value),
{
}

proof fn lemma_positions(value: JsonV, least: nat, what: Seq<char>)
    ensures
        (positions_fault(Some(value), least, what) is None) == positions(value, least as int),
        positions_fault(None, least, what) is Some,
{
    if value is Array {
        let items = value->Array_0;
        assert forall|i: int| 0 <= i < items.len() implies is_position(#[trigger] items[i])
            == position(items[i]) by {
            lemma_position(items[i]);
        }
    }
}

proof fn lemma_ring(value: JsonV)
    ensures
        (ring_fault(value) is None) == ring(value),
{
    lemma_positions(value, 4, "LinearRing"@);
}

proof fn lemma_rings(rings: Seq<JsonV>, i: nat)
    requires
        i <= rings.len(),
    ensures
        (rings_fault(rings, i) is None) == (forall|k: int|
            i <= k < rings.len() ==> ring(#[trigger] rings[k])),
    decreases rings.len() - i,
{
    if i < rings.len() {
        lemma_ring(rings[i as int]);
        lemma_rings(rings, i + 1);
    }
}

proof fn lemma_polygon(value: JsonV)
    ensures
        (polygon_fault(value) is None) == polygon(value),
{
    if value is Array {
        lemma_rings(value->Array_0, 0);
    }
}

proof fn lemma_polygons(polygons: Seq<JsonV>, i: nat)
    requires
        i <= polygons.len(),
    ensures
        (polygons_fault(polygons, i) is None) == (forall|k: int|
            i <= k < polygons.len() ==> polygon(#[trigger] polygons[k])),
    decreases polygons.len() - i,
{
    if i < polygons.len() {
        lemma_polygon(polygons[i as int]);
        lemma_polygons(polygons, i + 1);
    }
}

proof fn lemma_lines(lines: Seq<JsonV>, i: nat)
    requires
        i <= lines.len(),
    ensures
        (lines_fault(lines, i) is None) == (forall|k: int|
            i <= k < lines.len() ==> positions(#[trigger] lines[k], 2)),
    decreases lines.len() - i,
{
    if i < lines.len() {
        lemma_positions(lines[i as int], 2, "LineString"@);
        lemma_lines(lines, i + 1);
    }
}

proof fn lemma_kinds()
    ensures
        "Point"@.len() == 5,
        "MultiPoint"@.len() == 10 && "MultiPoint"@[0] == 'M',
        "LineString"@.len() == 10 && "LineString"@[0] == 'L',
        "MultiLineString"@.len() == 15,
        "Polygon"@.len() == 7,
        "MultiPolygon"@.len() == 12,
        "GeometryCollection"@.len() == 18,
{
    reveal_strlit("Point");
    reveal_strlit("MultiPoint");
    reveal_strlit("LineString");
    reveal_strlit("MultiLineString");
    reveal_strlit("Polygon");
    reveal_strlit("MultiPolygon");
    reveal_strlit("GeometryCollection");
}

/// A shape is sound exactly where its coordinates are of its kind: a point is a
/// position, a line has two positions or more, and a polygon is made of rings;
/// those of many are lists of these.
pub proof fn law_shapes_are_of_their_kind(value: JsonV, kind: Seq<char>, at: JsonV)
    requires
        value is Object,
        value.get("type"@) == Some(JsonV::String(kind)),
        value.get("coordinates"@) == Some(at),
    ensures
        kind == "Point"@ ==> (shape_fault(value) is None) == position(at),
        kind == "MultiPoint"@ ==> (shape_fault(value) is None) == positions(at, 0),
        kind == "LineString"@ ==> (shape_fault(value) is None) == positions(at, 2),
        kind == "Polygon"@ ==> (shape_fault(value) is None) == polygon(at),
        kind == "MultiLineString"@ ==> (shape_fault(value) is None) == (at is Array ==> forall|
            k: int,
        |
            0 <= k < at->Array_0.len() ==> positions(#[trigger] at->Array_0[k], 2)),
        kind == "MultiPolygon"@ ==> (shape_fault(value) is None) == (at is Array ==> forall|k: int|
            0 <= k < at->Array_0.len() ==> polygon(#[trigger] at->Array_0[k])),
{
    lemma_kinds();
    lemma_position(at);
    lemma_positions(at, 0, "MultiPoint"@);
    lemma_positions(at, 2, "LineString"@);
    lemma_polygon(at);
    if at is Array {
        lemma_lines(at->Array_0, 0);
        lemma_polygons(at->Array_0, 0);
    }
}

proof fn lemma_shapes(shapes: Seq<JsonV>, i: nat)
    requires
        i <= shapes.len(),
    ensures
        (shapes_fault(shapes, i) is None) == (forall|k: int|
            i <= k < shapes.len() ==> shape_fault(#[trigger] shapes[k]) is None),
    decreases shapes.len() - i,
{
    if i < shapes.len() {
        lemma_shapes(shapes, i + 1);
    }
}

/// A collection is sound where every shape in it is.
pub proof fn law_collections_hold_sound_shapes(
    map: Seq<(Seq<char>, JsonV)>,
    shapes: Seq<JsonV>,
)
    requires
        JsonV::Object(map).get("type"@) == Some(JsonV::String("GeometryCollection"@)),
        place_of(map, "geometries"@, 0) < map.len(),
        map[place_of(map, "geometries"@, 0) as int].1 == JsonV::Array(shapes),
    ensures
        (shape_fault(JsonV::Object(map)) is None) == (forall|k: int|
            0 <= k < shapes.len() ==> shape_fault(#[trigger] shapes[k]) is None),
{
    lemma_kinds();
    lemma_shapes(shapes, 0);
}

/// A document of no kind that is known is told so, and what names no kind is
/// left for the database to read.
pub proof fn law_other_kinds_are_refused(value: JsonV, kind: Seq<char>)
    ensures
        !(value is Object) ==> shape_fault(value) is None,
        value is Object && !(value.get("type"@) matches Some(JsonV::String(_))) ==> shape_fault(
            value,
        ) is None,
        value is Object && value.get("type"@) == Some(JsonV::String(kind)) && kind != "Point"@
            && kind != "MultiPoint"@ && kind != "LineString"@ && kind != "MultiLineString"@ && kind
            != "Polygon"@ && kind != "MultiPolygon"@ && kind != "GeometryCollection"@
            ==> shape_fault(value) == Some("unexpected geometry type: "@ + kind),
{
}

/// What is wrong with a shape is said of the part that is wrong.
pub proof fn law_faults_name_what_is_missing(value: JsonV, at: JsonV)
    requires
        value is Object,
        value.get("coordinates"@) == Some(at),
    ensures
        value.get("type"@) == Some(JsonV::String("Point"@)) && !position(at) ==> shape_fault(value)
            == Some("A Position needs at least 2 elements"@),
        value.get("type"@) == Some(JsonV::String("LineString"@)) && !(at is Array
            && at->Array_0.len() >= 2) ==> shape_fault(value) == Some(
            "A LineString needs at least 2 Positions"@,
        ),
        value.get("type"@) == Some(JsonV::String("Polygon"@)) && !(at is Array) ==> shape_fault(
            value,
        ) == Some("A LinearRing needs at least 4 Positions"@),
        value.get("type"@) == Some(JsonV::String("Polygon"@)) && at is Array && at->Array_0.len()
            == 1 && positions(at->Array_0[0], 4) && !ring(at->Array_0[0]) ==> shape_fault(value)
            == Some("the first and last locations have to be equal for a LinearRing"@),
        value.get("type"@) == Some(JsonV::String("Polygon"@)) && at is Array && at->Array_0.len()
            == 1 && !(at->Array_0[0] is Array && at->Array_0[0]->Array_0.len() >= 4)
            ==> shape_fault(value) == Some("A LinearRing needs at least 4 Positions"@),
{
    lemma_kinds();
    lemma_position(at);
    lemma_counted_faults();
    if at is Array && at->Array_0.len() == 1 {
        lemma_positions(at->Array_0[0], 4, "LinearRing"@);
        lemma_ring(at->Array_0[0]);
    }
}

proof fn lemma_counted_faults()
    ensures
        "A "@ + "LineString"@ + " needs at least "@ + crate::text::decimal(2) + " Positions"@
            == "A LineString needs at least 2 Positions"@,
        "A "@ + "LinearRing"@ + " needs at least "@ + crate::text::decimal(4) + " Positions"@
            == "A LinearRing needs at least 4 Positions"@,
{
    reveal_strlit("A ");
    reveal_strlit("LineString");
    reveal_strlit("LinearRing");
    reveal_strlit(" needs at least ");
    reveal_strlit(" Positions");
    reveal_strlit("A LineString needs at least 2 Positions");
    reveal_strlit("A LinearRing needs at least 4 Positions");
    assert(crate::text::decimal(2) =~= seq!['2']);
    assert(crate::text::decimal(4) =~= seq!['4']);
    assert("A "@ + "LineString"@ + " needs at least "@ + seq!['2'] + " Positions"@
        =~= "A LineString needs at least 2 Positions"@);
    assert("A "@ + "LinearRing"@ + " needs at least "@ + seq!['4'] + " Positions"@
        =~= "A LinearRing needs at least 4 Positions"@);
}

} // verus!
