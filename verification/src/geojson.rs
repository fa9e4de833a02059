//! GeoJSON documents that are not shapes.
//!
//! PostGIS will build a polygon from points that do not meet and a line from
//! one point. A document is checked before it is written, and the rule it
//! breaks is named.

use crate::condition::{place_of, position_of};
use crate::error::{coded_error, coded_refusal, Error, ErrorV};
use crate::json::{
    entries_view, json_ref, jsons, lemma_array_view, lemma_object_view, same_json, Json, JsonV,
};
use crate::text::{cat2, cat5, decimal, decimal_text, owned, same};
use vstd::prelude::*;

verus! {

/// Whether a value is a position: at least two numbers.
pub open spec fn is_position(value: JsonV) -> bool {
    match value {
        JsonV::Array(items) => items.len() >= 2 && forall|i: int|
            0 <= i < items.len() ==> (#[trigger] items[i]) is Number,
        _ => false,
    }
}

/// What is wrong with a list of positions of which there have to be so many.
pub open spec fn positions_fault(value: Option<JsonV>, least: nat, what: Seq<char>) -> Option<
    Seq<char>,
> {
    let too_few = "A "@ + what + " needs at least "@ + decimal(least) + " Positions"@;
    match value {
        Some(JsonV::Array(items)) => if items.len() < least {
            Some(too_few)
        } else if exists|i: int| 0 <= i < items.len() && !is_position(#[trigger] items[i]) {
            Some("A Position needs at least 2 elements"@)
        } else {
            None
        },
        _ => Some(too_few),
    }
}

/// What is wrong with a ring: it needs four positions, and to end where it
/// began.
pub open spec fn ring_fault(value: JsonV) -> Option<Seq<char>> {
    match positions_fault(Some(value), 4, "LinearRing"@) {
        Some(fault) => Some(fault),
        None => if same_json(value->Array_0[0], value->Array_0.last()) {
            None
        } else {
            Some("the first and last locations have to be equal for a LinearRing"@)
        },
    }
}

/// What is wrong with the first faulty ring from the `i`th on.
pub open spec fn rings_fault(rings: Seq<JsonV>, i: nat) -> Option<Seq<char>>
    decreases rings.len() - i,
{
    if i >= rings.len() {
        None
    } else {
        match ring_fault(rings[i as int]) {
            Some(fault) => Some(fault),
            None => rings_fault(rings, i + 1),
        }
    }
}

/// What is wrong with a polygon: a list of rings.
pub open spec fn polygon_fault(value: JsonV) -> Option<Seq<char>> {
    match value {
        JsonV::Array(rings) => rings_fault(rings, 0),
        _ => Some("A LinearRing needs at least 4 Positions"@),
    }
}

/// What is wrong with the first faulty line from the `i`th on.
pub open spec fn lines_fault(lines: Seq<JsonV>, i: nat) -> Option<Seq<char>>
    decreases lines.len() - i,
{
    if i >= lines.len() {
        None
    } else {
        match positions_fault(Some(lines[i as int]), 2, "LineString"@) {
            Some(fault) => Some(fault),
            None => lines_fault(lines, i + 1),
        }
    }
}

/// What is wrong with the first faulty polygon from the `i`th on.
pub open spec fn polygons_fault(polygons: Seq<JsonV>, i: nat) -> Option<Seq<char>>
    decreases polygons.len() - i,
{
    if i >= polygons.len() {
        None
    } else {
        match polygon_fault(polygons[i as int]) {
            Some(fault) => Some(fault),
            None => polygons_fault(polygons, i + 1),
        }
    }
}

/// The items of a list, none for what is not one.
pub open spec fn items_of(value: Option<JsonV>) -> Seq<JsonV> {
    match value {
        Some(JsonV::Array(items)) => items,
        _ => Seq::empty(),
    }
}

/// What is wrong with a document as GeoJSON. What is no object, or has no
/// type, is not GeoJSON and is left alone.
pub open spec fn shape_fault(value: JsonV) -> Option<Seq<char>>
    decreases value,
{
    match value {
        JsonV::Object(map) => {
            let coordinates = value.get("coordinates"@);
            let present = match coordinates {
                Some(c) => c,
                None => JsonV::Null,
            };
            match value.get("type"@) {
                Some(JsonV::String(kind)) => if kind == "Point"@ {
                    if is_position(present) {
                        None
                    } else {
                        Some("A Position needs at least 2 elements"@)
                    }
                } else if kind == "MultiPoint"@ {
                    positions_fault(coordinates, 0, "MultiPoint"@)
                } else if kind == "LineString"@ {
                    positions_fault(coordinates, 2, "LineString"@)
                } else if kind == "MultiLineString"@ {
                    lines_fault(items_of(coordinates), 0)
                } else if kind == "Polygon"@ {
                    polygon_fault(present)
                } else if kind == "MultiPolygon"@ {
                    polygons_fault(items_of(coordinates), 0)
                } else if kind == "GeometryCollection"@ {
                    let k = place_of(map, "geometries"@, 0);
                    if k < map.len() && map[k as int].1 is Array {
                        shapes_fault(map[k as int].1->Array_0, 0)
                    } else {
                        None
                    }
                } else {
                    Some("unexpected geometry type: "@ + kind)
                },
                _ => None,
            }
        },
        _ => None,
    }
}

/// What is wrong with the first faulty shape from the `i`th on.
pub open spec fn shapes_fault(shapes: Seq<JsonV>, i: nat) -> Option<Seq<char>>
    decreases shapes, shapes.len() - i,
{
    if i >= shapes.len() {
        None
    } else {
        match shape_fault(shapes[i as int]) {
            Some(fault) => Some(fault),
            None => shapes_fault(shapes, i + 1),
        }
    }
}

/// The refusal of a document with a fault.
pub open spec fn shape_refusal(fault: Option<Seq<char>>) -> Result<(), ErrorV> {
    match fault {
        Some(message) => Err(coded_refusal("parse-failed"@, message)),
        None => Ok(()),
    }
}

/// What a check reports.
pub open spec fn check_outcome(r: Result<(), Error>) -> Result<(), ErrorV> {
    match r {
        Ok(_) => Ok(()),
        Err(e) => Err(e@),
    }
}

fn refuse(message: String) -> (r: Result<(), Error>)
    ensures
        check_outcome(r) == shape_refusal(Some(message@)),
{
    Err(coded_error("parse-failed", message))
}

fn position(value: &Json) -> (r: bool)
    ensures
        r == is_position(value@),
{
    match value {
        Json::Array(items) => {
            proof {
                lemma_array_view(*items);
            }
            if items.len() < 2 {
                return false;
            }
            let mut i: usize = 0;
            while i < items.len()
                invariant
                    i <= items.len(),
                    value@ == JsonV::Array(jsons(items@)),
                    forall|j: int| 0 <= j < i ==> (#[trigger] jsons(items@)[j]) is Number,
                decreases items.len() - i,
            {
                assert(jsons(items@)[i as int] == items@[i as int]@);
                if !matches!(&items[i], Json::Number(_)) {
                    return false;
                }
                i += 1;
            }
            true
        },
        _ => false,
    }
}

fn check_positions(value: Option<&Json>, least: usize, what: &str) -> (r: Result<(), Error>)
    ensures
        check_outcome(r) == shape_refusal(positions_fault(json_ref(value), least as nat, what@)),
{
    let items = match value {
        Some(Json::Array(items)) => items,
        _ => {
            return refuse(
                cat5("A ", what, " needs at least ", &decimal_text(least as u128), " Positions"),
            );
        },
    };
    proof {
        lemma_array_view(*items);
    }
    if items.len() < least {
        return refuse(
            cat5("A ", what, " needs at least ", &decimal_text(least as u128), " Positions"),
        );
    }
    let mut i: usize = 0;
    while i < items.len()
        invariant
            i <= items.len(),
            items@.len() >= least,
            json_ref(value) == Some(JsonV::Array(jsons(items@))),
            forall|j: int| 0 <= j < i ==> is_position(#[trigger] jsons(items@)[j]),
        decreases items.len() - i,
    {
        assert(jsons(items@)[i as int] == items@[i as int]@);
        if !position(&items[i]) {
            return refuse(owned("A Position needs at least 2 elements"));
        }
        i += 1;
    }
    Ok(())
}

fn check_ring(value: &Json) -> (r: Result<(), Error>)
    ensures
        check_outcome(r) == shape_refusal(ring_fault(value@)),
{
    match check_positions(Some(value), 4, "LinearRing") {
        Ok(_) => {},
        Err(e) => return Err(e),
    }
    match value {
        Json::Array(points) => {
            proof {
                lemma_array_view(*points);
                assert(jsons(points@)[0] == points@[0]@);
                assert(jsons(points@).last() == points@[points@.len() - 1]@);
            }
            if points[0].same_as(&points[points.len() - 1]) {
                Ok(())
            } else {
                refuse(owned("the first and last locations have to be equal for a LinearRing"))
            }
        },
        _ => Ok(()),
    }
}

fn check_polygon(value: &Json) -> (r: Result<(), Error>)
    ensures
        check_outcome(r) == shape_refusal(polygon_fault(value@)),
{
    match value {
        Json::Array(rings) => {
            proof {
                lemma_array_view(*rings);
            }
            let mut i: usize = 0;
            while i < rings.len()
                invariant
                    i <= rings.len(),
                    value@ == JsonV::Array(jsons(rings@)),
                    rings_fault(jsons(rings@), 0) == rings_fault(jsons(rings@), i as nat),
                decreases rings.len() - i,
            {
                assert(jsons(rings@)[i as int] == rings@[i as int]@);
                match check_ring(&rings[i]) {
                    Ok(_) => {},
                    Err(e) => return Err(e),
                }
                i += 1;
            }
            Ok(())
        },
        _ => refuse(owned("A LinearRing needs at least 4 Positions")),
    }
}

fn check_lines(value: Option<&Json>) -> (r: Result<(), Error>)
    ensures
        check_outcome(r) == shape_refusal(lines_fault(items_of(json_ref(value)), 0)),
{
    match value {
        Some(Json::Array(lines)) => {
            proof {
                lemma_array_view(*lines);
            }
            let mut i: usize = 0;
            while i < lines.len()
                invariant
                    i <= lines.len(),
                    items_of(json_ref(value)) == jsons(lines@),
                    lines_fault(jsons(lines@), 0) == lines_fault(jsons(lines@), i as nat),
                decreases lines.len() - i,
            {
                assert(jsons(lines@)[i as int] == lines@[i as int]@);
                match check_positions(Some(&lines[i]), 2, "LineString") {
                    Ok(_) => {},
                    Err(e) => return Err(e),
                }
                i += 1;
            }
            Ok(())
        },
        _ => Ok(()),
    }
}

fn check_polygons(value: Option<&Json>) -> (r: Result<(), Error>)
    ensures
        check_outcome(r) == shape_refusal(polygons_fault(items_of(json_ref(value)), 0)),
{
    match value {
        Some(Json::Array(polygons)) => {
            proof {
                lemma_array_view(*polygons);
            }
            let mut i: usize = 0;
            while i < polygons.len()
                invariant
                    i <= polygons.len(),
                    items_of(json_ref(value)) == jsons(polygons@),
                    polygons_fault(jsons(polygons@), 0) == polygons_fault(
                        jsons(polygons@),
                        i as nat,
                    ),
                decreases polygons.len() - i,
            {
                assert(jsons(polygons@)[i as int] == polygons@[i as int]@);
                match check_polygon(&polygons[i]) {
                    Ok(_) => {},
                    Err(e) => return Err(e),
                }
                i += 1;
            }
            Ok(())
        },
        _ => Ok(()),
    }
}

/// Refuse a GeoJSON document PostGIS would accept and should not.
///
/// A value that is not an object is left alone: a string in a geometry column
/// is another spelling of a shape.
pub fn check_geojson(value: &Json) -> (r: Result<(), Error>)
    ensures
        check_outcome(r) == shape_refusal(shape_fault(value@)),
    decreases value,
{
    let map = match value {
        Json::Object(map) => map,
        _ => return Ok(()),
    };
    proof {
        lemma_object_view(*map);
    }
    let kind = match value.get("type") {
        Some(Json::String(kind)) => kind,
        _ => return Ok(()),
    };
    let coordinates = value.get("coordinates");
    if same(kind, "Point") {
        let found = match coordinates {
            Some(c) => position(c),
            None => false,
        };
        if found {
            Ok(())
        } else {
            refuse(owned("A Position needs at least 2 elements"))
        }
    } else if same(kind, "MultiPoint") {
        check_positions(coordinates, 0, "MultiPoint")
    } else if same(kind, "LineString") {
        check_positions(coordinates, 2, "LineString")
    } else if same(kind, "MultiLineString") {
        check_lines(coordinates)
    } else if same(kind, "Polygon") {
        match coordinates {
            Some(c) => check_polygon(c),
            None => refuse(owned("A LinearRing needs at least 4 Positions")),
        }
    } else if same(kind, "MultiPolygon") {
        check_polygons(coordinates)
    } else if same(kind, "GeometryCollection") {
        match position_of(map, "geometries") {
            None => Ok(()),
            Some(k) => {
                assert(entries_view(map@)[k as int].1 == map@[k as int].1@);
                assert(decreases_to!(*map => map@[k as int]));
                match &map[k].1 {
                    Json::Array(shapes) => {
                        proof {
                            lemma_array_view(*shapes);
                            assert(map@[k as int].1->Array_0 == *shapes);
                        }
                        check_shapes(shapes)
                    },
                    _ => Ok(()),
                }
            },
        }
    } else {
        refuse(cat2("unexpected geometry type: ", kind))
    }
}

fn check_shapes(shapes: &Vec<Json>) -> (r: Result<(), Error>)
    ensures
        check_outcome(r) == shape_refusal(shapes_fault(jsons(shapes@), 0)),
    decreases shapes,
{
    let mut i: usize = 0;
    while i < shapes.len()
        invariant
            i <= shapes.len(),
            shapes_fault(jsons(shapes@), 0) == shapes_fault(jsons(shapes@), i as nat),
        decreases shapes.len() - i,
    {
        assert(decreases_to!(*shapes => shapes@[i as int]));
        assert(jsons(shapes@)[i as int] == shapes@[i as int]@);
        match check_geojson(&shapes[i]) {
            Ok(_) => {},
            Err(e) => return Err(e),
        }
        i += 1;
    }
    Ok(())
}

} // verus!
