//! One comparison of a boolean expression, as SQL.

use crate::binds::{bind, binds, bound, placeholder, BindsV};
use crate::error::{plain_refusal, Error, ErrorV};
use crate::json::{entries_view, json_text, jsons, lemma_array_view, lemma_object_view, Json, JsonV};
use crate::lookup::{find_named, find_pair, named, paired, Named};
use crate::text::{
    cat10, cat2, cat3, cat4, cat5, cat6, cat7, cat8, ends_with, has_suffix, join, joined, no_texts,
    owned, push_text, same, str_opt, texts,
};
use vstd::prelude::*;

verus! {

/// What comparing or binding yields: the SQL and the state after it, or the
/// refusal and the state it was met in.
pub type SqlV = Result<(Seq<char>, BindsV), (ErrorV, BindsV)>;

/// Several pieces of SQL and the state after them, or the refusal, the pieces
/// before it and the state it was met in.
pub type PartsV = Result<(Seq<Seq<char>>, BindsV), (ErrorV, Seq<Seq<char>>, BindsV)>;

/// A comparison of label trees: the operator and the type of its operand.
pub struct TreeOperator {
    pub name: String,
    pub operator: String,
    pub cast: String,
}

impl Named for TreeOperator {
    open spec fn called(&self) -> Seq<char> {
        self.name@
    }

    fn is_called(&self, name: &str) -> (r: bool) {
        same(&self.name, name)
    }
}

/// The words of a request that stand for SQL the schema offers.
pub struct Vocabulary {
    /// Spatial comparisons and the PostGIS functions they are.
    pub spatial: Vec<(String, String)>,
    /// Comparisons of label trees.
    pub trees: Vec<TreeOperator>,
    /// Sort directions and the SQL they are.
    pub directions: Vec<(String, String)>,
    /// The aggregates that take a column, by the names they are asked for.
    pub aggregates: Vec<String>,
}

/// What a function that binds values reports: its SQL or the refusal, and the
/// state it left.
pub open spec fn outcome(r: Result<String, Error>, param_idx: usize, values: Seq<Json>) -> SqlV {
    match r {
        Ok(sql) => Ok((sql@, binds(param_idx, values))),
        Err(e) => Err((e@, binds(param_idx, values))),
    }
}

// ---------------------------------------------------------------------------
// Arrays
// ---------------------------------------------------------------------------

/// The placeholders of the items from the `i`th on, after those in `parts`.
pub open spec fn item_placeholders(
    items: Seq<JsonV>,
    i: nat,
    parts: Seq<Seq<char>>,
    at: BindsV,
) -> (Seq<Seq<char>>, BindsV)
    decreases items.len() - i,
{
    if i >= items.len() {
        (parts, at)
    } else {
        item_placeholders(items, i + 1, parts.push(placeholder(at)), bound(at, items[i as int]))
    }
}

/// A list as an array constructor of that type, each item bound on its own.
pub open spec fn array_of(items: Seq<JsonV>, cast: Seq<char>, at: BindsV) -> (Seq<char>, BindsV) {
    if items.len() == 0 {
        ("ARRAY[]::"@ + cast, at)
    } else {
        let (parts, end) = item_placeholders(items, 0, Seq::empty(), at);
        ("ARRAY["@ + joined(parts, ", "@) + "]::"@ + cast, end)
    }
}

/// A list of values as an array PostgreSQL will read, bound one element at a
/// time.
pub fn sql_array(
    items: &Vec<Json>,
    cast: &str,
    param_idx: &mut usize,
    values: &mut Vec<Json>,
) -> (r: String)
    ensures
        (r@, binds(*final(param_idx), final(values)@)) == array_of(
            jsons(items@),
            cast@,
            binds(*old(param_idx), old(values)@),
        ),
{
    if items.len() == 0 {
        return cat2("ARRAY[]::", cast);
    }
    let ghost start = binds(*param_idx, values@);
    let mut parts = no_texts();
    let mut i: usize = 0;
    while i < items.len()
        invariant
            i <= items.len(),
            item_placeholders(jsons(items@), 0, Seq::empty(), start) == item_placeholders(
                jsons(items@),
                i as nat,
                texts(parts@),
                binds(*param_idx, values@),
            ),
        decreases items.len() - i,
    {
        let text = bind(param_idx, values, items[i].copy());
        push_text(&mut parts, text);
        i += 1;
    }
    cat4("ARRAY[", &join(&parts, ", "), "]::", cast)
}

// ---------------------------------------------------------------------------
// Spatial comparisons
// ---------------------------------------------------------------------------

/// A bound shape: the GeoJSON behind a placeholder, as the type of the column.
pub open spec fn shape_sql(geography: bool, at: BindsV) -> Seq<char> {
    if geography {
        "ST_GeomFromGeoJSON("@ + placeholder(at) + ")::geography"@
    } else {
        "ST_GeomFromGeoJSON("@ + placeholder(at) + ")"@
    }
}

fn bind_shape(geography: bool, value: &Json, param_idx: &mut usize, values: &mut Vec<Json>) -> (r:
    String)
    ensures
        r@ == shape_sql(geography, binds(*old(param_idx), old(values)@)),
        binds(*final(param_idx), final(values)@) == bound(
            binds(*old(param_idx), old(values)@),
            value@,
        ),
{
    let text = bind(param_idx, values, value.copy());
    if geography {
        cat3("ST_GeomFromGeoJSON(", &text, ")::geography")
    } else {
        cat3("ST_GeomFromGeoJSON(", &text, ")")
    }
}

/// `{distance, from}`: whether a shape lies within a distance of another. Over
/// geography the request may say whether to measure on the spheroid.
pub open spec fn within_distance(
    quoted: Seq<char>,
    geography: bool,
    function: Seq<char>,
    op: Seq<char>,
    operand: JsonV,
    at: BindsV,
) -> SqlV {
    if !(operand is Object) {
        Err((plain_refusal("\""@ + op + "\" takes {distance, from}"@), at))
    } else if operand.get("from"@) is None {
        Err((plain_refusal("\""@ + op + "\" needs a shape to measure from"@), at))
    } else if operand.get("distance"@) is None {
        Err((plain_refusal("\""@ + op + "\" needs a distance"@), at))
    } else {
        let shaped = bound(at, operand.get("from"@)->0);
        let measured = bound(shaped, operand.get("distance"@)->0);
        if geography && operand.present("use_spheroid"@) is Some {
            Ok(
                (
                    function + "("@ + quoted + ", "@ + shape_sql(geography, at) + ", "@
                        + placeholder(shaped) + "::float8"@ + (", "@ + placeholder(measured)
                        + "::boolean"@) + ")"@,
                    bound(measured, operand.present("use_spheroid"@)->0),
                ),
            )
        } else {
            Ok(
                (
                    function + "("@ + quoted + ", "@ + shape_sql(geography, at) + ", "@
                        + placeholder(shaped) + "::float8"@ + ""@ + ")"@,
                    measured,
                ),
            )
        }
    }
}

/// A raster against a shape, in one band or in any.
pub open spec fn within_band(
    quoted: Seq<char>,
    geography: bool,
    function: Seq<char>,
    op: Seq<char>,
    operand: JsonV,
    at: BindsV,
) -> SqlV {
    if !(operand is Object) {
        Err((plain_refusal("\""@ + op + "\" takes an object"@), at))
    } else if operand.get("geommin"@) is None {
        Err((plain_refusal("\""@ + op + "\" needs a shape"@), at))
    } else {
        let shaped = bound(at, operand.get("geommin"@)->0);
        match operand.present("nband"@) {
            None => Ok(
                (function + "("@ + quoted + ", "@ + shape_sql(geography, at) + ")"@, shaped),
            ),
            Some(band) => Ok(
                (
                    function + "("@ + quoted + ", "@ + placeholder(shaped) + "::int, "@
                        + shape_sql(geography, at) + ")"@,
                    bound(shaped, band),
                ),
            ),
        }
    }
}

/// A spatial comparison as a call of a PostGIS function.
pub open spec fn spatial_sql(
    quoted: Seq<char>,
    column_type: Option<Seq<char>>,
    function: Seq<char>,
    op: Seq<char>,
    operand: JsonV,
    at: BindsV,
) -> SqlV {
    let geography = column_type == Some("geography"@);
    if op == "_st_d_within"@ || op == "_st_3d_d_within"@ {
        within_distance(quoted, geography, function, op, operand, at)
    } else if op == "_st_intersects_rast"@ {
        Ok(
            (
                function + "("@ + quoted + ", "@ + placeholder(at) + "::raster)"@,
                bound(at, operand),
            ),
        )
    } else if op == "_st_intersects_geom_nband"@ || op == "_st_intersects_nband_geom"@ {
        within_band(quoted, geography, function, op, operand, at)
    } else {
        Ok(
            (
                function + "("@ + quoted + ", "@ + shape_sql(geography, at) + ")"@,
                bound(at, operand),
            ),
        )
    }
}

fn is_geography(column_type: Option<&str>) -> (r: bool)
    ensures
        r == (str_opt(column_type) == Some("geography"@)),
{
    match column_type {
        Some(t) => same(t, "geography"),
        None => false,
    }
}

fn distance_sql(
    quoted: &str,
    geography: bool,
    function: &str,
    op: &str,
    operand: &Json,
    param_idx: &mut usize,
    values: &mut Vec<Json>,
) -> (r: Result<String, Error>)
    ensures
        outcome(r, *final(param_idx), final(values)@) == within_distance(
            quoted@,
            geography,
            function@,
            op@,
            operand@,
            binds(*old(param_idx), old(values)@),
        ),
{
    if !matches!(operand, Json::Object(_)) {
        return Err(Error::new(cat3("\"", op, "\" takes {distance, from}")));
    }
    let from = match operand.get("from") {
        Some(from) => from,
        None => return Err(Error::new(cat3("\"", op, "\" needs a shape to measure from"))),
    };
    let distance = match operand.get("distance") {
        Some(distance) => distance,
        None => return Err(Error::new(cat3("\"", op, "\" needs a distance"))),
    };
    let from_sql = bind_shape(geography, from, param_idx, values);
    let distance_text = bind(param_idx, values, distance.copy());
    let spheroid = match operand.present("use_spheroid") {
        Some(use_spheroid) => if geography {
            let text = bind(param_idx, values, use_spheroid.copy());
            cat3(", ", &text, "::boolean")
        } else {
            owned("")
        },
        None => owned(""),
    };
    Ok(
        cat10(
            function,
            "(",
            quoted,
            ", ",
            &from_sql,
            ", ",
            &distance_text,
            "::float8",
            &spheroid,
            ")",
        ),
    )
}

fn band_sql(
    quoted: &str,
    geography: bool,
    function: &str,
    op: &str,
    operand: &Json,
    param_idx: &mut usize,
    values: &mut Vec<Json>,
) -> (r: Result<String, Error>)
    ensures
        outcome(r, *final(param_idx), final(values)@) == within_band(
            quoted@,
            geography,
            function@,
            op@,
            operand@,
            binds(*old(param_idx), old(values)@),
        ),
{
    if !matches!(operand, Json::Object(_)) {
        return Err(Error::new(cat3("\"", op, "\" takes an object")));
    }
    let geometry = match operand.get("geommin") {
        Some(geometry) => geometry,
        None => return Err(Error::new(cat3("\"", op, "\" needs a shape"))),
    };
    let geometry_sql = bind_shape(geography, geometry, param_idx, values);
    match operand.present("nband") {
        None => Ok(cat6(function, "(", quoted, ", ", &geometry_sql, ")")),
        Some(band) => {
            let text = bind(param_idx, values, band.copy());
            Ok(cat8(function, "(", quoted, ", ", &text, "::int, ", &geometry_sql, ")"))
        },
    }
}

/// One spatial comparison, as a PostGIS call. The operand arrives as GeoJSON
/// and is parsed as the column's own kind of shape.
pub fn postgis_sql(
    quoted: &str,
    column_type: Option<&str>,
    function: &str,
    op: &str,
    operand: &Json,
    param_idx: &mut usize,
    values: &mut Vec<Json>,
) -> (r: Result<String, Error>)
    ensures
        outcome(r, *final(param_idx), final(values)@) == spatial_sql(
            quoted@,
            str_opt(column_type),
            function@,
            op@,
            operand@,
            binds(*old(param_idx), old(values)@),
        ),
{
    let geography = is_geography(column_type);
    if same(op, "_st_d_within") || same(op, "_st_3d_d_within") {
        distance_sql(quoted, geography, function, op, operand, param_idx, values)
    } else if same(op, "_st_intersects_rast") {
        let text = bind(param_idx, values, operand.copy());
        Ok(cat6(function, "(", quoted, ", ", &text, "::raster)"))
    } else if same(op, "_st_intersects_geom_nband") || same(op, "_st_intersects_nband_geom") {
        band_sql(quoted, geography, function, op, operand, param_idx, values)
    } else {
        let other = bind_shape(geography, operand, param_idx, values);
        Ok(cat6(function, "(", quoted, ", ", &other, ")"))
    }
}

// ---------------------------------------------------------------------------
// Operators that bind one value
// ---------------------------------------------------------------------------

/// The SQL operator of a comparison that binds exactly one value.
pub open spec fn binary_operator(op: Seq<char>) -> Option<Seq<char>> {
    if op == "_eq"@ {
        Some("="@)
    } else if op == "_neq"@ {
        Some("<>"@)
    } else if op == "_gt"@ {
        Some(">"@)
    } else if op == "_gte"@ {
        Some(">="@)
    } else if op == "_lt"@ {
        Some("<"@)
    } else if op == "_lte"@ {
        Some("<="@)
    } else if op == "_like"@ {
        Some("LIKE"@)
    } else if op == "_nlike"@ {
        Some("NOT LIKE"@)
    } else if op == "_ilike"@ {
        Some("ILIKE"@)
    } else if op == "_nilike"@ {
        Some("NOT ILIKE"@)
    } else if op == "_similar"@ {
        Some("SIMILAR TO"@)
    } else if op == "_nsimilar"@ {
        Some("NOT SIMILAR TO"@)
    } else if op == "_regex"@ {
        Some("~"@)
    } else if op == "_nregex"@ {
        Some("!~"@)
    } else if op == "_iregex"@ {
        Some("~*"@)
    } else if op == "_niregex"@ {
        Some("!~*"@)
    } else if op == "_contains"@ {
        Some("@>"@)
    } else if op == "_contained_in"@ {
        Some("<@"@)
    } else if op == "_has_key"@ {
        Some("?"@)
    } else {
        None
    }
}

/// The SQL operator of a comparison that binds exactly one value.
fn binary(op: &str) -> (r: Option<&'static str>)
    ensures
        str_opt(r) == binary_operator(op@),
{
    if same(op, "_eq") {
        Some("=")
    } else if same(op, "_neq") {
        Some("<>")
    } else if same(op, "_gt") {
        Some(">")
    } else if same(op, "_gte") {
        Some(">=")
    } else if same(op, "_lt") {
        Some("<")
    } else if same(op, "_lte") {
        Some("<=")
    } else if same(op, "_like") {
        Some("LIKE")
    } else if same(op, "_nlike") {
        Some("NOT LIKE")
    } else if same(op, "_ilike") {
        Some("ILIKE")
    } else if same(op, "_nilike") {
        Some("NOT ILIKE")
    } else if same(op, "_similar") {
        Some("SIMILAR TO")
    } else if same(op, "_nsimilar") {
        Some("NOT SIMILAR TO")
    } else if same(op, "_regex") {
        Some("~")
    } else if same(op, "_nregex") {
        Some("!~")
    } else if same(op, "_iregex") {
        Some("~*")
    } else if same(op, "_niregex") {
        Some("!~*")
    } else if same(op, "_contains") {
        Some("@>")
    } else if same(op, "_contained_in") {
        Some("<@")
    } else if same(op, "_has_key") {
        Some("?")
    } else {
        None
    }
}

/// Whether a comparison is one of document containment.
pub open spec fn is_containment(op: Seq<char>) -> bool {
    op == "_contains"@ || op == "_contained_in"@
}

/// A scalar written as the JSON text it is, so that a bare string reaches a
/// document operator as a document; anything else as it stands.
pub open spec fn as_document(value: JsonV) -> JsonV {
    match value {
        JsonV::String(_) | JsonV::Number(_) | JsonV::Bool(_) => JsonV::String(json_text(value)),
        other => other,
    }
}

/// A scalar written as the JSON text it is.
pub fn document_operand(value: &Json) -> (r: Json)
    ensures
        r@ == as_document(value@),
{
    match value {
        Json::String(_) | Json::Number(_) | Json::Bool(_) => Json::String(value.text()),
        _ => value.copy(),
    }
}

/// The cast to a column's type that a bound value needs: a null and a written
/// text name the type, anything else is inferred.
pub open spec fn inferred_cast(value: JsonV, column_type: Option<Seq<char>>) -> Seq<char> {
    match column_type {
        Some(t) => if value is Null || value is String {
            "::"@ + t
        } else {
            ""@
        },
        None => ""@,
    }
}

fn operand_cast(value: &Json, column_type: Option<&str>) -> (r: String)
    ensures
        r@ == inferred_cast(value@, str_opt(column_type)),
{
    match column_type {
        Some(t) => if value.is_null() || value.is_string() {
            cat2("::", t)
        } else {
            owned("")
        },
        None => owned(""),
    }
}

/// A comparison that binds one value under an operator.
pub open spec fn binary_sql(
    quoted: Seq<char>,
    column_type: Option<Seq<char>>,
    op: Seq<char>,
    operator: Seq<char>,
    operand: JsonV,
    at: BindsV,
) -> (Seq<char>, BindsV) {
    let value = if is_containment(op) {
        as_document(operand)
    } else {
        operand
    };
    let cast = if is_containment(op) {
        "::jsonb"@
    } else if op == "_has_key"@ {
        "::text"@
    } else {
        inferred_cast(operand, column_type)
    };
    (quoted + " "@ + operator + " "@ + placeholder(at) + cast, bound(at, value))
}

/// The function a path comparison is.
pub open spec fn path_function(op: Seq<char>) -> Option<Seq<char>> {
    if op == "_jsonb_path_exists"@ {
        Some("jsonb_path_exists"@)
    } else if op == "_jsonb_path_match"@ {
        Some("jsonb_path_match"@)
    } else {
        None
    }
}

fn json_path_function(op: &str) -> (r: Option<&'static str>)
    ensures
        str_opt(r) == path_function(op@),
{
    if same(op, "_jsonb_path_exists") {
        Some("jsonb_path_exists")
    } else if same(op, "_jsonb_path_match") {
        Some("jsonb_path_match")
    } else {
        None
    }
}

// ---------------------------------------------------------------------------
// Lists
// ---------------------------------------------------------------------------

/// The members of an `IN` list from the `i`th on, after those in `parts`.
pub open spec fn members_from(
    items: Seq<JsonV>,
    column_type: Option<Seq<char>>,
    i: nat,
    parts: Seq<Seq<char>>,
    at: BindsV,
) -> (Seq<Seq<char>>, BindsV)
    decreases items.len() - i,
{
    if i >= items.len() {
        (parts, at)
    } else {
        let item = items[i as int];
        members_from(
            items,
            column_type,
            i + 1,
            parts.push(placeholder(at) + inferred_cast(item, column_type)),
            bound(at, item),
        )
    }
}

/// Membership in a list. No list of nothing is written: an empty `_in`
/// matches nothing and an empty `_nin` everything.
pub open spec fn membership_sql(
    quoted: Seq<char>,
    column: Seq<char>,
    column_type: Option<Seq<char>>,
    op: Seq<char>,
    operand: JsonV,
    at: BindsV,
) -> SqlV {
    match operand {
        JsonV::Array(items) => if items.len() == 0 {
            Ok((if op == "_in"@ { "false"@ } else { "true"@ }, at))
        } else {
            let (parts, end) = members_from(items, column_type, 0, Seq::empty(), at);
            Ok(
                (
                    quoted + " "@ + (if op == "_in"@ { "IN"@ } else { "NOT IN"@ }) + " ("@
                        + joined(parts, ", "@) + ")"@,
                    end,
                ),
            )
        },
        _ => Err(
            (
                plain_refusal(
                    "the \""@ + op + "\" comparison on \""@ + column
                        + "\" requires a list of values"@,
                ),
                at,
            ),
        ),
    }
}

fn list_sql(
    quoted: &str,
    column: &str,
    column_type: Option<&str>,
    op: &str,
    operand: &Json,
    param_idx: &mut usize,
    values: &mut Vec<Json>,
) -> (r: Result<String, Error>)
    ensures
        outcome(r, *final(param_idx), final(values)@) == membership_sql(
            quoted@,
            column@,
            str_opt(column_type),
            op@,
            operand@,
            binds(*old(param_idx), old(values)@),
        ),
{
    match operand {
        Json::Array(items) => {
            proof {
                lemma_array_view(*items);
            }
            if items.len() == 0 {
                return Ok(owned(if same(op, "_in") { "false" } else { "true" }));
            }
            let ghost start = binds(*param_idx, values@);
            let mut parts = no_texts();
            let mut i: usize = 0;
            while i < items.len()
                invariant
                    i <= items.len(),
                    members_from(jsons(items@), str_opt(column_type), 0, Seq::empty(), start)
                        == members_from(
                        jsons(items@),
                        str_opt(column_type),
                        i as nat,
                        texts(parts@),
                        binds(*param_idx, values@),
                    ),
                decreases items.len() - i,
            {
                let cast = operand_cast(&items[i], column_type);
                let text = bind(param_idx, values, items[i].copy());
                push_text(&mut parts, cat2(&text, &cast));
                i += 1;
            }
            let word: &str = if same(op, "_in") { "IN" } else { "NOT IN" };
            Ok(cat6(quoted, " ", word, " (", &join(&parts, ", "), ")"))
        },
        _ => Err(
            Error::new(
                cat5(
                    "the \"",
                    op,
                    "\" comparison on \"",
                    column,
                    "\" requires a list of values",
                ),
            ),
        ),
    }
}

/// An operator between a column and an array of its operand's items.
pub open spec fn array_sql(
    quoted: Seq<char>,
    column: Seq<char>,
    op: Seq<char>,
    operator: Seq<char>,
    cast: Seq<char>,
    wanted: Seq<char>,
    operand: JsonV,
    at: BindsV,
) -> SqlV {
    match operand {
        JsonV::Array(items) => {
            let (array, end) = array_of(items, cast, at);
            Ok((quoted + " "@ + operator + " "@ + array, end))
        },
        _ => Err((plain_refusal("the \""@ + op + "\" comparison on \""@ + column + wanted), at)),
    }
}

fn array_comparison(
    quoted: &str,
    column: &str,
    op: &str,
    operator: &str,
    cast: &str,
    wanted: &str,
    operand: &Json,
    param_idx: &mut usize,
    values: &mut Vec<Json>,
) -> (r: Result<String, Error>)
    ensures
        outcome(r, *final(param_idx), final(values)@) == array_sql(
            quoted@,
            column@,
            op@,
            operator@,
            cast@,
            wanted@,
            operand@,
            binds(*old(param_idx), old(values)@),
        ),
{
    match operand {
        Json::Array(items) => {
            proof {
                lemma_array_view(*items);
            }
            let array = sql_array(items, cast, param_idx, values);
            Ok(cat5(quoted, " ", operator, " ", &array))
        },
        _ => Err(Error::new(cat5("the \"", op, "\" comparison on \"", column, wanted))),
    }
}

// ---------------------------------------------------------------------------
// Any comparison
// ---------------------------------------------------------------------------

/// Any comparison but a cast, as SQL. A comparison that is not known is
/// refused: ignored, it would match every row.
pub open spec fn direct_comparison(
    words: Vocabulary,
    quoted: Seq<char>,
    column: Seq<char>,
    column_type: Option<Seq<char>>,
    op: Seq<char>,
    operand: JsonV,
    at: BindsV,
) -> SqlV {
    if paired(words.spatial@, op) is Some {
        spatial_sql(quoted, column_type, paired(words.spatial@, op)->0, op, operand, at)
    } else if named(words.trees@, op) is Some {
        let tree = named(words.trees@, op)->0;
        if has_suffix(tree.cast@, "[]"@) {
            array_sql(
                quoted,
                column,
                op,
                tree.operator@,
                tree.cast@,
                "\" takes a list"@,
                operand,
                at,
            )
        } else {
            Ok(
                (
                    quoted + " "@ + tree.operator@ + " "@ + placeholder(at) + "::"@ + tree.cast@,
                    bound(at, operand),
                ),
            )
        }
    } else if path_function(op) is Some {
        Ok(
            (
                path_function(op)->0 + "("@ + quoted + ", "@ + placeholder(at) + "::jsonpath)"@,
                bound(at, operand),
            ),
        )
    } else if binary_operator(op) is Some {
        Ok(binary_sql(quoted, column_type, op, binary_operator(op)->0, operand, at))
    } else if op == "_is_null"@ {
        if operand == JsonV::Bool(true) {
            Ok((quoted + " IS NULL"@, at))
        } else {
            Ok((quoted + " IS NOT NULL"@, at))
        }
    } else if op == "_in"@ || op == "_nin"@ {
        membership_sql(quoted, column, column_type, op, operand, at)
    } else if op == "_has_keys_any"@ || op == "_has_keys_all"@ {
        array_sql(
            quoted,
            column,
            op,
            if op == "_has_keys_any"@ { "?|"@ } else { "?&"@ },
            "text[]"@,
            "\" requires a list of keys"@,
            operand,
            at,
        )
    } else {
        Err((plain_refusal("unsupported comparison \""@ + op + "\" on \""@ + column + "\""@), at))
    }
}

/// The PostgreSQL type behind what a request compares a column as.
pub open spec fn cast_type(target: Seq<char>) -> Option<Seq<char>> {
    if target == "geometry"@ || target == "geography"@ {
        Some(target)
    } else if target == "String"@ {
        Some("text"@)
    } else {
        None
    }
}

fn cast_target(target: &str) -> (r: Option<&str>)
    ensures
        str_opt(r) == cast_type(target@),
{
    if same(target, "geometry") || same(target, "geography") {
        Some(target)
    } else if same(target, "String") {
        Some("text")
    } else {
        None
    }
}

/// All of several conditions, as one: true where there are none.
pub open spec fn all_of(parts: Seq<Seq<char>>) -> Seq<char> {
    if parts.len() == 0 {
        "true"@
    } else if parts.len() == 1 {
        parts[0]
    } else {
        "("@ + joined(parts, " AND "@) + ")"@
    }
}

/// One comparison against one column, as SQL.
pub open spec fn comparison(
    words: Vocabulary,
    quoted: Seq<char>,
    column: Seq<char>,
    column_type: Option<Seq<char>>,
    op: Seq<char>,
    operand: JsonV,
    at: BindsV,
) -> SqlV
    decreases operand, 0nat,
{
    if op == "_cast"@ {
        match operand {
            JsonV::Object(casts) => match casts_from(
                words,
                quoted,
                column,
                casts,
                0,
                Seq::empty(),
                at,
            ) {
                Ok((parts, end)) => Ok((all_of(parts), end)),
                Err((e, _, end)) => Err((e, end)),
            },
            _ => Err((plain_refusal("_cast takes an object naming the type to compare as"@), at)),
        }
    } else {
        direct_comparison(words, quoted, column, column_type, op, operand, at)
    }
}

/// The conditions of the casts from the `i`th on, after those in `parts`.
pub open spec fn casts_from(
    words: Vocabulary,
    quoted: Seq<char>,
    column: Seq<char>,
    casts: Seq<(Seq<char>, JsonV)>,
    i: nat,
    parts: Seq<Seq<char>>,
    at: BindsV,
) -> PartsV
    decreases casts, casts.len() - i,
{
    if i >= casts.len() {
        Ok((parts, at))
    } else {
        match cast_type(casts[i as int].0) {
            None => Err(
                (
                    plain_refusal(
                        "cannot compare \""@ + column + "\" as \""@ + casts[i as int].0 + "\""@,
                    ),
                    parts,
                    at,
                ),
            ),
            Some(t) => match casts[i as int].1 {
                JsonV::Object(ops) => match comparisons_from(
                    words,
                    quoted + "::"@ + t,
                    column,
                    Some(t),
                    ops,
                    0,
                    parts,
                    at,
                ) {
                    Ok((more, mid)) => casts_from(words, quoted, column, casts, i + 1, more, mid),
                    Err(e) => Err(e),
                },
                _ => casts_from(words, quoted, column, casts, i + 1, parts, at),
            },
        }
    }
}

/// The conditions of the comparisons from the `i`th on, after those in
/// `parts`.
pub open spec fn comparisons_from(
    words: Vocabulary,
    quoted: Seq<char>,
    column: Seq<char>,
    column_type: Option<Seq<char>>,
    ops: Seq<(Seq<char>, JsonV)>,
    i: nat,
    parts: Seq<Seq<char>>,
    at: BindsV,
) -> PartsV
    decreases ops, ops.len() - i,
{
    if i >= ops.len() {
        Ok((parts, at))
    } else {
        match comparison(
            words,
            quoted,
            column,
            column_type,
            ops[i as int].0,
            ops[i as int].1,
            at,
        ) {
            Ok((sql, mid)) => comparisons_from(
                words,
                quoted,
                column,
                column_type,
                ops,
                i + 1,
                parts.push(sql),
                mid,
            ),
            Err((e, mid)) => Err((e, parts, mid)),
        }
    }
}

fn direct_comparison_sql(
    words: &Vocabulary,
    quoted: &str,
    column: &str,
    column_type: Option<&str>,
    op: &str,
    operand: &Json,
    param_idx: &mut usize,
    values: &mut Vec<Json>,
) -> (r: Result<String, Error>)
    ensures
        outcome(r, *final(param_idx), final(values)@) == direct_comparison(
            *words,
            quoted@,
            column@,
            str_opt(column_type),
            op@,
            operand@,
            binds(*old(param_idx), old(values)@),
        ),
{
    if let Some(function) = find_pair(&words.spatial, op) {
        return postgis_sql(quoted, column_type, function, op, operand, param_idx, values);
    }
    if let Some(tree) = find_named(&words.trees, op) {
        if ends_with(&tree.cast, "[]") {
            return array_comparison(
                quoted,
                column,
                op,
                &tree.operator,
                &tree.cast,
                "\" takes a list",
                operand,
                param_idx,
                values,
            );
        }
        let text = bind(param_idx, values, operand.copy());
        return Ok(cat7(quoted, " ", &tree.operator, " ", &text, "::", &tree.cast));
    }
    if let Some(function) = json_path_function(op) {
        let text = bind(param_idx, values, operand.copy());
        return Ok(cat6(function, "(", quoted, ", ", &text, "::jsonpath)"));
    }
    if let Some(operator) = binary(op) {
        let contained = same(op, "_contains") || same(op, "_contained_in");
        let value = if contained {
            document_operand(operand)
        } else {
            operand.copy()
        };
        let cast = if contained {
            owned("::jsonb")
        } else if same(op, "_has_key") {
            owned("::text")
        } else {
            operand_cast(operand, column_type)
        };
        let text = bind(param_idx, values, value);
        return Ok(cat6(quoted, " ", operator, " ", &text, &cast));
    }
    if same(op, "_is_null") {
        return if matches!(operand, Json::Bool(true)) {
            Ok(cat2(quoted, " IS NULL"))
        } else {
            Ok(cat2(quoted, " IS NOT NULL"))
        };
    }
    if same(op, "_in") || same(op, "_nin") {
        return list_sql(quoted, column, column_type, op, operand, param_idx, values);
    }
    if same(op, "_has_keys_any") || same(op, "_has_keys_all") {
        let operator: &str = if same(op, "_has_keys_any") { "?|" } else { "?&" };
        return array_comparison(
            quoted,
            column,
            op,
            operator,
            "text[]",
            "\" requires a list of keys",
            operand,
            param_idx,
            values,
        );
    }
    Err(Error::new(cat5("unsupported comparison \"", op, "\" on \"", column, "\"")))
}

/// One comparison against one column.
///
/// `_cast` is not a comparison but a change of what is compared: the column
/// becomes another type and the comparisons inside it apply to that.
pub fn comparison_sql(
    words: &Vocabulary,
    quoted: &str,
    column: &str,
    column_type: Option<&str>,
    op: &str,
    operand: &Json,
    param_idx: &mut usize,
    values: &mut Vec<Json>,
) -> (r: Result<String, Error>)
    ensures
        outcome(r, *final(param_idx), final(values)@) == comparison(
            *words,
            quoted@,
            column@,
            str_opt(column_type),
            op@,
            operand@,
            binds(*old(param_idx), old(values)@),
        ),
    decreases operand, 0nat,
{
    if same(op, "_cast") {
        match operand {
            Json::Object(casts) => {
                proof {
                    lemma_object_view(*casts);
                }
                let mut parts = no_texts();
                match cast_conditions(words, quoted, column, casts, &mut parts, param_idx, values) {
                    Err(e) => Err(e),
                    Ok(_) => if parts.len() == 0 {
                        Ok(owned("true"))
                    } else if parts.len() == 1 {
                        Ok(parts[0].clone())
                    } else {
                        Ok(cat3("(", &join(&parts, " AND "), ")"))
                    },
                }
            },
            _ => Err(Error::new(owned("_cast takes an object naming the type to compare as"))),
        }
    } else {
        direct_comparison_sql(words, quoted, column, column_type, op, operand, param_idx, values)
    }
}

/// What a function that adds to a list of conditions reports.
pub open spec fn parts_outcome(
    r: Result<(), Error>,
    parts: Seq<String>,
    param_idx: usize,
    values: Seq<Json>,
) -> PartsV {
    match r {
        Ok(_) => Ok((texts(parts), binds(param_idx, values))),
        Err(e) => Err((e@, texts(parts), binds(param_idx, values))),
    }
}

fn cast_conditions(
    words: &Vocabulary,
    quoted: &str,
    column: &str,
    casts: &Vec<(String, Json)>,
    parts: &mut Vec<String>,
    param_idx: &mut usize,
    values: &mut Vec<Json>,
) -> (r: Result<(), Error>)
    ensures
        parts_outcome(r, final(parts)@, *final(param_idx), final(values)@) == casts_from(
            *words,
            quoted@,
            column@,
            entries_view(casts@),
            0,
            texts(old(parts)@),
            binds(*old(param_idx), old(values)@),
        ),
    decreases casts, 1nat,
{
    let mut i: usize = 0;
    while i < casts.len()
        invariant
            i <= casts.len(),
            casts_from(
                *words,
                quoted@,
                column@,
                entries_view(casts@),
                0,
                texts(old(parts)@),
                binds(*old(param_idx), old(values)@),
            ) == casts_from(
                *words,
                quoted@,
                column@,
                entries_view(casts@),
                i as nat,
                texts(parts@),
                binds(*param_idx, values@),
            ),
        decreases casts.len() - i,
    {
        assert(decreases_to!(*casts => casts@[i as int]));
        assert(entries_view(casts@)[i as int] == (casts@[i as int].0@, casts@[i as int].1@));
        let pg_type = match cast_target(&casts[i].0) {
            Some(t) => t,
            None => {
                return Err(
                    Error::new(
                        cat5("cannot compare \"", column, "\" as \"", &casts[i].0, "\""),
                    ),
                );
            },
        };
        match &casts[i].1 {
            Json::Object(ops) => {
                proof {
                    lemma_object_view(*ops);
                    assert(casts@[i as int].1->Object_0 == *ops);
                }
                let cast = cat3(quoted, "::", pg_type);
                match comparison_conditions(
                    words,
                    &cast,
                    column,
                    Some(pg_type),
                    ops,
                    parts,
                    param_idx,
                    values,
                ) {
                    Ok(_) => {},
                    Err(e) => return Err(e),
                }
            },
            _ => {},
        }
        i += 1;
    }
    Ok(())
}

/// Adds the conditions of a field's comparisons to a list.
pub fn comparison_conditions(
    words: &Vocabulary,
    quoted: &str,
    column: &str,
    column_type: Option<&str>,
    ops: &Vec<(String, Json)>,
    parts: &mut Vec<String>,
    param_idx: &mut usize,
    values: &mut Vec<Json>,
) -> (r: Result<(), Error>)
    ensures
        parts_outcome(r, final(parts)@, *final(param_idx), final(values)@) == comparisons_from(
            *words,
            quoted@,
            column@,
            str_opt(column_type),
            entries_view(ops@),
            0,
            texts(old(parts)@),
            binds(*old(param_idx), old(values)@),
        ),
    decreases ops, 1nat,
{
    let mut i: usize = 0;
    while i < ops.len()
        invariant
            i <= ops.len(),
            comparisons_from(
                *words,
                quoted@,
                column@,
                str_opt(column_type),
                entries_view(ops@),
                0,
                texts(old(parts)@),
                binds(*old(param_idx), old(values)@),
            ) == comparisons_from(
                *words,
                quoted@,
                column@,
                str_opt(column_type),
                entries_view(ops@),
                i as nat,
                texts(parts@),
                binds(*param_idx, values@),
            ),
        decreases ops.len() - i,
    {
        assert(decreases_to!(*ops => ops@[i as int]));
        assert(entries_view(ops@)[i as int] == (ops@[i as int].0@, ops@[i as int].1@));
        match comparison_sql(
            words,
            quoted,
            column,
            column_type,
            &ops[i].0,
            &ops[i].1,
            param_idx,
            values,
        ) {
            Ok(sql) => push_text(parts, sql),
            Err(e) => return Err(e),
        }
        i += 1;
    }
    Ok(())
}

} // verus!
