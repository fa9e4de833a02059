//! How a row is read back: its columns under the names they are exposed as,
//! and the row itself as JSON.

use crate::catalog::{exposed_name, field_for, NameOverrides, Table};
use crate::text::{
    cat3, cat5, cat7, chars_of, escape_ident, ident, join, joined, no_texts, owned, push_text,
    replace_char, replaced, same, text_opt, texts,
};
use vstd::prelude::*;

verus! {

/// The select list that renames a table's columns to the fields they are
/// exposed as.
pub open spec fn renamed_columns(table: Table, alias: Seq<char>, names: NameOverrides) -> Seq<
    Seq<char>,
> {
    Seq::new(
        table.columns@.len(),
        |i: int|
            ident(alias) + "."@ + ident(table.columns@[i].name@) + " AS "@ + ident(
                field_for(names, table.schema@, table.name@, table.columns@[i].name@),
            ),
    )
}

/// The select list of a renamed projection, where anything is renamed.
pub open spec fn renaming(table: Table, alias: Seq<char>, names: NameOverrides) -> Option<
    Seq<char>,
> {
    if !names.renames(table.schema@, table.name@) || table.columns@.len() == 0 {
        None
    } else {
        Some(joined(renamed_columns(table, alias, names), ", "@))
    }
}

/// The select list that renames a table's columns to the fields they are
/// exposed as, or `None` where nothing is renamed.
pub fn rename_projection(table: &Table, alias: &str, names: &NameOverrides) -> (r: Option<String>)
    ensures
        text_opt(r) == renaming(*table, alias@, *names),
{
    if !names.renames_columns(&table.schema, &table.name) {
        return None;
    }
    let mut parts = no_texts();
    let mut i: usize = 0;
    while i < table.columns.len()
        invariant
            i <= table.columns.len(),
            texts(parts@) =~= renamed_columns(*table, alias@, *names).take(i as int),
        decreases table.columns.len() - i,
    {
        let column = &table.columns[i];
        let exposed = exposed_name(names, &table.schema, &table.name, &column.name);
        push_text(
            &mut parts,
            cat5(
                &escape_ident(alias),
                ".",
                &escape_ident(&column.name),
                " AS ",
                &escape_ident(exposed),
            ),
        );
        i += 1;
    }
    assert(texts(parts@) =~= renamed_columns(*table, alias@, *names));
    if parts.len() == 0 {
        None
    } else {
        Some(join(&parts, ", "))
    }
}

/// The names and types of a list of pairs.
pub open spec fn pairs(v: Seq<(String, String)>) -> Seq<(Seq<char>, Seq<char>)> {
    v.map_values(|p: (String, String)| (p.0@, p.1@))
}

/// Adds a pair at the end of a list.
pub fn push_pair(v: &mut Vec<(String, String)>, a: String, b: String)
    ensures
        pairs(final(v)@) == pairs(old(v)@).push((a@, b@)),
{
    proof {
        assert(pairs(v@.push((a, b))) =~= pairs(v@).push((a@, b@)));
    }
    v.push((a, b));
}

/// A table's column types, by the fields the columns are exposed as.
pub open spec fn exposed_types(table: Table, names: NameOverrides) -> Seq<(Seq<char>, Seq<char>)> {
    Seq::new(
        table.columns@.len(),
        |i: int|
            (
                field_for(names, table.schema@, table.name@, table.columns@[i].name@),
                table.columns@[i].nominal_type@,
            ),
    )
}

/// A table's column types, by the names those columns are exposed under.
pub fn exposed_column_types(table: &Table, names: &NameOverrides) -> (r: Vec<(String, String)>)
    ensures
        pairs(r@) == exposed_types(*table, *names),
{
    let mut found: Vec<(String, String)> = Vec::new();
    let mut i: usize = 0;
    while i < table.columns.len()
        invariant
            i <= table.columns.len(),
            pairs(found@) =~= exposed_types(*table, *names).take(i as int),
        decreases table.columns.len() - i,
    {
        let column = &table.columns[i];
        let exposed = exposed_name(names, &table.schema, &table.name, &column.name);
        push_pair(&mut found, owned(exposed), column.nominal_type.clone());
        i += 1;
    }
    assert(pairs(found@) =~= exposed_types(*table, *names));
    found
}

/// A table's column types, by the columns' own names.
pub open spec fn own_types(table: Table) -> Seq<(Seq<char>, Seq<char>)> {
    Seq::new(
        table.columns@.len(),
        |i: int| (table.columns@[i].name@, table.columns@[i].nominal_type@),
    )
}

/// Every column of a table with the type it is declared as.
pub fn column_types_of(table: &Table) -> (r: Vec<(String, String)>)
    ensures
        pairs(r@) == own_types(*table),
{
    let mut found: Vec<(String, String)> = Vec::new();
    let mut i: usize = 0;
    while i < table.columns.len()
        invariant
            i <= table.columns.len(),
            pairs(found@) =~= own_types(*table).take(i as int),
        decreases table.columns.len() - i,
    {
        let column = &table.columns[i];
        push_pair(&mut found, column.name.clone(), column.nominal_type.clone());
        i += 1;
    }
    assert(pairs(found@) =~= own_types(*table));
    found
}

/// The second half of the first pair under a key.
pub open spec fn second_of(s: Seq<(Seq<char>, Seq<char>)>, key: Seq<char>) -> Option<Seq<char>>
    decreases s.len(),
{
    if s.len() == 0 {
        None
    } else if s[0].0 == key {
        Some(s[0].1)
    } else {
        second_of(s.drop_first(), key)
    }
}

/// The type of a column, where it is known.
pub fn type_of<'a>(column_types: &'a Vec<(String, String)>, column: &str) -> (r: Option<&'a str>)
    ensures
        crate::text::str_opt(r) == second_of(pairs(column_types@), column@),
{
    let mut i: usize = 0;
    let ghost all = pairs(column_types@);
    assert(all.skip(0) =~= all);
    while i < column_types.len()
        invariant
            i <= column_types.len(),
            all == pairs(column_types@),
            second_of(all, column@) == second_of(all.skip(i as int), column@),
        decreases column_types.len() - i,
    {
        if same(&column_types[i].0, column) {
            return Some(column_types[i].1.as_str());
        }
        assert(all.skip(i as int).drop_first() =~= all.skip(i + 1));
        i += 1;
    }
    None
}

/// Whether a type is a shape.
pub open spec fn is_shape_type(t: Seq<char>) -> bool {
    t == "geometry"@ || t == "geography"@
}

/// Whether a type is a shape.
pub fn is_shape(pg_type: &str) -> (r: bool)
    ensures
        r == is_shape_type(pg_type@),
{
    same(pg_type, "geometry") || same(pg_type, "geography")
}

// ---------------------------------------------------------------------------
// Order among names
// ---------------------------------------------------------------------------

/// Whether one text comes before another, or is it, from the `i`th character
/// on: by the first character in which they differ.
pub open spec fn not_after(a: Seq<char>, b: Seq<char>, i: nat) -> bool
    decreases a.len() - i,
{
    if i >= a.len() {
        true
    } else if i >= b.len() {
        false
    } else if a[i as int] == b[i as int] {
        not_after(a, b, i + 1)
    } else {
        (a[i as int] as u32) < (b[i as int] as u32)
    }
}

/// Whether one text comes before another, or is it.
pub fn comes_first(a: &str, b: &str) -> (r: bool)
    ensures
        r == not_after(a@, b@, 0),
{
    let left = chars_of(a);
    let right = chars_of(b);
    let mut i: usize = 0;
    while i < left.len()
        invariant
            i <= left.len(),
            left@ == a@,
            right@ == b@,
            not_after(a@, b@, 0) == not_after(a@, b@, i as nat),
        decreases left.len() - i,
    {
        if i >= right.len() {
            return false;
        }
        if left[i] != right[i] {
            return (left[i] as u32) < (right[i] as u32);
        }
        i += 1;
    }
    true
}

/// Names with one more in its place: before the first that it does not come
/// after.
pub open spec fn placed_in(s: Seq<Seq<char>>, name: Seq<char>) -> Seq<Seq<char>>
    decreases s.len(),
{
    if s.len() == 0 {
        seq![name]
    } else if not_after(s.last(), name, 0) {
        s.push(name)
    } else {
        placed_in(s.drop_last(), name).push(s.last())
    }
}

/// The names of the shapes among columns, in order.
pub open spec fn shape_names(types: Seq<(Seq<char>, Seq<char>)>) -> Seq<Seq<char>>
    decreases types.len(),
{
    if types.len() == 0 {
        Seq::empty()
    } else if is_shape_type(types.last().1) {
        placed_in(shape_names(types.drop_last()), types.last().0)
    } else {
        shape_names(types.drop_last())
    }
}

pub fn place_name(names: &mut Vec<String>, name: String)
    ensures
        texts(final(names)@) == placed_in(texts(old(names)@), name@),
{
    let ghost all = texts(names@);
    let ghost added = name@;
    let mut i: usize = names.len();
    let ghost mut tail: Seq<Seq<char>> = Seq::empty();
    assert(all.take(i as int) =~= all);
    assert(placed_in(all, added) + tail =~= placed_in(all, added));
    while i > 0 && !comes_first(&names[i - 1], &name)
        invariant
            i <= names@.len(),
            all == texts(names@),
            added == name@,
            tail == all.skip(i as int),
            placed_in(all, added) == placed_in(all.take(i as int), added) + tail,
        decreases i,
    {
        proof {
            let front = all.take(i as int);
            assert(front.last() == all[i - 1]);
            assert(front.drop_last() =~= all.take(i - 1));
            assert(placed_in(front, added) == placed_in(front.drop_last(), added).push(
                front.last(),
            ));
            assert(placed_in(front.drop_last(), added).push(front.last()) + tail
                =~= placed_in(front.drop_last(), added) + all.skip(i - 1));
            tail = all.skip(i - 1);
        }
        i -= 1;
    }
    proof {
        let front = all.take(i as int);
        assert(placed_in(front, added) =~= front.push(added)) by {
            if i > 0 {
                assert(front.last() == all[i - 1]);
            } else {
                assert(front =~= Seq::<Seq<char>>::empty());
            }
        }
        assert(front.push(added) + tail =~= texts(names@.insert(i as int, name)));
    }
    names.insert(i, name);
}

fn shapes_of(column_types: &Vec<(String, String)>) -> (r: Vec<String>)
    ensures
        texts(r@) == shape_names(pairs(column_types@)),
{
    let mut shapes = no_texts();
    let ghost all = pairs(column_types@);
    let mut i: usize = 0;
    while i < column_types.len()
        invariant
            i <= column_types.len(),
            all == pairs(column_types@),
            texts(shapes@) == shape_names(all.take(i as int)),
        decreases column_types.len() - i,
    {
        assert(all.take(i + 1).drop_last() =~= all.take(i as int));
        assert(all.take(i + 1).last() == all[i as int]);
        if is_shape(&column_types[i].1) {
            place_name(&mut shapes, column_types[i].0.clone());
        }
        i += 1;
    }
    assert(all.take(all.len() as int) =~= all);
    shapes
}

/// The entry that renders one shape column of a row as GeoJSON, in the long
/// form that names its reference system.
pub open spec fn shape_entry(expr: Seq<char>, name: Seq<char>) -> Seq<char> {
    "'"@ + replaced(name, '\'', "''"@) + "', ST_AsGeoJSON("@ + expr + "."@ + ident(name)
        + ", 9, 4)::jsonb"@
}

/// The entries of several shape columns.
pub open spec fn shape_entries(expr: Seq<char>, names: Seq<Seq<char>>) -> Seq<Seq<char>> {
    names.map_values(|name: Seq<char>| shape_entry(expr, name))
}

/// A row as JSON, with its shape columns as GeoJSON.
pub open spec fn row_as_json(expr: Seq<char>, types: Seq<(Seq<char>, Seq<char>)>) -> Seq<char> {
    let shapes = shape_names(types);
    if shapes.len() == 0 {
        "row_to_json("@ + expr + ")"@
    } else {
        "(to_jsonb("@ + expr + ") || jsonb_build_object("@ + joined(
            shape_entries(expr, shapes),
            ", "@,
        ) + "))"@
    }
}

/// Render a row as JSON, with any shape column rendered as GeoJSON.
///
/// The shapes are merged over the row, so a table with no shape column needs
/// no list of its columns.
pub fn row_json(expr: &str, column_types: &Vec<(String, String)>) -> (r: String)
    ensures
        r@ == row_as_json(expr@, pairs(column_types@)),
{
    let shapes = shapes_of(column_types);
    if shapes.len() == 0 {
        return cat3("row_to_json(", expr, ")");
    }
    let mut parts = no_texts();
    let mut i: usize = 0;
    while i < shapes.len()
        invariant
            i <= shapes.len(),
            texts(parts@) =~= shape_entries(expr@, texts(shapes@)).take(i as int),
        decreases shapes.len() - i,
    {
        push_text(
            &mut parts,
            cat7(
                "'",
                &replace_char(&shapes[i], '\'', "''"),
                "', ST_AsGeoJSON(",
                expr,
                ".",
                &escape_ident(&shapes[i]),
                ", 9, 4)::jsonb",
            ),
        );
        i += 1;
    }
    assert(texts(parts@) =~= shape_entries(expr@, texts(shapes@)));
    cat5("(to_jsonb(", expr, ") || jsonb_build_object(", &join(&parts, ", "), "))")
}

} // verus!
