//! What rows and values are shown as.

use crate::binds::BindsV;
use crate::catalog::{column_behind, field_for, NameOverrides, RelationshipField, Table};
use crate::computed::{computed_field_sql, computed_sql};
use crate::embed::{
    computed_fields, computed_in, field_expression, node_columns, node_embeds, nodes_part,
    plain_entry, row_select, EmbedV, FragmentV, Selected,
};
use crate::error::ErrorV;
use crate::json::{entry_texts, escaped, escapes, item_texts, json_text, JsonV, NumberV};
use crate::projection::{
    exposed_types, not_after, own_types, placed_in, renaming, row_as_json, shape_entries,
    shape_names,
};
use crate::text::{decimal_int, ident, joined, replaced};
use crate::write::{array_text, element_texts};
use vstd::prelude::*;

verus! {

// ---------------------------------------------------------------------------
// Columns
// ---------------------------------------------------------------------------

/// A table whose columns go by other names is read column by column, each under
/// the name it is shown by; one that renames nothing is read as it is.
pub proof fn law_columns_are_shown_by_their_names(
    table: Table,
    alias: Seq<char>,
    names: NameOverrides,
)
    ensures
        renaming(table, alias, names) == (if names.renames(table.schema@, table.name@)
            && table.columns@.len() > 0 {
            Some(
                joined(
                    Seq::new(
                        table.columns@.len(),
                        |i: int|
                            ident(alias) + "."@ + ident(table.columns@[i].name@) + " AS "@ + ident(
                                field_for(
                                    names,
                                    table.schema@,
                                    table.name@,
                                    table.columns@[i].name@,
                                ),
                            ),
                    ),
                    ", "@,
                ),
            )
        } else {
            None
        }),
{
    if names.renames(table.schema@, table.name@) && table.columns@.len() > 0 {
        assert(crate::projection::renamed_columns(table, alias, names) =~= Seq::new(
            table.columns@.len(),
            |i: int|
                ident(alias) + "."@ + ident(table.columns@[i].name@) + " AS "@ + ident(
                    field_for(names, table.schema@, table.name@, table.columns@[i].name@),
                ),
        ));
    }
}

/// What is known of a table's columns: the type of each, by its own name or by
/// the one it is shown by.
pub proof fn law_columns_keep_their_types(table: Table, names: NameOverrides, i: int)
    requires
        0 <= i < table.columns@.len(),
    ensures
        own_types(table).len() == table.columns@.len(),
        own_types(table)[i] == (table.columns@[i].name@, table.columns@[i].nominal_type@),
        exposed_types(table, names).len() == table.columns@.len(),
        exposed_types(table, names)[i] == (
            field_for(names, table.schema@, table.name@, table.columns@[i].name@),
            table.columns@[i].nominal_type@,
        ),
{
}

/// Whether a column of one of the shape types has this name.
pub open spec fn is_shape(types: Seq<(Seq<char>, Seq<char>)>, name: Seq<char>) -> bool {
    exists|i: int|
        0 <= i < types.len() && (#[trigger] types[i]).0 == name && (types[i].1 == "geometry"@
            || types[i].1 == "geography"@)
}

proof fn lemma_placed_in(s: Seq<Seq<char>>, name: Seq<char>, other: Seq<char>)
    ensures
        placed_in(s, name).contains(other) == (other == name || s.contains(other)),
        placed_in(s, name).len() == s.len() + 1,
    decreases s.len(),
{
    let r = placed_in(s, name);
    if s.len() == 0 {
        assert(r[0] == name);
    } else if not_after(s.last(), name, 0) {
        assert(r =~= s.push(name));
        assert(r.last() == name);
        if s.contains(other) {
            let k = choose|k: int| 0 <= k < s.len() && s[k] == other;
            assert(r[k] == other);
        }
        if r.contains(other) && other != name {
            let k = choose|k: int| 0 <= k < r.len() && r[k] == other;
            assert(s[k] == other);
        }
    } else {
        let before = placed_in(s.drop_last(), name);
        lemma_placed_in(s.drop_last(), name, other);
        assert(r =~= before.push(s.last()));
        if s.contains(other) {
            let k = choose|k: int| 0 <= k < s.len() && s[k] == other;
            if k < s.len() - 1 {
                assert(s.drop_last()[k] == other);
                let m = choose|m: int| 0 <= m < before.len() && before[m] == other;
                assert(r[m] == other);
            } else {
                assert(r.last() == other);
            }
        }
        if other == name {
            let m = choose|m: int| 0 <= m < before.len() && before[m] == other;
            assert(r[m] == other);
        }
        if r.contains(other) && other != name {
            let k = choose|k: int| 0 <= k < r.len() && r[k] == other;
            if k < before.len() {
                assert(before[k] == other);
                let m = choose|m: int| 0 <= m < s.drop_last().len() && s.drop_last()[m] == other;
                assert(s[m] == other);
            } else {
                assert(s.last() == other);
                assert(s[s.len() - 1] == other);
            }
        }
    }
}

/// The columns that hold shapes are those of either shape type, and no others.
pub proof fn law_shapes_are_of_their_types(types: Seq<(Seq<char>, Seq<char>)>, name: Seq<char>)
    ensures
        shape_names(types).contains(name) == is_shape(types, name),
    decreases types.len(),
{
    if types.len() > 0 {
        let rest = types.drop_last();
        law_shapes_are_of_their_types(rest, name);
        lemma_placed_in(shape_names(rest), types.last().0, name);
        if is_shape(rest, name) {
            let k = choose|k: int|
                0 <= k < rest.len() && (#[trigger] rest[k]).0 == name && (rest[k].1
                    == "geometry"@ || rest[k].1 == "geography"@);
            assert(types[k] == rest[k]);
        }
        if is_shape(types, name) {
            let k = choose|k: int|
                0 <= k < types.len() && (#[trigger] types[k]).0 == name && (types[k].1
                    == "geometry"@ || types[k].1 == "geography"@);
            if k < rest.len() {
                assert(rest[k] == types[k]);
            } else {
                assert(types[k] == types.last());
            }
        }
        let t = types.last();
        if t.0 == name && (t.1 == "geometry"@ || t.1 == "geography"@) {
            assert(types[types.len() - 1] == t);
        }
    }
}

/// A row is shown as its document; the columns that hold shapes are shown as
/// shapes are written, each under its own name.
pub proof fn law_a_row_is_shown_as_a_document(
    expr: Seq<char>,
    types: Seq<(Seq<char>, Seq<char>)>,
)
    ensures
        (forall|name: Seq<char>| !#[trigger] is_shape(types, name)) ==> row_as_json(expr, types)
            == "row_to_json("@ + expr + ")"@,
        (exists|name: Seq<char>| #[trigger] is_shape(types, name)) ==> row_as_json(expr, types)
            == "(to_jsonb("@ + expr + ") || jsonb_build_object("@ + joined(
            Seq::new(
                shape_names(types).len(),
                |i: int|
                    "'"@ + replaced(shape_names(types)[i], '\'', "''"@) + "', ST_AsGeoJSON("@
                        + expr + "."@ + ident(shape_names(types)[i]) + ", 9, 4)::jsonb"@,
            ),
            ", "@,
        ) + "))"@,
{
    let shapes = shape_names(types);
    if shapes.len() > 0 {
        law_shapes_are_of_their_types(types, shapes[0]);
        assert(is_shape(types, shapes[0]));
        assert(shape_entries(expr, shapes) =~= Seq::new(
            shapes.len(),
            |i: int|
                "'"@ + replaced(shapes[i], '\'', "''"@) + "', ST_AsGeoJSON("@ + expr + "."@ + ident(
                    shapes[i],
                ) + ", 9, 4)::jsonb"@,
        ));
    } else {
        assert forall|name: Seq<char>| !#[trigger] is_shape(types, name) by {
            law_shapes_are_of_their_types(types, name);
        }
    }
}

// ---------------------------------------------------------------------------
// Values
// ---------------------------------------------------------------------------

/// How documents are written: each kind of value in its own way, and lists and
/// objects part by part.
pub proof fn law_documents_are_written(
    b: bool,
    n: int,
    s: Seq<char>,
    items: Seq<JsonV>,
    entries: Seq<(Seq<char>, JsonV)>,
)
    ensures
        json_text(JsonV::Null) == "null"@,
        json_text(JsonV::Bool(b)) == (if b {
            "true"@
        } else {
            "false"@
        }),
        json_text(JsonV::Number(NumberV::Int(n))) == decimal_int(n),
        json_text(JsonV::Number(NumberV::Other(s))) == s,
        json_text(JsonV::String(s)) == seq!['"'] + escapes(s) + seq!['"'],
        json_text(JsonV::Array(items)) == "["@ + joined(
            Seq::new(items.len(), |i: int| json_text(items[i])),
            ","@,
        ) + "]"@,
        json_text(JsonV::Object(entries)) == "{"@ + joined(
            Seq::new(
                entries.len(),
                |i: int|
                    (seq!['"'] + escapes(entries[i].0) + seq!['"']) + ":"@ + json_text(
                        entries[i].1,
                    ),
            ),
            ","@,
        ) + "}"@,
{
    assert(item_texts(items) =~= Seq::new(items.len(), |i: int| json_text(items[i])));
    assert(entry_texts(entries) =~= Seq::new(
        entries.len(),
        |i: int|
            (seq!['"'] + escapes(entries[i].0) + seq!['"']) + ":"@ + json_text(entries[i].1),
    ));
}

/// A text is escaped character by character.
pub proof fn law_texts_are_escaped_in_turn(a: Seq<char>, b: Seq<char>)
    ensures
        escapes(a + b) == escapes(a) + escapes(b),
    decreases b.len(),
{
    if b.len() == 0 {
        assert(a + b =~= a);
        assert(escapes(a) + escapes(b) =~= escapes(a));
    } else {
        law_texts_are_escaped_in_turn(a, b.drop_last());
        assert((a + b).drop_last() =~= a + b.drop_last());
        assert((a + b).last() == b.last());
        assert(escapes(a) + (escapes(b.drop_last()) + escaped(b.last())) =~= (escapes(a) + escapes(
            b.drop_last(),
        )) + escaped(b.last()));
    }
}

/// What each character is written as: quotes and backslashes behind a
/// backslash, the controls by their letters or their numbers, and all others as
/// they are.
pub proof fn law_characters_are_escaped(c: char)
    ensures
        escapes(seq!['"']) == seq!['\\', '"'],
        escapes(seq!['\\']) == seq!['\\', '\\'],
        escapes(seq!['\n']) == seq!['\\', 'n'],
        escapes(seq!['\r']) == seq!['\\', 'r'],
        escapes(seq!['\t']) == seq!['\\', 't'],
        escapes(seq!['\u{8}']) == seq!['\\', 'b'],
        escapes(seq!['\u{c}']) == seq!['\\', 'f'],
        c as u32 >= 32 && c != '"' && c != '\\' ==> escapes(seq![c]) == seq![c],
        (c as u32) < 32 ==> escapes(seq![c])[0] == '\\' && (escapes(seq![c]).len() == 2 || (escapes(
            seq![c],
        ).len() == 6 && escapes(seq![c])[1] == 'u' && escapes(seq![c])[2] == '0' && escapes(
            seq![c],
        )[3] == '0' && escapes(seq![c])[4] == (if c as u32 >= 16 {
            '1'
        } else {
            '0'
        }))),
{
    lemma_one_character('"');
    lemma_one_character('\\');
    lemma_one_character('\n');
    lemma_one_character('\r');
    lemma_one_character('\t');
    lemma_one_character('\u{8}');
    lemma_one_character('\u{c}');
    lemma_one_character(c);
}

proof fn lemma_one_character(c: char)
    ensures
        escapes(seq![c]) == escaped(c),
{
    let one = seq![c];
    assert(one.drop_last() =~= Seq::<char>::empty());
    assert(escapes(one.drop_last()) =~= Seq::<char>::empty());
    assert(Seq::<char>::empty() + escaped(c) =~= escaped(c));
}

/// How lists are written for a column of them: in braces, null as a bare word,
/// and every other member in quotes, of which those within are escaped.
pub proof fn law_lists_are_written_for_their_columns(
    items: Seq<JsonV>,
    s: Seq<char>,
    value: JsonV,
)
    ensures
        array_text(JsonV::Array(items)) == "{"@ + joined(
            Seq::new(items.len(), |i: int| array_text(items[i])),
            ","@,
        ) + "}"@,
        array_text(JsonV::Null) == "NULL"@,
        array_text(JsonV::String(s)) == "\""@ + replaced(
            replaced(s, '\\', "\\\\"@),
            '"',
            "\\\""@,
        ) + "\""@,
        value is Bool || value is Number || value is Object ==> array_text(value) == array_text(
            JsonV::String(json_text(value)),
        ),
{
    assert(element_texts(items) =~= Seq::new(items.len(), |i: int| array_text(items[i])));
}

// ---------------------------------------------------------------------------
// Embedded rows
// ---------------------------------------------------------------------------

/// A field of an embedded row is its column, under the field's name where they
/// differ, or the function that computes it.
pub proof fn law_a_field_is_read_of_its_row(
    name: Seq<char>,
    alias: Seq<char>,
    table: Table,
    names: NameOverrides,
)
    ensures
        ({
            let column = column_behind(names, table.schema@, table.name@, name);
            match computed_in(Some(table), name, names) {
                Some(definition) => {
                    let call = computed_sql(definition, ident(alias) + ".*"@, ident(alias));
                    &&& plain_entry(name, alias, Some(table), names) == call + " AS "@ + ident(name)
                    &&& field_expression(Some(table), alias, name, names) == call
                },
                None => {
                    &&& plain_entry(name, alias, Some(table), names) == (if column == name {
                        ident(name)
                    } else {
                        ident(column) + " AS "@ + ident(name)
                    })
                    &&& field_expression(Some(table), alias, name, names) == ident(alias) + "."@
                        + ident(column)
                },
            }
        }),
{
}

/// The rows that are asked for beside numbers: each as a document of the fields
/// asked of it, and a list of none where there are none.
pub proof fn law_rows_are_listed_beside_numbers(
    field: Selected,
    alias: Seq<char>,
    table: Option<Table>,
    names: NameOverrides,
)
    requires
        field.name@ != "__typename"@,
    ensures
        nodes_part(seq![field], alias, table, names, Seq::empty()) == seq![
            FragmentV::Text("COALESCE(json_agg("@),
            FragmentV::Text("json_build_object("@),
            FragmentV::Text(
                "'"@ + replaced(field.name@, '\'', "''"@) + "', "@ + field_expression(
                    table,
                    alias,
                    field.name@,
                    names,
                ),
            ),
            FragmentV::Text(")"@),
            FragmentV::Text("), '[]'::json) AS "@ + ident("nodes"@)),
        ],
        nodes_part(Seq::empty(), alias, table, names, Seq::empty()) == seq![
            FragmentV::Text("COALESCE(json_agg("@),
            FragmentV::Text("row_to_json("@ + ident(alias) + ")"@),
            FragmentV::Text("), '[]'::json) AS "@ + ident("nodes"@)),
        ],
{
    let none = Seq::<EmbedV>::empty();
    let nothing = Seq::<FragmentV>::empty();
    let one = seq![field];
    assert(one[0] == field);
    let part = FragmentV::Text(
        "'"@ + replaced(field.name@, '\'', "''"@) + "', "@ + field_expression(
            table,
            alias,
            field.name@,
            names,
        ),
    );
    assert(!crate::embed::embeds_field(none, field.name@));
    assert(crate::embed::with_part(nothing, seq![part]) =~= seq![part]);
    assert(node_columns(one, 1, alias, table, names, none, seq![part]) == seq![part]);
    assert(node_columns(one, 0, alias, table, names, none, nothing) == seq![part]);
    assert(node_embeds(none, 0, seq![part]) == seq![part]);
    assert(nodes_part(one, alias, table, names, none) =~= seq![
        FragmentV::Text("COALESCE(json_agg("@),
        FragmentV::Text("json_build_object("@),
        part,
        FragmentV::Text(")"@),
        FragmentV::Text("), '[]'::json) AS "@ + ident("nodes"@)),
    ]);
    assert(node_columns(Seq::empty(), 0, alias, table, names, none, nothing) == nothing);
    assert(node_embeds(none, 0, nothing) == nothing);
    assert(nodes_part(Seq::empty(), alias, table, names, none) =~= seq![
        FragmentV::Text("COALESCE(json_agg("@),
        FragmentV::Text("row_to_json("@ + ident(alias) + ")"@),
        FragmentV::Text("), '[]'::json) AS "@ + ident("nodes"@)),
    ]);
}

/// Every computed field that is asked of a row is read, under its own name, and
/// nothing else is computed.
pub proof fn law_computed_fields_are_asked_for(
    table: Table,
    field: Selected,
    row: Seq<char>,
    names: NameOverrides,
    at: BindsV,
)
    ensures
        computed_in(Some(table), field.name@, names) is None ==> computed_fields(
            table,
            seq![field],
            0,
            row,
            names,
            Seq::empty(),
            at,
        ) == Ok::<(Seq<Seq<char>>, BindsV), (ErrorV, BindsV)>((Seq::empty(), at)),
        computed_in(Some(table), field.name@, names) is Some ==> {
            let definition = computed_in(Some(table), field.name@, names)->0;
            match computed_field_sql(
                definition,
                row,
                field.name@,
                if definition.arguments@.len() == 0 {
                    None
                } else {
                    field.arguments@.get("args"@)
                },
                at,
            ) {
                Err(e) => computed_fields(table, seq![field], 0, row, names, Seq::empty(), at)
                    == Err::<(Seq<Seq<char>>, BindsV), (ErrorV, BindsV)>(e),
                Ok((sql, end)) => computed_fields(
                    table,
                    seq![field],
                    0,
                    row,
                    names,
                    Seq::empty(),
                    at,
                ) == Ok::<(Seq<Seq<char>>, BindsV), (ErrorV, BindsV)>(
                    (seq![sql + " AS "@ + ident(field.name@)], end),
                ),
            }
        },
{
    let one = seq![field];
    assert(one[0] == field);
    let nothing = Seq::<Seq<char>>::empty();
    assert(computed_fields(table, one, 1, row, names, nothing, at) == Ok::<
        (Seq<Seq<char>>, BindsV),
        (ErrorV, BindsV),
    >((nothing, at)));
    if computed_in(Some(table), field.name@, names) is Some {
        let definition = computed_in(Some(table), field.name@, names)->0;
        match computed_field_sql(
            definition,
            row,
            field.name@,
            if definition.arguments@.len() == 0 {
                None
            } else {
                field.arguments@.get("args"@)
            },
            at,
        ) {
            Err(_) => {},
            Ok((sql, end)) => {
                let parts = nothing.push(sql + " AS "@ + ident(field.name@));
                assert(parts =~= seq![sql + " AS "@ + ident(field.name@)]);
                assert(computed_fields(table, one, 1, row, names, parts, end) == Ok::<
                    (Seq<Seq<char>>, BindsV),
                    (ErrorV, BindsV),
                >((parts, end)));
            },
        }
    }
}

/// An embedded row of which nothing is asked is read whole.
pub proof fn law_an_embedded_row_is_read_whole(
    alias: Seq<char>,
    relationships: Option<Seq<RelationshipField>>,
    table: Table,
    names: NameOverrides,
)
    ensures
        row_select(Seq::empty(), alias, relationships, Some(table), names, Seq::empty()) == seq![
            FragmentV::Text(
                if renaming(table, alias, names) is Some {
                    renaming(table, alias, names)->0
                } else {
                    ident(alias) + ".*"@
                },
            ),
        ],
{
    let plain = crate::embed::plain_entries(
        Seq::empty(),
        0,
        alias,
        relationships,
        Some(table),
        names,
        Seq::empty(),
    );
    assert(plain == Seq::<FragmentV>::empty());
}

} // verus!
