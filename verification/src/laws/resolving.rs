//! What entities are: how they are named, found and answered.

use crate::context::law_put_then_get;
use crate::embed::{EmbedV, Selected};
use crate::entity::{
    applicable, applies_to, bounds_of, entity_key, entity_query_of, entity_rows_of, key_conditions,
    key_from, key_value, keyed_rows, keys_from, nearest_double, normal_id, normal_value, plain_type,
    represented_from, represented_type, rows_for, EntityKeyColumnV, EntityLookupV,
};
use crate::error::ErrorV;
use crate::json::{entry_of, json_text, number_text, JsonV, NumberV};
use crate::read::{framed, head_of, projected, renamed_in, row_extras, QueryV};
use crate::role::{Caller, Verb};
use crate::scope::Sources;
use crate::statement::put;
use crate::text::{decimal, ident, ident2, joined};
use vstd::prelude::*;

verus! {

// ---------------------------------------------------------------------------
// Keys
// ---------------------------------------------------------------------------

proof fn lemma_integer_names()
    ensures
        "int2"@.len() == 4 && "int2"@[3] == '2',
        "int4"@.len() == 4 && "int4"@[3] == '4',
        "int8"@.len() == 4 && "int8"@[3] == '8',
        "int"@.len() == 3,
        "integer"@.len() == 7,
        "bigint"@.len() == 6,
        "smallint"@.len() == 8,
{
    reveal_strlit("int2");
    reveal_strlit("int4");
    reveal_strlit("int8");
    reveal_strlit("int");
    reveal_strlit("integer");
    reveal_strlit("bigint");
    reveal_strlit("smallint");
}

/// The whole numbers that a type of them holds, by either of its names.
pub proof fn law_integer_types_hold_their_range(pg_type: Seq<char>)
    ensures
        ({
            let t = plain_type(pg_type);
            &&& t == "int2"@ || t == "smallint"@ ==> bounds_of(pg_type) == Some(
                (-32768i64, 32767i64),
            )
            &&& t == "int4"@ || t == "int"@ || t == "integer"@ ==> bounds_of(pg_type) == Some(
                (-2147483648i64, 2147483647i64),
            )
            &&& t == "int8"@ || t == "bigint"@ ==> bounds_of(pg_type) == Some(
                (-9223372036854775808i64, 9223372036854775807i64),
            )
            &&& bounds_of(pg_type) is Some ==> t == "int2"@ || t == "smallint"@ || t == "int4"@
                || t == "int"@ || t == "integer"@ || t == "int8"@ || t == "bigint"@
        }),
{
    lemma_integer_names();
}

/// A whole number is a key of an integer column where the column's type holds
/// it, and nothing else is.
pub proof fn law_integer_keys_are_in_range(value: JsonV, t: Seq<char>, least: i64, most: i64)
    requires
        bounds_of(plain_type(t)) == Some((least, most)),
    ensures
        normal_value(value, t) == (match value {
            JsonV::Number(n) => match n.as_i64() {
                Some(i) => if least <= i <= most {
                    Some(JsonV::Number(NumberV::Int(i)))
                } else {
                    None
                },
                None => None,
            },
            _ => None,
        }),
{
}

/// What a key of any other type is. A truth is one of a column of truths, any
/// document one of a column of documents, a list one of a column of lists, and a
/// text one of any other; a number of digits is compared as its text, and one of
/// floating point as the nearest there is.
pub proof fn law_keys_are_of_their_columns_type(value: JsonV, pg_type: Seq<char>)
    requires
        bounds_of(plain_type(pg_type)) is None,
    ensures
        ({
            let t = plain_type(pg_type);
            let floating = t == "float4"@ || t == "float8"@ || t == "real"@ || t
                == "double precision"@;
            let exact = t == "numeric"@ || t == "decimal"@;
            let truth = t == "bool"@ || t == "boolean"@;
            let document = t == "json"@ || t == "jsonb"@;
            let list = crate::write::names_array(t);
            let r = normal_value(value, pg_type);
            if floating {
                r == (match value {
                    JsonV::Number(n) => match nearest_double(number_text(n)) {
                        Some(text) => Some(JsonV::Number(NumberV::Other(text))),
                        None => None,
                    },
                    _ => None,
                })
            } else if exact {
                r == (if value is Number {
                    Some(JsonV::String(number_text(value->Number_0)))
                } else {
                    None
                })
            } else if truth {
                r == (if value is Bool {
                    Some(value)
                } else {
                    None
                })
            } else if document {
                r == Some(value)
            } else if list {
                r == (if value is Array {
                    Some(value)
                } else {
                    None
                })
            } else {
                r == (if value is String {
                    Some(value)
                } else {
                    None
                })
            }
        }),
{
}

proof fn lemma_key_from(
    values: JsonV,
    columns: Seq<EntityKeyColumnV>,
    i: nat,
    typename: Seq<char>,
    key: Seq<JsonV>,
)
    requires
        i <= columns.len(),
        key.len() == i,
    ensures
        ({
            let r = key_from(values, columns, i, typename, key);
            r is Ok ==> {
                &&& (r->Ok_0).len() == columns.len()
                &&& (r->Ok_0).take(i as int) == key
                &&& forall|k: int|
                    i <= k < columns.len() ==> {
                        &&& values.get((#[trigger] columns[k]).field_name) is Some
                        &&& key_value(
                            typename,
                            columns[k],
                            values.get(columns[k].field_name)->0,
                        ) == Ok::<JsonV, ErrorV>((r->Ok_0)[k])
                    }
            }
        }),
    decreases columns.len() - i,
{
    if i < columns.len() {
        match values.get(columns[i as int].field_name) {
            None => {},
            Some(value) => match key_value(typename, columns[i as int], value) {
                Err(_) => {},
                Ok(normal) => {
                    lemma_key_from(values, columns, i + 1, typename, key.push(normal));
                    let r = key_from(values, columns, i, typename, key);
                    if r is Ok {
                        assert((r->Ok_0).take((i + 1) as int)[i as int] == normal);
                        assert((r->Ok_0).take(i as int) =~= key) by {
                            assert forall|k: int| 0 <= k < i implies (r->Ok_0)[k] == key[k] by {
                                assert((r->Ok_0).take((i + 1) as int)[k] == key.push(normal)[k]);
                            }
                        }
                    }
                },
            },
        }
    } else {
        assert(key.take(i as int) =~= key);
    }
}

/// The key of an entity is what its representation gives for each key field, in
/// the form its column compares it in, and in the order of the columns.
pub proof fn law_an_entitys_key_is_what_it_gives(
    values: JsonV,
    columns: Seq<EntityKeyColumnV>,
    typename: Seq<char>,
)
    ensures
        ({
            let r = entity_key(values, columns, typename);
            r is Ok ==> {
                &&& (r->Ok_0).0 == json_text(JsonV::Array((r->Ok_0).1))
                &&& (r->Ok_0).1.len() == columns.len()
                &&& forall|k: int|
                    0 <= k < columns.len() ==> {
                        let given = values.get((#[trigger] columns[k]).field_name);
                        &&& given is Some
                        &&& Some((r->Ok_0).1[k]) == (if columns[k].explicit_id {
                            normal_id(given->0, columns[k].pg_type)
                        } else {
                            normal_value(given->0, columns[k].pg_type)
                        })
                    }
            }
        }),
{
    lemma_key_from(values, columns, 0, typename, Seq::empty());
}

// ---------------------------------------------------------------------------
// Finding them
// ---------------------------------------------------------------------------

/// That the `i`th key column equals the value that is bound for it.
pub open spec fn key_is(columns: Seq<EntityKeyColumnV>, first: nat, i: int) -> Seq<char> {
    ident("pgrst_src"@) + "."@ + ident(columns[i].column_name) + " = $"@ + decimal(
        (first + i + 1) as nat,
    ) + "::"@ + columns[i].pg_type
}

proof fn lemma_key_conditions(
    columns: Seq<EntityKeyColumnV>,
    i: nat,
    first: nat,
    parts: Seq<Seq<char>>,
)
    requires
        i <= columns.len(),
        parts == Seq::new(i, |k: int| key_is(columns, first, k)),
    ensures
        key_conditions(columns, i, first, parts) == Seq::new(
            columns.len(),
            |k: int| key_is(columns, first, k),
        ),
    decreases columns.len() - i,
{
    if i < columns.len() {
        let more = parts.push(key_is(columns, first, i as int));
        assert(more =~= Seq::new(i + 1, |k: int| key_is(columns, first, k)));
        lemma_key_conditions(columns, i + 1, first, more);
    }
}

/// The rows that representations name, one condition for each, and the values
/// they bind after those before them.
pub open spec fn named_rows(
    lookup: EntityLookupV,
    list: Seq<JsonV>,
    bound: nat,
) -> Result<(Seq<Seq<char>>, Seq<JsonV>), ErrorV>
    decreases list.len(),
{
    if list.len() == 0 {
        Ok((Seq::empty(), Seq::empty()))
    } else {
        match entity_key(list[0], lookup.key_columns, lookup.typename) {
            Err(e) => Err(e),
            Ok((_, key)) => match named_rows(lookup, list.drop_first(), bound + key.len()) {
                Err(e) => Err(e),
                Ok((rest, values)) => Ok(
                    (
                        seq![
                            "("@ + joined(
                                Seq::new(
                                    lookup.key_columns.len(),
                                    |k: int| key_is(lookup.key_columns, bound, k),
                                ),
                                " AND "@,
                            ) + ")"@,
                        ] + rest,
                        key + values,
                    ),
                ),
            },
        }
    }
}

proof fn lemma_named_rows(
    lookup: EntityLookupV,
    list: Seq<JsonV>,
    i: nat,
    parts: Seq<Seq<char>>,
    values: Seq<JsonV>,
)
    requires
        i <= list.len(),
    ensures
        keys_from(lookup, list, i, parts, values) == (match named_rows(
            lookup,
            list.skip(i as int),
            values.len(),
        ) {
            Err(e) => Err(e),
            Ok((more, bound)) => Ok((parts + more, values + bound)),
        }),
    decreases list.len() - i,
{
    let rest = list.skip(i as int);
    if i < list.len() {
        assert(rest[0] == list[i as int]);
        assert(rest.drop_first() =~= list.skip((i + 1) as int));
        match entity_key(list[i as int], lookup.key_columns, lookup.typename) {
            Err(_) => {},
            Ok((_, key)) => {
                let none = Seq::<Seq<char>>::empty();
                let n = values.len();
                assert(none =~= Seq::new(0, |k: int| key_is(lookup.key_columns, n, k)));
                lemma_key_conditions(lookup.key_columns, 0, n, none);
                let part = "("@ + joined(
                    Seq::new(
                        lookup.key_columns.len(),
                        |k: int| key_is(lookup.key_columns, n, k),
                    ),
                    " AND "@,
                ) + ")"@;
                lemma_named_rows(lookup, list, i + 1, parts.push(part), values + key);
                match named_rows(lookup, rest.drop_first(), n + key.len()) {
                    Ok((more, bound)) => {
                        assert(parts.push(part) + more =~= parts + (seq![part] + more));
                        assert((values + key) + bound =~= values + (key + bound));
                    },
                    Err(_) => {},
                }
            },
        }
    } else {
        assert(parts + Seq::<Seq<char>>::empty() =~= parts);
        assert(values + Seq::<JsonV>::empty() =~= values);
    }
}

/// Entities are read together: the rows of which each has the key that one of
/// the representations gives. Where nothing is asked for nothing is read, and
/// what may not be seen is refused.
pub proof fn law_entities_are_read_by_their_keys(
    lookup: EntityLookupV,
    src: Sources<'_>,
    caller: Caller,
    list: Seq<JsonV>,
    fields: Seq<Selected>,
    max_rows: Option<i64>,
    parts: Seq<Seq<char>>,
    keyed: Seq<JsonV>,
    computed: Seq<Seq<char>>,
    embeds: Seq<EmbedV>,
    values: Seq<JsonV>,
)
    requires
        list.len() > 0,
        named_rows(lookup, list, 0) == Ok::<(Seq<Seq<char>>, Seq<JsonV>), ErrorV>((parts, keyed)),
        caller.ruled(lookup.schema_name, lookup.table_name, Verb::Select).filter matches Ok(None),
        row_extras(
            src.cache.table(lookup.schema_name, lookup.table_name),
            src,
            caller,
            lookup.typename,
            fields,
            max_rows,
            keyed,
        ) == Ok::<(Seq<Seq<char>>, Seq<EmbedV>, Seq<JsonV>), (ErrorV, Seq<JsonV>)>(
            (computed, embeds, values),
        ),
    ensures
        entity_query_of(lookup, src, caller, Seq::empty(), fields, max_rows) == Ok::<
            Option<QueryV>,
            ErrorV,
        >(None),
        entity_query_of(lookup, src, caller, list, fields, max_rows) == Ok::<
            Option<QueryV>,
            ErrorV,
        >(
            Some(
                QueryV {
                    sql: framed(
                        "SELECT "@ + crate::projection::row_as_json("t"@, lookup.row_column_types)
                            + " FROM (SELECT "@,
                        projected(
                            head_of(
                                renamed_in(
                                    src.cache.table(lookup.schema_name, lookup.table_name),
                                    *src.names,
                                ),
                            ),
                            computed,
                            embeds,
                        ),
                        " FROM ("@ + ("SELECT "@ + ident("pgrst_src"@) + ".* FROM "@ + ident2(
                            lookup.schema_name,
                            lookup.table_name,
                        ) + " AS "@ + ident("pgrst_src"@) + (" WHERE ("@ + joined(parts, " OR "@)
                            + ")"@)) + ") AS src) AS t"@,
                    ),
                    values,
                },
            ),
        ),
{
    let none = Seq::<Seq<char>>::empty();
    let nothing = Seq::<JsonV>::empty();
    lemma_named_rows(lookup, list, 0, none, nothing);
    assert(list.skip(0) =~= list);
    assert(none + parts =~= parts);
    assert(nothing + keyed =~= keyed);
}

// ---------------------------------------------------------------------------
// Answering them
// ---------------------------------------------------------------------------

/// Whether rows are found under their own keys.
pub open spec fn are_keyed(
    lookup: EntityLookupV,
    rows: Seq<JsonV>,
    found: Seq<(Seq<char>, JsonV)>,
) -> bool {
    forall|key: Seq<char>| #[trigger]
        entry_of(found, key) is Some ==> {
            let row = entry_of(found, key)->0;
            &&& rows.contains(row)
            &&& entity_key(row, lookup.key_columns, lookup.typename) matches Ok((own, _)) && own
                == key
        }
}

proof fn lemma_keyed_rows(
    lookup: EntityLookupV,
    rows: Seq<JsonV>,
    i: nat,
    found: Seq<(Seq<char>, JsonV)>,
)
    requires
        are_keyed(lookup, rows, found),
    ensures
        keyed_rows(lookup, rows, i, found) is Ok ==> are_keyed(
            lookup,
            rows,
            keyed_rows(lookup, rows, i, found)->Ok_0,
        ),
    decreases rows.len() - i,
{
    if i < rows.len() {
        match rows[i as int] {
            JsonV::Object(_) => match entity_key(
                rows[i as int],
                lookup.key_columns,
                lookup.typename,
            ) {
                Err(_) => {},
                Ok((key, _)) => {
                    let next = put(found, key, rows[i as int]);
                    assert forall|k: Seq<char>| #[trigger] entry_of(next, k) is Some implies {
                        let row = entry_of(next, k)->0;
                        &&& rows.contains(row)
                        &&& entity_key(
                            row,
                            lookup.key_columns,
                            lookup.typename,
                        ) matches Ok((own, _)) && own == k
                    } by {
                        law_put_then_get(found, key, rows[i as int], k);
                        if k != key {
                            assert(entry_of(found, k) is Some);
                        }
                    }
                    lemma_keyed_rows(lookup, rows, i + 1, next);
                },
            },
            _ => lemma_keyed_rows(lookup, rows, i + 1, found),
        }
    }
}

/// Whether the rows that were found so far answer the representations before the
/// `i`th.
pub open spec fn answer_so_far(
    lookup: EntityLookupV,
    rows: Seq<JsonV>,
    list: Seq<JsonV>,
    answer: Seq<JsonV>,
) -> bool {
    answer.len() <= list.len() && forall|k: int|
        0 <= k < answer.len() ==> {
            &&& rows.contains(#[trigger] answer[k])
            &&& same_key(lookup, answer[k], list[k])
        }
}

/// Whether a row has the key that a representation gives.
pub open spec fn same_key(lookup: EntityLookupV, row: JsonV, representation: JsonV) -> bool {
    match (
        entity_key(row, lookup.key_columns, lookup.typename),
        entity_key(representation, lookup.key_columns, lookup.typename),
    ) {
        (Ok((a, _)), Ok((b, _))) => a == b,
        _ => false,
    }
}

proof fn lemma_rows_for(
    lookup: EntityLookupV,
    rows: Seq<JsonV>,
    by_key: Seq<(Seq<char>, JsonV)>,
    list: Seq<JsonV>,
    i: nat,
    answer: Seq<JsonV>,
)
    requires
        are_keyed(lookup, rows, by_key),
        answer_so_far(lookup, rows, list, answer),
        answer.len() == i,
    ensures
        ({
            let r = rows_for(lookup, by_key, list, i, answer);
            r is Ok ==> answer_so_far(lookup, rows, list, r->Ok_0) && (r->Ok_0).len()
                == list.len()
        }),
    decreases list.len() - i,
{
    if i < list.len() {
        match entity_key(list[i as int], lookup.key_columns, lookup.typename) {
            Err(_) => {},
            Ok((key, _)) => match entry_of(by_key, key) {
                None => {},
                Some(row) => {
                    let next = answer.push(row);
                    assert forall|k: int| 0 <= k < next.len() implies {
                        &&& rows.contains(#[trigger] next[k])
                        &&& same_key(lookup, next[k], list[k])
                    } by {
                        if k < answer.len() {
                            assert(next[k] == answer[k]);
                        }
                    }
                    lemma_rows_for(lookup, rows, by_key, list, i + 1, next);
                },
            },
        }
    }
}

/// Each representation is answered, in its own place, with a row that was read
/// and has the key it gives.
pub proof fn law_representations_are_answered_by_their_rows(
    lookup: EntityLookupV,
    rows: Seq<JsonV>,
    list: Seq<JsonV>,
)
    ensures
        ({
            let r = entity_rows_of(lookup, rows, list);
            r is Ok ==> {
                &&& (r->Ok_0).len() == list.len()
                &&& forall|k: int|
                    0 <= k < list.len() ==> {
                        &&& rows.contains(#[trigger] (r->Ok_0)[k])
                        &&& same_key(lookup, (r->Ok_0)[k], list[k])
                    }
            }
        }),
{
    let none = Seq::<(Seq<char>, JsonV)>::empty();
    assert forall|key: Seq<char>| #[trigger] entry_of(none, key) is None by {}
    lemma_keyed_rows(lookup, rows, 0, none);
    match keyed_rows(lookup, rows, 0, none) {
        Err(_) => {},
        Ok(by_key) => {
            lemma_rows_for(lookup, rows, by_key, list, 0, Seq::empty());
        },
    }
}

/// A representation is of the type that it names, and one that names none is
/// refused.
pub proof fn law_representations_name_their_type(representation: JsonV)
    ensures
        !(representation is Object) ==> represented_type(representation) is Err,
        representation is Object ==> (match representation.get("__typename"@) {
            Some(JsonV::String(name)) => represented_type(representation) == Ok::<
                Seq<char>,
                ErrorV,
            >(name),
            _ => represented_type(representation) is Err,
        }),
{
}

proof fn lemma_represented(list: Seq<JsonV>, i: nat, found: Seq<Seq<char>>)
    requires
        i <= list.len(),
        found.len() == i,
        forall|k: int|
            0 <= k < i ==> represented_type(list[k]) == Ok::<Seq<char>, ErrorV>(
                #[trigger] found[k],
            ),
    ensures
        represented_from(list, i, found) is Ok ==> {
            let types = represented_from(list, i, found)->Ok_0;
            &&& types.len() == list.len()
            &&& forall|k: int|
                0 <= k < list.len() ==> represented_type(list[k]) == Ok::<Seq<char>, ErrorV>(
                    #[trigger] types[k],
                )
        },
    decreases list.len() - i,
{
    if i < list.len() {
        match represented_type(list[i as int]) {
            Ok(name) => {
                let next = found.push(name);
                assert forall|k: int| 0 <= k < i + 1 implies represented_type(list[k]) == Ok::<
                    Seq<char>,
                    ErrorV,
                >(#[trigger] next[k]) by {
                    if k < i {
                        assert(next[k] == found[k]);
                    }
                }
                lemma_represented(list, i + 1, next);
            },
            Err(_) => {},
        }
    }
}

/// Each representation stands with its own type, in the order they came.
pub proof fn law_every_representation_has_a_type(list: Seq<JsonV>)
    ensures
        represented_from(list, 0, Seq::empty()) is Ok ==> {
            let types = represented_from(list, 0, Seq::empty())->Ok_0;
            &&& types.len() == list.len()
            &&& forall|k: int|
                0 <= k < list.len() ==> represented_type(list[k]) == Ok::<Seq<char>, ErrorV>(
                    #[trigger] types[k],
                )
        },
{
    lemma_represented(list, 0, Seq::empty());
}

/// A fragment applies to entities of the type it is on, and to those of every
/// type where it is on any.
pub proof fn law_fragments_apply_to_their_type(on: Seq<char>, typename: Seq<char>)
    ensures
        applies_to(typename, typename),
        applies_to("_Entity"@, typename),
        on != typename && on != "_Entity"@ ==> !applies_to(on, typename),
{
}

proof fn lemma_applicable(
    fields: Seq<Selected>,
    applies: Seq<bool>,
    i: nat,
    found: Seq<Selected>,
)
    requires
        i <= fields.len(),
        fields.len() == applies.len(),
    ensures
        ({
            let r = applicable(fields, applies, i, found);
            &&& forall|k: int| 0 <= k < found.len() ==> r.contains(#[trigger] found[k])
            &&& forall|k: int|
                i <= k < fields.len() && applies[k] ==> r.contains(#[trigger] fields[k])
            &&& forall|m: int|
                0 <= m < r.len() ==> found.contains(#[trigger] r[m]) || exists|k: int|
                    i <= k < fields.len() && applies[k] && #[trigger] fields[k] == r[m]
        }),
    decreases fields.len() - i,
{
    let r = applicable(fields, applies, i, found);
    if i < fields.len() {
        let next = if applies[i as int] {
            found.push(fields[i as int])
        } else {
            found
        };
        lemma_applicable(fields, applies, i + 1, next);
        assert(r == applicable(fields, applies, i + 1, next));
        assert forall|k: int| 0 <= k < found.len() implies r.contains(#[trigger] found[k]) by {
            assert(next[k] == found[k]);
            assert(r.contains(next[k]));
        }
        if applies[i as int] {
            assert(r.contains(next[found.len() as int]));
        }
        assert forall|m: int| 0 <= m < r.len() implies found.contains(#[trigger] r[m])
            || exists|k: int|
            i <= k < fields.len() && applies[k] && #[trigger] fields[k] == r[m] by {
            if next.contains(r[m]) && !found.contains(r[m]) {
                let j = choose|j: int| 0 <= j < next.len() && next[j] == r[m];
                if j < found.len() {
                    assert(found[j] == r[m]);
                }
                assert(fields[i as int] == r[m]);
            }
        }
    } else {
        assert forall|m: int| 0 <= m < r.len() implies found.contains(#[trigger] r[m]) by {
            assert(found[m] == r[m]);
        }
    }
}

/// Whether a field is one of those that apply.
pub open spec fn is_applicable(fields: Seq<Selected>, applies: Seq<bool>, field: Selected) -> bool {
    exists|k: int| 0 <= k < fields.len() && applies[k] && #[trigger] fields[k] == field
}

/// What is read of an entity is what was asked of its type, and nothing that was
/// asked of others.
pub proof fn law_only_what_applies_is_read(fields: Seq<Selected>, applies: Seq<bool>)
    requires
        fields.len() == applies.len(),
    ensures
        ({
            let r = applicable(fields, applies, 0, Seq::empty());
            &&& forall|k: int|
                0 <= k < fields.len() && applies[k] ==> r.contains(#[trigger] fields[k])
            &&& forall|m: int|
                0 <= m < r.len() ==> is_applicable(fields, applies, #[trigger] r[m])
        }),
{
    lemma_applicable(fields, applies, 0, Seq::empty());
    let r = applicable(fields, applies, 0, Seq::empty());
    assert forall|m: int| 0 <= m < r.len() implies is_applicable(
        fields,
        applies,
        #[trigger] r[m],
    ) by {
        assert(!Seq::<Selected>::empty().contains(r[m]));
    }
}

} // verus!
