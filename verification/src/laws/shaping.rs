//! What the types that are offered look like.

use crate::catalog::{present_always, RelationshipField};
use crate::generated::{
    key_type, type_text, written_type, AggregateFunction, FederationEntity, GraphQLField,
    GraphQLType, PgType, TableObjectType,
};
use crate::lookup::named;
use crate::object_types::{
    column_field, count_field, function_type, functions_type, list_arguments_of, over_type,
    related_field, related_numbers, response_of, row_arguments_of, row_type,
};
use crate::schema_def::{read_type, ArgumentV, FieldDefV, Source, TypeRefV};
use crate::text::{has_prefix, has_suffix, joined, texts};
use vstd::prelude::*;

verus! {

/// One value of a type, which may be missing.
pub open spec fn maybe(name: Seq<char>) -> TypeRefV {
    TypeRefV { name, list: false, item_required: false, required: false }
}

/// One value of a type.
pub open spec fn always(name: Seq<char>) -> TypeRefV {
    TypeRefV { name, list: false, item_required: false, required: true }
}

/// A list of values of a type, which may be missing.
pub open spec fn maybe_many(name: Seq<char>) -> TypeRefV {
    TypeRefV { name, list: true, item_required: true, required: false }
}

/// A list of values of a type.
pub open spec fn many(name: Seq<char>) -> TypeRefV {
    TypeRefV { name, list: true, item_required: true, required: true }
}

/// An argument of a type.
pub open spec fn takes(name: Seq<char>, ty: TypeRefV) -> ArgumentV {
    ArgumentV { name, ty, description: None, empty_default: false }
}

/// A field that takes nothing.
pub open spec fn gives(name: Seq<char>, ty: TypeRefV, source: Source) -> FieldDefV {
    FieldDefV {
        name,
        ty,
        arguments: Seq::empty(),
        description: None,
        shareable: false,
        source,
    }
}

// ---------------------------------------------------------------------------
// Names of types
// ---------------------------------------------------------------------------

/// Each type goes by its own name, and a list by that of its members in
/// brackets.
pub proof fn law_types_have_names(inner: GraphQLType, name: String)
    ensures
        type_text(GraphQLType::Int) == "Int"@,
        type_text(GraphQLType::Float) == "Float"@,
        type_text(GraphQLType::String) == "String"@,
        type_text(GraphQLType::Boolean) == "Boolean"@,
        type_text(GraphQLType::Id) == "ID"@,
        type_text(GraphQLType::Json) == "jsonb"@,
        type_text(GraphQLType::Custom(name)) == name@,
        type_text(GraphQLType::List(Box::new(inner))) == "["@ + type_text(inner) + "]"@,
{
}

/// A type is written as a list where it is one, of members that may be missing,
/// and as it is otherwise.
pub proof fn law_types_are_written(t: GraphQLType, inner: GraphQLType)
    requires
        !(t is List),
        !(inner is List),
    ensures
        written_type(t) == maybe(type_text(t)),
        written_type(GraphQLType::List(Box::new(inner))) == (TypeRefV {
            name: type_text(inner),
            list: true,
            item_required: false,
            required: false,
        }),
{
    reveal_with_fuel(crate::generated::leaf_text, 2);
}

/// Whether a name holds none of the marks of a type.
pub open spec fn is_plain(name: Seq<char>) -> bool {
    name.len() > 0 && forall|i: int|
        0 <= i < name.len() ==> (#[trigger] name[i]) != '[' && name[i] != ']' && name[i] != '!'
}

proof fn lemma_trimmed_end(s: Seq<char>, c: char)
    requires
        s.len() > 0,
        s.last() != c,
    ensures
        crate::schema_def::trimmed_end(s, c) == s,
        crate::schema_def::trimmed_end(s.push(c), c) == s,
{
    assert(s.push(c).drop_last() =~= s);
    assert(crate::schema_def::trimmed_end(s.push(c).drop_last(), c) == s);
}

/// A type is read by its marks: a mark behind it where it may not be missing,
/// brackets round it where it is a list, and a mark within them where its
/// members may not be missing.
pub proof fn law_types_are_read_by_their_marks(name: Seq<char>)
    requires
        is_plain(name),
    ensures
        read_type(name) == maybe(name),
        read_type(name.push('!')) == always(name),
        read_type(seq!['['] + name + seq!['!', ']', '!']) == many(name),
        read_type(seq!['['] + name + seq!['!', ']']) == maybe_many(name),
        read_type(seq!['['] + name + seq![']']) == (TypeRefV {
            name,
            list: true,
            item_required: false,
            required: false,
        }),
{
    reveal_strlit("[");
    reveal_strlit("!");
    assert(name[0] != '[');
    assert(name.last() != '!' && name.last() != ']');
    lemma_trimmed_end(name, '!');
    lemma_prefix(name, '[');
    lemma_prefix(name.push('!'), '[');
    lemma_suffix(name, '!');
    lemma_suffix(name.push('!'), '!');
    assert(name.push('!')[0] == name[0]);
    lemma_listed_type(name, false, false);
    lemma_listed_type(name, true, false);
    lemma_listed_type(name, true, true);
    assert(seq!['['] + name + seq!['!', ']', '!'] =~= (seq!['['] + name.push('!')).push(']').push(
        '!',
    ));
    assert(seq!['['] + name + seq!['!', ']'] =~= (seq!['['] + name.push('!')).push(']'));
    assert(seq!['['] + name + seq![']'] =~= (seq!['['] + name).push(']'));
}

proof fn lemma_prefix(s: Seq<char>, c: char)
    requires
        s.len() > 0,
        c == '[',
    ensures
        has_prefix(s, "["@) == (s[0] == c),
{
    reveal_strlit("[");
    assert("["@ =~= seq!['[']);
    if s[0] == c {
        assert(s.take(1) =~= "["@);
    } else if has_prefix(s, "["@) {
        assert(s.take(1)[0] == "["@[0]);
    }
}

proof fn lemma_suffix(s: Seq<char>, c: char)
    requires
        s.len() > 0,
        c == '!',
    ensures
        has_suffix(s, "!"@) == (s.last() == c),
{
    reveal_strlit("!");
    assert("!"@ =~= seq!['!']);
    if s.last() == c {
        assert(s.skip(s.len() - 1) =~= "!"@);
    } else if has_suffix(s, "!"@) {
        assert(s.skip(s.len() - 1)[0] == "!"@[0]);
    }
}

proof fn lemma_listed_type(name: Seq<char>, inner_marked: bool, outer_marked: bool)
    requires
        is_plain(name),
    ensures
        ({
            let inner = if inner_marked {
                name.push('!')
            } else {
                name
            };
            let list = (seq!['['] + inner).push(']');
            let text = if outer_marked {
                list.push('!')
            } else {
                list
            };
            read_type(text) == (TypeRefV {
                name,
                list: true,
                item_required: inner_marked,
                required: outer_marked,
            })
        }),
{
    let inner = if inner_marked {
        name.push('!')
    } else {
        name
    };
    let opened = seq!['['] + inner;
    let list = opened.push(']');
    let text = if outer_marked {
        list.push('!')
    } else {
        list
    };
    assert(name[0] != '[' && name[0] != ']');
    assert(name.last() != '!' && name.last() != ']' && name.last() != '[');
    assert(list.last() == ']' && list[0] == '[');
    lemma_trimmed_end(list, '!');
    assert(text[0] == '[');
    lemma_prefix(text, '[');
    lemma_suffix(text, '!');
    assert(crate::schema_def::trimmed_end(text, '!') == list);
    let body = inner.push(']');
    assert(list.drop_first() =~= body);
    assert(body[0] == name[0]);
    assert(crate::schema_def::trimmed_start(body, '[') == body);
    assert(crate::schema_def::trimmed_start(list, '[') == body);
    lemma_trimmed_end(inner, ']');
    assert(crate::schema_def::trimmed_end(body, ']') == inner);
    lemma_trimmed_end(name, '!');
    assert(crate::schema_def::trimmed_end(inner, '!') == name);
    lemma_suffix(inner, '!');
}

/// A key of a type that is not known is of the type's own name, and one of a
/// list is a text.
pub proof fn law_keys_have_types(types: Seq<PgType>, pg_type: Seq<char>)
    ensures
        key_type(types, pg_type) == ({
            let shown = match named(types, pg_type) {
                Some(found) => type_text(found.graphql),
                None => pg_type,
            };
            if has_prefix(shown, "["@) {
                "String"@
            } else {
                shown
            }
        }),
{
}

// ---------------------------------------------------------------------------
// Rows
// ---------------------------------------------------------------------------

/// What a list of related rows takes: which rows to keep of each group, which to
/// read, in what order, how many and from where.
pub proof fn law_lists_take_arguments(base: Seq<char>)
    ensures
        list_arguments_of(base) == seq![
            takes("distinct_on"@, maybe_many(base + "_select_column"@)),
            takes("where"@, maybe(base + "_bool_exp"@)),
            takes("order_by"@, maybe_many(base + "_order_by"@)),
            takes("limit"@, maybe("Int"@)),
            takes("offset"@, maybe("Int"@)),
        ],
        row_arguments_of(base, true) == seq![
            takes("distinct_on"@, maybe_many(base + "_select_column"@)),
            takes("limit"@, maybe("Int"@)),
            takes("offset"@, maybe("Int"@)),
            takes("order_by"@, maybe_many(base + "_order_by"@)),
            takes("where"@, maybe(base + "_bool_exp"@)),
        ],
        row_arguments_of(base, false) == seq![
            takes("limit"@, maybe("Int"@)),
            takes("offset"@, maybe("Int"@)),
            takes("where"@, maybe(base + "_bool_exp"@)),
        ],
{
}

/// A column is a field of its own name and type. One that holds documents takes
/// a path into them, and one that is computed with arguments takes those.
pub proof fn law_columns_are_fields(object: TableObjectType, field: GraphQLField, shared: bool)
    ensures
        ({
            let r = column_field(object, field, shared);
            let document = field.graphql_type is Json || (field.graphql_type is Custom
                && (field.graphql_type->Custom_0)@ == "json"@);
            let path = ArgumentV {
                name: "path"@,
                ty: maybe("String"@),
                description: Some("JSON select path"@),
                empty_default: false,
            };
            let args = takes(
                "args"@,
                always(object.local_name@ + "_"@ + field.name@ + "_args"@),
            );
            &&& r.name == field.name@
            &&& r.ty == read_type(field.type_string@)
            &&& r.shareable == (shared && !field.is_pk)
            &&& r.source == (Source::Column { path: document })
            &&& r.arguments == (if document {
                seq![path]
            } else {
                Seq::empty()
            }) + (if field.arguments@.len() > 0 {
                seq![args]
            } else {
                Seq::empty()
            })
        }),
{
    let r = column_field(object, field, shared);
    let args = takes("args"@, always(object.local_name@ + "_"@ + field.name@ + "_args"@));
    let first = r.arguments;
    if field.arguments@.len() > 0 {
        let before = first.drop_last();
        assert(first =~= before + seq![args]);
    }
}

/// A relationship is a field of the rows it leads to: a list of them where there
/// may be many, one that is there where its keys always lead to one, and one that
/// may be missing otherwise.
pub proof fn law_relationships_are_fields(
    object: TableObjectType,
    rel: RelationshipField,
    shared: bool,
)
    ensures
        ({
            let r = related_field(object, rel, shared);
            let args = takes("args"@, always(object.local_name@ + "_"@ + rel.name@ + "_args"@));
            &&& r.name == rel.name@
            &&& r.ty == (if rel.is_list {
                many(rel.target_type@)
            } else if present_always(rel.relationship.kind, object.table) {
                always(rel.target_type@)
            } else {
                maybe(rel.target_type@)
            })
            &&& r.shareable == shared
            &&& r.source == (Source::Related { list: rel.is_list })
            &&& r.arguments == (if rel.arguments@.len() > 0 {
                seq![args]
            } else {
                Seq::empty()
            }) + (if rel.is_list {
                list_arguments_of(rel.target_local_name@)
            } else {
                Seq::empty()
            })
        }),
{
    let r = related_field(object, rel, shared);
    let args = takes("args"@, always(object.local_name@ + "_"@ + rel.name@ + "_args"@));
    let none = Seq::<ArgumentV>::empty();
    assert(none.push(args) =~= seq![args]);
    if !rel.is_list {
        assert(r.arguments + none =~= r.arguments);
    }
}

/// A list of related rows is counted by a field of its own name with a word
/// behind it, which takes what the list takes.
pub proof fn law_related_rows_have_numbers(
    object: TableObjectType,
    rel: RelationshipField,
    shared: bool,
)
    ensures
        ({
            let r = related_numbers(object, rel, shared);
            let args = takes("args"@, always(object.local_name@ + "_"@ + rel.name@ + "_args"@));
            &&& r.name == rel.name@ + "_aggregate"@
            &&& r.ty == always(rel.target_local_name@ + "_aggregate"@)
            &&& r.source is RelatedNumbers
            &&& r.description == Some("Aggregates over "@ + rel.name@ + "."@)
            &&& r.arguments == list_arguments_of(rel.target_local_name@) + (if rel.arguments@.len()
                > 0 {
                seq![args]
            } else {
                Seq::empty()
            })
        }),
{
    let r = related_numbers(object, rel, shared);
    let list = list_arguments_of(rel.target_local_name@);
    let args = takes("args"@, always(object.local_name@ + "_"@ + rel.name@ + "_args"@));
    if rel.arguments@.len() > 0 {
        assert(list.push(args) =~= list + seq![args]);
    } else {
        assert(list + Seq::<ArgumentV>::empty() =~= list);
    }
}

/// A table's type goes by its name and is described by what was said of it, or
/// by what it holds; nothing is said where nothing was meant to be. Its key is
/// made of the fields it is known by to others.
pub proof fn law_rows_have_types(
    object: TableObjectType,
    relationships: Seq<RelationshipField>,
    entity: Option<FederationEntity>,
)
    ensures
        ({
            let r = row_type(object, relationships, entity);
            &&& r.name == object.name@
            &&& object.description is None ==> r.description == Some(
                "columns and relationships of \""@ + object.table.name@ + "\""@,
            )
            &&& object.description is Some && object.description->0@.len() > 0 ==> r.description
                == Some(object.description->0@)
            &&& object.description is Some && object.description->0@.len() == 0
                ==> r.description is None
            &&& entity is None ==> r.key is None
            &&& entity is Some ==> r.key == Some(joined(texts(entity->0.key_fields@), " "@))
        }),
{
}

// ---------------------------------------------------------------------------
// Numbers and answers
// ---------------------------------------------------------------------------

/// What a mutation answers with: how many rows changed, and the rows where they
/// may be seen.
pub proof fn law_mutations_have_answers(base: Seq<char>, row: Seq<char>, returning: bool)
    ensures
        ({
            let r = response_of(base, row, returning);
            &&& r.name == base + "_mutation_response"@
            &&& r.description == Some("The rows "@ + base + " changed, and how many."@)
            &&& r.key is None
            &&& r.fields == (if returning {
                seq![
                    gives("affected_rows"@, always("Int"@), Source::AffectedRows),
                    gives("returning"@, many(row), Source::Returning),
                ]
            } else {
                seq![gives("affected_rows"@, always("Int"@), Source::AffectedRows)]
            })
        }),
{
}

/// Rows are counted with, where columns may be seen, those to count and whether
/// each value is counted once.
pub proof fn law_rows_can_be_counted(base: Seq<char>, has_rows: bool)
    ensures
        count_field(base, has_rows) == (FieldDefV {
            arguments: if has_rows {
                seq![
                    takes("columns"@, maybe_many(base + "_select_column"@)),
                    takes("distinct"@, maybe("Boolean"@)),
                ]
            } else {
                Seq::empty()
            },
            ..gives("count"@, always("Int"@), Source::Count)
        }),
{
}

/// A function gives a number for each column it applies to, in its own type.
pub proof fn law_functions_give_numbers(base: Seq<char>, function: AggregateFunction, i: int)
    requires
        0 <= i < function.columns@.len(),
    ensures
        function_type(base, function).name == base + "_"@ + function.name@ + "_fields"@,
        function_type(base, function).description == Some(
            "`"@ + function.name@ + "` of each "@ + base + " column it applies to."@,
        ),
        function_type(base, function).fields.len() == function.columns@.len(),
        function_type(base, function).fields[i] == gives(
            function.columns@[i].0@,
            maybe(function.columns@[i].1@),
            Source::ColumnNumber,
        ),
{
}

/// What numbers there are of a table's rows: their count, and each function over
/// its columns.
pub proof fn law_tables_have_numbers(base: Seq<char>, object: TableObjectType, i: int)
    requires
        0 <= i < object.aggregates@.len(),
    ensures
        functions_type(base, object).name == base + "_aggregate_fields"@,
        functions_type(base, object).description == Some("Aggregate functions over "@ + base + "."@),
        functions_type(base, object).fields.len() == object.aggregates@.len() + 1,
        functions_type(base, object).fields[0] == count_field(base, object.fields@.len() > 0),
        functions_type(base, object).fields[i + 1] == gives(
            object.aggregates@[i].name@,
            maybe(base + "_"@ + object.aggregates@[i].name@ + "_fields"@),
            Source::FunctionNumbers,
        ),
{
    let rest = Seq::new(
        object.aggregates@.len(),
        |k: int|
            gives(
                object.aggregates@[k].name@,
                maybe(base + "_"@ + object.aggregates@[k].name@ + "_fields"@),
                Source::FunctionNumbers,
            ),
    );
    let fields = functions_type(base, object).fields;
    assert(fields =~= seq![count_field(base, object.fields@.len() > 0)] + rest);
    assert(fields[i + 1] == rest[i]);
}

/// Numbers are answered beside the rows they are of, where those may be seen.
pub proof fn law_numbers_stand_beside_rows(base: Seq<char>, object: TableObjectType)
    ensures
        ({
            let r = over_type(base, object);
            &&& r.name == base + "_aggregate"@
            &&& object.fields@.len() > 0 ==> {
                &&& r.description == Some(
                    "Aggregates over "@ + base + ", with the rows themselves."@,
                )
                &&& r.fields == seq![
                    gives("aggregate"@, maybe(base + "_aggregate_fields"@), Source::Numbers),
                    gives("nodes"@, many(object.name@), Source::Nodes),
                ]
            }
            &&& object.fields@.len() == 0 ==> {
                &&& r.description == Some("Aggregates over "@ + base + "."@)
                &&& r.fields == seq![
                    gives("aggregate"@, maybe(base + "_aggregate_fields"@), Source::Numbers),
                ]
            }
        }),
{
}

} // verus!
