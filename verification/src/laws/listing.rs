//! What is among several things, and what is left out.

use crate::catalog::{EmbedPlan, FunctionArgument, NameOverrides, RelationshipField, Table};
use crate::condition::{correlation_of, source_of};
use crate::embed::{plain_entries, row_select, EmbedV, Selected};
use crate::error::ErrorV;
use crate::generated::{
    any_document, any_number, may_write, update_fields_of, EnumType, GeneratedSchema, GraphQLField,
    PgType, TableObjectType,
};
use crate::input::mutation::InputValue;
use crate::inputs::{
    has_columns, input_place, put_input_of, relationships_in, type_insertable, update_inputs_of,
    write_inputs_of,
};
use crate::insert::{next_step, InsertionV, StepV};
use crate::lookup::named;
use crate::plan::FieldV;
use crate::projection::placed_in;
use crate::read::same_arguments;
use crate::resolver::mutation::insert_columns;
use crate::resolver::query::{named_columns, selected};
use crate::roots::{
    function_numbers_field, function_rows_field, has_conflict, has_document, has_number, root_taken,
    with_functions,
};
use crate::schema::{
    boolean_columns, has_rows, local_name_of, object_place, put_object_of, row_function_input,
    target_type_in, targets_of, with_computed_inputs, with_related_inputs, with_table_enums,
};
use crate::schema_def::{EnumDefV, FieldDefV, InputDefV, ObjectDefV};
use crate::scope::ScopeV;
use crate::statement::WriteSources;
use crate::text::{has_text, ident2};
use vstd::prelude::*;

verus! {

// ---------------------------------------------------------------------------
// Types and roots
// ---------------------------------------------------------------------------

/// The type of a table, by either of its names.
pub open spec fn one_type(
    generated: GeneratedSchema,
    holds: spec_fn(TableObjectType) -> bool,
) -> bool {
    exists|i: int|
        0 <= i < generated.object_types@.len() && holds(#[trigger] generated.object_types@[i])
}

/// Rows of a type may be inserted where a type of that name is insertable.
pub proof fn law_insertable_types_are_known(generated: GeneratedSchema, typename: Seq<char>)
    ensures
        type_insertable(generated, typename) == one_type(
            generated,
            |o: TableObjectType| o.name@ == typename && o.insertable,
        ),
{
    let holds = |o: TableObjectType| o.name@ == typename && o.insertable;
    if type_insertable(generated, typename) {
        let i = choose|i: int|
            0 <= i < generated.object_types@.len() && (
            #[trigger] generated.object_types@[i]).name@ == typename
                && generated.object_types@[i].insertable;
        assert(holds(generated.object_types@[i]));
    }
    if one_type(generated, holds) {
        let i = choose|i: int|
            0 <= i < generated.object_types@.len() && holds(
                #[trigger] generated.object_types@[i],
            );
        assert(generated.object_types@[i].name@ == typename);
    }
}

/// A table may be added to, changed within its documents or conflicted with
/// where the type of its name has a number or a document among the columns that
/// may be updated, or a uniqueness.
pub proof fn law_tables_offer_what_their_columns_do(
    generated: GeneratedSchema,
    names: NameOverrides,
    base: Seq<char>,
    i: int,
)
    requires
        0 <= i < generated.object_types@.len(),
        generated.object_types@[i].local_name@ == base,
        forall|k: int|
            0 <= k < generated.object_types@.len() && k != i ==> (
            #[trigger] generated.object_types@[k]).local_name@ != base,
    ensures
        ({
            let object = generated.object_types@[i];
            let fields = update_fields_of(object, names);
            &&& has_conflict(generated, base) == (object.table.unique_constraints@.len() > 0)
            &&& has_number(generated, names, base) == (exists|k: int|
                0 <= k < fields.len() && (#[trigger] fields[k]).incrementable)
            &&& has_document(generated, names, base) == (exists|k: int|
                0 <= k < fields.len() && (#[trigger] fields[k]).graphql_type is Json)
        }),
{
    let object = generated.object_types@[i];
    let fields = update_fields_of(object, names);
    if any_number(fields) {
        assert(generated.object_types@[i].local_name@ == base);
    }
    if exists|k: int| 0 <= k < fields.len() && (#[trigger] fields[k]).graphql_type is Json {
        assert(any_document(fields));
        assert(generated.object_types@[i].local_name@ == base);
    }
}

/// A column may be written where the table has it, the server does not always
/// make it, and it is among those that are allowed where some are.
pub proof fn law_columns_may_be_written(
    field: GraphQLField,
    object: TableObjectType,
    names: NameOverrides,
    allowed: Seq<Seq<char>>,
)
    ensures
        ({
            let column = crate::catalog::column_behind(
                names,
                object.table.schema@,
                object.table.name@,
                field.name@,
            );
            &&& object.table.column(column) is None ==> !may_write(field, object, names, None)
                && !may_write(field, object, names, Some(allowed))
            &&& object.table.column(column) matches Some(found) ==> {
                &&& may_write(field, object, names, None) == !found.always_generated
                &&& may_write(field, object, names, Some(allowed)) == (!found.always_generated
                    && has_text(allowed, column))
            }
        }),
{
}

/// A root's name is taken where a field of the same root has it: of mutations
/// for a function that changes things, and of queries for one that does not.
pub proof fn law_names_of_roots_are_taken(
    generated: GeneratedSchema,
    name: Seq<char>,
    i: int,
)
    ensures
        0 <= i < generated.query_fields@.len() && generated.query_fields@[i].name@ == name
            ==> root_taken(generated, false, name),
        0 <= i < generated.mutation_fields@.len() && generated.mutation_fields@[i].name@ == name
            ==> root_taken(generated, true, name),
        (forall|k: int|
            0 <= k < generated.query_fields@.len() ==> (
            #[trigger] generated.query_fields@[k]).name@ != name) ==> !root_taken(
            generated,
            false,
            name,
        ),
        (forall|k: int|
            0 <= k < generated.mutation_fields@.len() ==> (
            #[trigger] generated.mutation_fields@[k]).name@ != name) ==> !root_taken(
            generated,
            true,
            name,
        ),
{
}

proof fn lemma_with_functions(
    generated: GeneratedSchema,
    volatile: bool,
    i: nat,
    fields: Seq<FieldDefV>,
    k: int,
)
    requires
        0 <= k < generated.function_fields@.len(),
        generated.function_fields@.len() <= usize::MAX,
        k < i ==> (offered(generated, volatile, k) ==> fields.contains(
            function_rows_field(generated.function_fields@[k], k as usize),
        ) && fields.contains(
            function_numbers_field(generated.function_fields@[k], k as usize),
        )),
    ensures
        offered(generated, volatile, k) ==> {
            let r = with_functions(generated, volatile, i, fields);
            &&& r.contains(function_rows_field(generated.function_fields@[k], k as usize))
            &&& r.contains(function_numbers_field(generated.function_fields@[k], k as usize))
        },
    decreases generated.function_fields@.len() - i,
{
    if i < generated.function_fields@.len() {
        let function = generated.function_fields@[i as int];
        let rows = function_rows_field(function, i as usize);
        let numbers = function_numbers_field(function, i as usize);
        let next = if offered(generated, volatile, i as int) {
            fields.push(rows).push(numbers)
        } else {
            fields
        };
        if offered(generated, volatile, i as int) {
            assert(next[fields.len() as int] == rows);
            assert(next[(fields.len() + 1) as int] == numbers);
            if k < i && offered(generated, volatile, k) {
                let kr = function_rows_field(generated.function_fields@[k], k as usize);
                let kn = function_numbers_field(generated.function_fields@[k], k as usize);
                let a = choose|a: int| 0 <= a < fields.len() && fields[a] == kr;
                let b = choose|b: int| 0 <= b < fields.len() && fields[b] == kn;
                assert(next[a] == kr);
                assert(next[b] == kn);
            }
        }
        lemma_with_functions(generated, volatile, i + 1, next, k);
    }
}

/// Whether a function is offered by a root: it is of that root, and no field has
/// its name.
pub open spec fn offered(generated: GeneratedSchema, volatile: bool, k: int) -> bool {
    generated.function_fields@[k].volatile == volatile && !root_taken(
        generated,
        volatile,
        generated.function_fields@[k].name@,
    )
}

/// Every function is read by the root it belongs to: its rows, and the numbers of
/// them.
pub proof fn law_functions_are_offered(
    generated: GeneratedSchema,
    volatile: bool,
    fields: Seq<FieldDefV>,
    k: int,
)
    requires
        0 <= k < generated.function_fields@.len(),
        generated.function_fields@.len() <= usize::MAX,
        offered(generated, volatile, k),
    ensures
        ({
            let r = with_functions(generated, volatile, 0, fields);
            &&& r.contains(function_rows_field(generated.function_fields@[k], k as usize))
            &&& r.contains(function_numbers_field(generated.function_fields@[k], k as usize))
        }),
{
    lemma_with_functions(generated, volatile, 0, fields, k);
}

/// A type has rows where it is known and has fields.
pub proof fn law_types_have_rows(generated: GeneratedSchema, typename: Seq<char>)
    ensures
        has_rows(generated, typename) == (match named(generated.object_types@, typename) {
            Some(object) => object.fields@.len() > 0,
            None => false,
        }),
        local_name_of(generated, typename) == (match named(generated.object_types@, typename) {
            Some(object) => object.local_name@,
            None => typename,
        }),
{
}

/// A definition takes the place of the one of its name, and comes last where
/// there is none.
pub proof fn law_a_definition_replaces_its_namesake(
    s: Seq<ObjectDefV>,
    object: ObjectDefV,
    k: int,
)
    ensures
        0 <= k < s.len() && s[k].name == object.name && (forall|j: int|
            0 <= j < k ==> (#[trigger] s[j]).name != object.name) ==> put_object_of(s, object)
            == s.update(k, object),
        (forall|j: int| 0 <= j < s.len() ==> (#[trigger] s[j]).name != object.name)
            ==> put_object_of(s, object) == s.push(object),
{
    lemma_object_place(s, object.name, 0);
}

proof fn lemma_object_place(s: Seq<ObjectDefV>, name: Seq<char>, i: nat)
    requires
        i <= s.len(),
    ensures
        ({
            let p = object_place(s, name, i);
            &&& i <= p <= s.len()
            &&& p < s.len() ==> s[p as int].name == name
            &&& forall|j: int| i <= j < p ==> (#[trigger] s[j]).name != name
        }),
    decreases s.len() - i,
{
    if i < s.len() && s[i as int].name != name {
        lemma_object_place(s, name, i + 1);
    }
}

/// The same holds of inputs.
pub proof fn law_an_input_replaces_its_namesake(s: Seq<InputDefV>, input: InputDefV, k: int)
    ensures
        0 <= k < s.len() && s[k].name == input.name && (forall|j: int|
            0 <= j < k ==> (#[trigger] s[j]).name != input.name) ==> put_input_of(s, input)
            == s.update(k, input),
        (forall|j: int| 0 <= j < s.len() ==> (#[trigger] s[j]).name != input.name)
            ==> put_input_of(s, input) == s.push(input),
{
    lemma_input_place(s, input.name, 0);
}

proof fn lemma_input_place(s: Seq<InputDefV>, name: Seq<char>, i: nat)
    requires
        i <= s.len(),
    ensures
        ({
            let p = input_place(s, name, i);
            &&& i <= p <= s.len()
            &&& p < s.len() ==> s[p as int].name == name
            &&& forall|j: int| i <= j < p ==> (#[trigger] s[j]).name != name
        }),
    decreases s.len() - i,
{
    if i < s.len() && s[i as int].name != name {
        lemma_input_place(s, name, i + 1);
    }
}

/// The columns of truths are those of the table that are truths.
pub proof fn law_columns_of_truths_are_found(
    object: TableObjectType,
    field: GraphQLField,
    found: Seq<Seq<char>>,
)
    requires
        object.fields@ == seq![field],
    ensures
        boolean_columns(object, 0, found) == (if object.table.column(field.name@) is Some
            && field.graphql_type is Boolean {
            found.push(field.name@)
        } else {
            found
        }),
{
    assert(object.fields@[0] == field);
    assert(boolean_columns(object, 1, found) == found);
    assert(boolean_columns(object, 1, found.push(field.name@)) == found.push(field.name@));
}

/// A list of related rows may be asked about once, by the name of their type.
pub proof fn law_lists_may_be_asked_about(
    rel: RelationshipField,
    target: Seq<char>,
    typename: Seq<char>,
    found: Seq<Seq<char>>,
)
    ensures
        targets_of(seq![rel], 0, found) == (if rel.is_list && !has_text(
            found,
            rel.target_local_name@,
        ) {
            placed_in(found, rel.target_local_name@)
        } else {
            found
        }),
        target_type_in(seq![rel], 0, target, typename) == (if rel.is_list
            && rel.target_local_name@ == target {
            rel.target_type@
        } else {
            typename
        }),
{
    let one = seq![rel];
    assert(one[0] == rel);
    assert(targets_of(one, 1, found) == found);
    let more = placed_in(found, rel.target_local_name@);
    assert(targets_of(one, 1, more) == more);
    assert(target_type_in(one, 1, target, typename) == typename);
    assert(target_type_in(one, 1, target, rel.target_type@) == rel.target_type@);
}

/// A field or a relationship that takes arguments has an input for them.
pub proof fn law_arguments_have_inputs(
    base: Seq<char>,
    rel: RelationshipField,
    field: GraphQLField,
    types: Seq<PgType>,
    inputs: Seq<InputDefV>,
)
    ensures
        with_related_inputs(base, seq![rel], 0, types, inputs) == (if rel.arguments@.len() > 0 {
            inputs.push(row_function_input(base, rel.name@, rel.arguments@, types))
        } else {
            inputs
        }),
        with_computed_inputs(base, seq![field], 0, types, inputs) == (if field.arguments@.len()
            > 0 {
            inputs.push(row_function_input(base, field.name@, field.arguments@, types))
        } else {
            inputs
        }),
{
    let rels = seq![rel];
    let fields = seq![field];
    assert(rels[0] == rel);
    assert(fields[0] == field);
    assert(with_related_inputs(base, rels, 1, types, inputs) == inputs);
    assert(with_computed_inputs(base, fields, 1, types, inputs) == inputs);
    let a = inputs.push(row_function_input(base, rel.name@, rel.arguments@, types));
    let b = inputs.push(row_function_input(base, field.name@, field.arguments@, types));
    assert(with_related_inputs(base, rels, 1, types, a) == a);
    assert(with_computed_inputs(base, fields, 1, types, b) == b);
}

proof fn lemma_table_enums(types: Seq<EnumType>, i: nat, enums: Seq<EnumDefV>)
    requires
        i <= types.len(),
    ensures
        with_table_enums(types, i, enums) == enums + Seq::new(
            (types.len() - i) as nat,
            |k: int| crate::schema::table_enum(types[i + k]),
        ),
    decreases types.len() - i,
{
    let rest = Seq::new(
        (types.len() - i) as nat,
        |k: int| crate::schema::table_enum(types[i + k]),
    );
    if i < types.len() {
        let more = enums.push(crate::schema::table_enum(types[i as int]));
        lemma_table_enums(types, i + 1, more);
        assert(enums + rest =~= more + Seq::new(
            (types.len() - i - 1) as nat,
            |k: int| crate::schema::table_enum(types[i + 1 + k]),
        ));
    } else {
        assert(enums + rest =~= enums);
    }
}

/// Every table of words is offered, after what there is.
pub proof fn law_every_table_of_words_is_offered(types: Seq<EnumType>, enums: Seq<EnumDefV>)
    ensures
        with_table_enums(types, 0, enums) == enums + Seq::new(
            types.len(),
            |k: int| crate::schema::table_enum(types[k]),
        ),
{
    lemma_table_enums(types, 0, enums);
    assert(Seq::new(types.len(), |k: int| crate::schema::table_enum(types[0 + k])) =~= Seq::new(
        types.len(),
        |k: int| crate::schema::table_enum(types[k]),
    ));
}

/// What may be written of a table's rows is offered where the table has columns:
/// inserts where they may be inserted, and updates where they may be updated.
pub proof fn law_writes_are_offered(
    generated: GeneratedSchema,
    names: NameOverrides,
    object: TableObjectType,
)
    ensures
        ({
            let r = write_inputs_of(generated, names, object);
            let inserts = seq![
                crate::inputs::insert_input(
                    generated,
                    names,
                    object,
                    relationships_in(generated, object.name@),
                ),
                crate::inputs::nested_input(object, false),
                crate::inputs::nested_input(object, true),
            ];
            let updates = update_inputs_of(object, names);
            &&& !has_columns(object, names) ==> r.len() == 0
            &&& has_columns(object, names) ==> r == (if object.insertable {
                inserts
            } else {
                Seq::empty()
            }) + (if object.updatable {
                updates
            } else {
                Seq::empty()
            })
        }),
{
    let r = write_inputs_of(generated, names, object);
    if has_columns(object, names) && !object.updatable {
        assert(r + Seq::<InputDefV>::empty() =~= r);
    }
}

// ---------------------------------------------------------------------------
// Fields
// ---------------------------------------------------------------------------

/// An embedded row of which fields are asked is read by those, and nothing else.
pub proof fn law_embedded_rows_are_read_by_field(
    fields: Seq<Selected>,
    alias: Seq<char>,
    relationships: Option<Seq<RelationshipField>>,
    table: Option<Table>,
    names: NameOverrides,
    nested: Seq<EmbedV>,
)
    ensures
        ({
            let plain = plain_entries(
                fields,
                0,
                alias,
                relationships,
                table,
                names,
                Seq::empty(),
            );
            plain.len() > 0 || nested.len() > 0 ==> row_select(
                fields,
                alias,
                relationships,
                table,
                names,
                nested,
            ) == crate::embed::embed_entries(nested, 0, plain)
        }),
{
}

/// Where related rows come from in a filter: the table at the other end, or the
/// function called on this row, to which no key leads.
pub proof fn law_related_rows_come_from_their_end(
    plan: EmbedPlan,
    scope: ScopeV,
    child: ScopeV,
)
    ensures
        plan.function is None ==> source_of(plan, scope) == ident2(
            plan.foreign_schema@,
            plan.foreign_table@,
        ),
        plan.function matches Some(function) ==> source_of(plan, scope) == ident2(
            function.schema@,
            function.name@,
        ) + "("@ + scope.row_ref + ")"@ && correlation_of(plan, scope, child).len() == 0,
{
}

/// Two lists of arguments are the same where each is, by name, type and whether
/// it has to be given.
pub proof fn law_arguments_are_the_same_one_by_one(
    a: Seq<FunctionArgument>,
    b: Seq<FunctionArgument>,
    i: int,
)
    requires
        same_arguments(a, b),
    ensures
        a.len() == b.len(),
        0 <= i < a.len() ==> a[i].name@ == b[i].name@ && a[i].pg_type@ == b[i].pg_type@
            && a[i].required == b[i].required,
{
}

/// What a read selects: the columns that were named, of those the table has, or
/// every column where none were.
pub proof fn law_named_columns_are_selected(
    name: String,
    table: Table,
    before: Seq<FieldV>,
    i: int,
)
    ensures
        named_columns(seq![name], table, 0, before) == (match table.column(name@) {
            Some(c) => before.push(FieldV { name: name@, pg_type: c.data_type@ }),
            None => before,
        }),
        selected(Seq::empty(), table).len() == table.columns@.len(),
        0 <= i < table.columns@.len() ==> selected(Seq::empty(), table)[i] == (FieldV {
            name: table.columns@[i].name@,
            pg_type: table.columns@[i].data_type@,
        }),
        selected(seq![name], table) == named_columns(seq![name], table, 0, Seq::empty()),
{
    let one = seq![name];
    assert(one[0] == name);
    assert(named_columns(one, table, 1, before) == before);
    match table.column(name@) {
        None => {},
        Some(c) => {
            let more = before.push(FieldV { name: name@, pg_type: c.data_type@ });
            assert(named_columns(one, table, 1, more) == more);
        },
    }
}

/// The columns of an insert are those of its first row.
pub proof fn law_an_insert_is_of_its_first_rows_columns(
    rows: Seq<Vec<(String, InputValue)>>,
    i: int,
)
    ensures
        rows.len() == 0 ==> insert_columns(rows).len() == 0,
        rows.len() > 0 ==> insert_columns(rows).len() == rows[0]@.len(),
        rows.len() > 0 && 0 <= i < rows[0]@.len() ==> insert_columns(rows)[i] == rows[0]@[i].0,
{
}

/// A row whose table is gone is not inserted.
pub proof fn law_rows_need_their_table(ws: WriteSources<'_>, state: InsertionV)
    requires
        state.frames.len() > 0,
        state.frames.last().next_one >= state.frames.last().to_one.len(),
        state.frames.last().row is None,
        ws.src.cache.table(state.frames.last().schema, state.frames.last().table) is None,
    ensures
        next_step(ws, state) == Err::<(InsertionV, StepV), (ErrorV, InsertionV)>(
            (
                ErrorV {
                    message: "unknown table \""@ + state.frames.last().table + "\""@,
                    code: None,
                    path: None,
                },
                state,
            ),
        ),
{
}

} // verus!
