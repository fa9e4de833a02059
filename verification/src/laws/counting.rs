//! What aggregates are: counts, and functions of columns over every row.

use crate::catalog::{column_behind, NameOverrides};
use crate::embed::{
    answered_as, column_entries, columns_asked, count_fields, count_sql, counted, counts_plainly,
    distinct_names, function_entry, functions_asked, leading_count, literal, Selected,
};
use crate::error::ErrorV;
use crate::json::JsonV;
use crate::ordering::{names_in, strings_from};
use crate::projection::placed_in;
use crate::read::{
    aggregate_answer, all_columns, all_counts, all_functions, asks_columns, counted_plainly,
    number_entries, numbers_of, page, AggregateRowsV, ReadField,
};
use crate::scope::Sources;
use crate::text::{has_text, ident, joined, texts};
use vstd::prelude::*;

verus! {

// ---------------------------------------------------------------------------
// Counts
// ---------------------------------------------------------------------------

/// A column as it is counted: by its own name, after what its rows are called
/// where they are called something.
pub open spec fn counted_column(
    column: Seq<char>,
    schema: Seq<char>,
    table: Seq<char>,
    alias: Option<Seq<char>>,
    names: NameOverrides,
) -> Seq<char> {
    let quoted = ident(column_behind(names, schema, table, column));
    match alias {
        None => quoted,
        Some(alias) => ident(alias) + "."@ + quoted,
    }
}

/// A count is of every row; or of the rows where a column is not null, or
/// several together; and only where it was asked for of those that differ.
pub proof fn law_a_count_is_of_what_was_asked(
    arguments: JsonV,
    schema: Seq<char>,
    table: Seq<char>,
    alias: Option<Seq<char>>,
    names: NameOverrides,
)
    ensures
        ({
            let asked = names_in(arguments.get("columns"@));
            let columns = Seq::new(
                asked.len(),
                |i: int| counted_column(asked[i], schema, table, alias, names),
            );
            let distinct = arguments.get("distinct"@) == Some(JsonV::Bool(true));
            let sql = count_sql(arguments, schema, table, alias, names);
            if asked.len() == 0 {
                sql == "count(*)"@
            } else if asked.len() == 1 {
                if distinct {
                    sql == "count(DISTINCT "@ + columns[0] + ")"@
                } else {
                    sql == "count("@ + columns[0] + ")"@
                }
            } else {
                if distinct {
                    sql == "count(DISTINCT "@ + ("("@ + joined(columns, ", "@) + ")"@) + ")"@
                } else {
                    sql == "count("@ + ("("@ + joined(columns, ", "@) + ")"@) + ")"@
                }
            }
        }),
{
    let asked = names_in(arguments.get("columns"@));
    let columns = Seq::new(
        asked.len(),
        |i: int| counted_column(asked[i], schema, table, alias, names),
    );
    assert(counted(asked, schema, table, alias, names) =~= columns);
}

/// The columns that a list names are its texts, in order, and a text alone names
/// itself.
pub proof fn law_columns_are_listed(names: Seq<Seq<char>>, one: Seq<char>)
    ensures
        names_in(None).len() == 0,
        names_in(Some(JsonV::String(one))) == seq![one],
        names_in(Some(JsonV::Array(names.map_values(|n: Seq<char>| JsonV::String(n))))) == names,
{
    let items = names.map_values(|n: Seq<char>| JsonV::String(n));
    assert(Seq::<Seq<char>>::empty() =~= names.take(0));
    lemma_listed(items, names, 0, Seq::empty());
}

proof fn lemma_listed(
    items: Seq<JsonV>,
    names: Seq<Seq<char>>,
    i: nat,
    found: Seq<Seq<char>>,
)
    requires
        items == names.map_values(|n: Seq<char>| JsonV::String(n)),
        i <= names.len(),
        found == names.take(i as int),
    ensures
        strings_from(items, i, found) == names,
    decreases names.len() - i,
{
    if i < names.len() {
        assert(items[i as int] == JsonV::String(names[i as int]));
        assert(found.push(names[i as int]) =~= names.take((i + 1) as int));
        lemma_listed(items, names, i + 1, found.push(names[i as int]));
    } else {
        assert(names.take(i as int) =~= names);
    }
}

/// The counts that a selection asks for, each under the name it is answered as.
pub open spec fn counts_in(
    fields: Seq<Selected>,
    schema: Seq<char>,
    table: Seq<char>,
    alias: Option<Seq<char>>,
    names: NameOverrides,
) -> Seq<Seq<char>>
    decreases fields.len(),
{
    if fields.len() == 0 {
        Seq::empty()
    } else {
        let rest = counts_in(fields.drop_first(), schema, table, alias, names);
        let field = fields[0];
        if field.name@ == "count"@ {
            let name = if field.alias is Some {
                field.alias->0@
            } else {
                "count"@
            };
            seq![
                "'"@ + literal(name) + "', "@ + count_sql(
                    field.arguments@,
                    schema,
                    table,
                    alias,
                    names,
                ),
            ] + rest
        } else {
            rest
        }
    }
}

/// Every count that was asked for is answered under its own name, in the order
/// they were asked for.
pub proof fn law_every_count_is_answered(
    fields: Seq<Selected>,
    schema: Seq<char>,
    table: Seq<char>,
    alias: Option<Seq<char>>,
    names: NameOverrides,
    parts: Seq<Seq<char>>,
)
    ensures
        count_fields(fields, 0, schema, table, alias, names, parts) == parts + counts_in(
            fields,
            schema,
            table,
            alias,
            names,
        ),
{
    lemma_counts(fields, 0, schema, table, alias, names, parts);
    assert(fields.skip(0) =~= fields);
}

proof fn lemma_counts(
    fields: Seq<Selected>,
    i: nat,
    schema: Seq<char>,
    table: Seq<char>,
    alias: Option<Seq<char>>,
    names: NameOverrides,
    parts: Seq<Seq<char>>,
)
    requires
        i <= fields.len(),
    ensures
        count_fields(fields, i, schema, table, alias, names, parts) == parts + counts_in(
            fields.skip(i as int),
            schema,
            table,
            alias,
            names,
        ),
    decreases fields.len() - i,
{
    let rest = fields.skip(i as int);
    if i < fields.len() {
        assert(rest[0] == fields[i as int]);
        assert(rest.drop_first() =~= fields.skip((i + 1) as int));
        let field = fields[i as int];
        if field.name@ == "count"@ {
            let part = "'"@ + literal(answered_as(field)) + "', "@ + count_sql(
                field.arguments@,
                schema,
                table,
                alias,
                names,
            );
            lemma_counts(fields, i + 1, schema, table, alias, names, parts.push(part));
            let more = counts_in(rest.drop_first(), schema, table, alias, names);
            assert(parts.push(part) + more =~= parts + (seq![part] + more));
        } else {
            lemma_counts(fields, i + 1, schema, table, alias, names, parts);
        }
    } else {
        assert(counts_in(rest, schema, table, alias, names) =~= Seq::empty());
        assert(parts + Seq::<Seq<char>>::empty() =~= parts);
    }
}

/// Rows are counted even where no count is asked for under its own name.
pub proof fn law_rows_are_always_counted(fields: Seq<Selected>)
    ensures
        leading_count(true).len() == 0,
        leading_count(false) == seq!["'count', count(*)"@],
        counts_plainly(fields) <==> exists|i: int|
            0 <= i < fields.len() && (#[trigger] fields[i]).name@ == "count"@ && (fields[i].alias
                is None || fields[i].alias->0@ == "count"@),
{
    if counts_plainly(fields) {
        let i = choose|i: int|
            0 <= i < fields.len() && (#[trigger] fields[i]).name@ == "count"@ && answered_as(
                fields[i],
            ) == "count"@;
        assert(fields[i].alias is None || fields[i].alias->0@ == "count"@);
    }
    if exists|i: int|
        0 <= i < fields.len() && (#[trigger] fields[i]).name@ == "count"@ && (fields[i].alias
            is None || fields[i].alias->0@ == "count"@) {
        let i = choose|i: int|
            0 <= i < fields.len() && (#[trigger] fields[i]).name@ == "count"@ && (fields[i].alias
                is None || fields[i].alias->0@ == "count"@);
        assert(answered_as(fields[i]) == "count"@);
    }
}

// ---------------------------------------------------------------------------
// Functions of columns
// ---------------------------------------------------------------------------

/// A function called on a column, of every row: nothing stands between the
/// bracket and the column.
pub open spec fn called_on(
    function: Seq<char>,
    alias: Option<Seq<char>>,
    column: Seq<char>,
) -> Seq<char> {
    match alias {
        None => function + "("@ + ident(column) + ")"@,
        Some(alias) => function + "("@ + ident(alias) + "."@ + ident(column) + ")"@,
    }
}

/// A function of several columns is one call for each, answered under the name
/// of its field.
pub proof fn law_a_function_is_called_on_every_column(
    columns: Seq<Seq<char>>,
    function: Seq<char>,
    alias: Option<Seq<char>>,
    schema: Seq<char>,
    table: Seq<char>,
    names: NameOverrides,
)
    ensures
        function_entry(columns, function, alias, Some((schema, table)), names) == "'"@ + function
            + "', json_build_object("@ + joined(
            Seq::new(
                columns.len(),
                |i: int|
                    "'"@ + literal(columns[i]) + "', "@ + called_on(
                        function,
                        alias,
                        column_behind(names, schema, table, columns[i]),
                    ),
            ),
            ", "@,
        ) + ")"@,
        function_entry(columns, function, alias, None, names) == "'"@ + function
            + "', json_build_object("@ + joined(
            Seq::new(
                columns.len(),
                |i: int| "'"@ + literal(columns[i]) + "', "@ + called_on(
                    function,
                    alias,
                    columns[i],
                ),
            ),
            ", "@,
        ) + ")"@,
{
    reveal_strlit("");
    let known = Seq::new(
        columns.len(),
        |i: int|
            "'"@ + literal(columns[i]) + "', "@ + called_on(
                function,
                alias,
                column_behind(names, schema, table, columns[i]),
            ),
    );
    let plain = Seq::new(
        columns.len(),
        |i: int| "'"@ + literal(columns[i]) + "', "@ + called_on(function, alias, columns[i]),
    );
    let first = column_entries(columns, function, alias, Some((schema, table)), names);
    let second = column_entries(columns, function, alias, None, names);
    assert forall|i: int| 0 <= i < columns.len() implies first[i] == known[i] && second[i]
        == plain[i] by {
        assert(first[i] =~= known[i]);
        assert(second[i] =~= plain[i]);
    }
    assert(first =~= known);
    assert(second =~= plain);
}

// ---------------------------------------------------------------------------
// What a selection asks for
// ---------------------------------------------------------------------------

/// Whether a name is that of one of some fields.
pub open spec fn is_field(fields: Seq<Selected>, name: Seq<char>) -> bool {
    exists|i: int| 0 <= i < fields.len() && (#[trigger] fields[i]).name@ == name
}

/// Whether a function is asked of a column.
pub open spec fn is_asked(fields: Seq<Selected>, function: Seq<char>, column: Seq<char>) -> bool {
    exists|i: int|
        0 <= i < fields.len() && (#[trigger] fields[i]).name@ == function && is_field(
            fields[i].fields@,
            column,
        )
}

proof fn lemma_distinct_names(
    fields: Seq<Selected>,
    i: nat,
    found: Seq<Seq<char>>,
    name: Seq<char>,
)
    requires
        i <= fields.len(),
    ensures
        has_text(distinct_names(fields, i, found), name) <==> has_text(found, name) || is_field(
            fields.skip(i as int),
            name,
        ),
    decreases fields.len() - i,
{
    let rest = fields.skip(i as int);
    if i < fields.len() {
        let here = fields[i as int].name@;
        let after = fields.skip((i + 1) as int);
        assert(rest[0] == fields[i as int]);
        assert(is_field(rest, name) <==> here == name || is_field(after, name)) by {
            if is_field(rest, name) && here != name {
                let k = choose|k: int| 0 <= k < rest.len() && (#[trigger] rest[k]).name@ == name;
                assert(after[k - 1] == rest[k]);
            }
            if is_field(after, name) {
                let k = choose|k: int| 0 <= k < after.len() && (#[trigger] after[k]).name@ == name;
                assert(rest[k + 1] == after[k]);
            }
        }
        if has_text(found, here) {
            lemma_distinct_names(fields, i + 1, found, name);
        } else {
            lemma_distinct_names(fields, i + 1, found.push(here), name);
            lemma_pushed(found, here, name);
        }
    }
}

proof fn lemma_pushed(s: Seq<Seq<char>>, x: Seq<char>, name: Seq<char>)
    ensures
        has_text(s.push(x), name) <==> has_text(s, name) || x == name,
{
    if has_text(s, name) {
        let k = choose|k: int| 0 <= k < s.len() && s[k] == name;
        assert(s.push(x)[k] == name);
    }
    assert(s.push(x)[s.len() as int] == x);
}

proof fn lemma_columns_asked(
    fields: Seq<Selected>,
    i: nat,
    function: Seq<char>,
    found: Seq<Seq<char>>,
    column: Seq<char>,
)
    requires
        i <= fields.len(),
    ensures
        has_text(columns_asked(fields, i, function, found), column) <==> has_text(found, column)
            || is_asked(fields.skip(i as int), function, column),
    decreases fields.len() - i,
{
    let rest = fields.skip(i as int);
    if i < fields.len() {
        let here = fields[i as int];
        let after = fields.skip((i + 1) as int);
        assert(rest[0] == here);
        assert(is_asked(rest, function, column) <==> (here.name@ == function && is_field(
            here.fields@,
            column,
        )) || is_asked(after, function, column)) by {
            if is_asked(rest, function, column) {
                let k = choose|k: int|
                    0 <= k < rest.len() && (#[trigger] rest[k]).name@ == function && is_field(
                        rest[k].fields@,
                        column,
                    );
                if k > 0 {
                    assert(after[k - 1] == rest[k]);
                }
            }
            if is_asked(after, function, column) {
                let k = choose|k: int|
                    0 <= k < after.len() && (#[trigger] after[k]).name@ == function && is_field(
                        after[k].fields@,
                        column,
                    );
                assert(rest[k + 1] == after[k]);
            }
        }
        if here.name@ == function {
            lemma_distinct_names(here.fields@, 0, found, column);
            assert(here.fields@.skip(0) =~= here.fields@);
            lemma_columns_asked(
                fields,
                i + 1,
                function,
                distinct_names(here.fields@, 0, found),
                column,
            );
        } else {
            lemma_columns_asked(fields, i + 1, function, found, column);
        }
    }
}

/// The columns a function is called on are those that it was asked of, and no
/// others.
pub proof fn law_only_asked_columns_are_called_on(
    fields: Seq<Selected>,
    function: Seq<char>,
    column: Seq<char>,
)
    ensures
        has_text(columns_asked(fields, 0, function, Seq::empty()), column) <==> is_asked(
            fields,
            function,
            column,
        ),
{
    assert(fields.skip(0) =~= fields);
    lemma_columns_asked(fields, 0, function, Seq::empty(), column);
}

/// A name that is put in its place among others is among them, and they still
/// are.
pub proof fn law_names_stay_in_place(s: Seq<Seq<char>>, x: Seq<char>, name: Seq<char>)
    ensures
        has_text(placed_in(s, x), name) <==> has_text(s, name) || x == name,
        placed_in(s, x).len() == s.len() + 1,
    decreases s.len(),
{
    if s.len() == 0 {
        assert(placed_in(s, x)[0] == x);
    } else if crate::projection::not_after(s.last(), x, 0) {
        lemma_pushed(s, x, name);
    } else {
        law_names_stay_in_place(s.drop_last(), x, name);
        lemma_pushed(placed_in(s.drop_last(), x), s.last(), name);
        assert(s =~= s.drop_last().push(s.last()));
        lemma_pushed(s.drop_last(), s.last(), name);
    }
}

proof fn lemma_functions_asked(
    fields: Seq<Selected>,
    i: nat,
    offered: Option<Seq<Seq<char>>>,
    found: Seq<Seq<char>>,
    name: Seq<char>,
)
    requires
        i <= fields.len(),
    ensures
        has_text(functions_asked(fields, i, offered, found), name) <==> has_text(found, name) || (
        name != "count"@ && is_field(fields.skip(i as int), name) && (offered is None || has_text(
            offered->0,
            name,
        ))),
    decreases fields.len() - i,
{
    let rest = fields.skip(i as int);
    if i < fields.len() {
        let here = fields[i as int].name@;
        let after = fields.skip((i + 1) as int);
        assert(rest[0] == fields[i as int]);
        assert(is_field(rest, name) <==> here == name || is_field(after, name)) by {
            if is_field(rest, name) && here != name {
                let k = choose|k: int| 0 <= k < rest.len() && (#[trigger] rest[k]).name@ == name;
                assert(after[k - 1] == rest[k]);
            }
            if is_field(after, name) {
                let k = choose|k: int| 0 <= k < after.len() && (#[trigger] after[k]).name@ == name;
                assert(rest[k + 1] == after[k]);
            }
        }
        law_names_stay_in_place(found, here, name);
        let known = match offered {
            Some(offered) => has_text(offered, here),
            None => true,
        };
        let next = if here != "count"@ && known && !has_text(found, here) {
            placed_in(found, here)
        } else {
            found
        };
        lemma_functions_asked(fields, i + 1, offered, next, name);
    }
}

/// The functions that are called are those that were asked for, of the ones
/// that are offered; counting is none of them.
pub proof fn law_only_asked_functions_are_called(
    fields: Seq<Selected>,
    offered: Option<Seq<Seq<char>>>,
    name: Seq<char>,
)
    ensures
        has_text(functions_asked(fields, 0, offered, Seq::empty()), name) <==> name != "count"@
            && is_field(fields, name) && (offered is None || has_text(offered->0, name)),
{
    assert(fields.skip(0) =~= fields);
    lemma_functions_asked(fields, 0, offered, Seq::empty(), name);
}

// ---------------------------------------------------------------------------
// The query
// ---------------------------------------------------------------------------

/// The aggregate of a column over the rows a read reaches: every row is
/// counted, and the function is called on the column of every one of them.
pub proof fn law_a_function_is_of_every_row(
    field: ReadField,
    src: Sources<'_>,
    read: AggregateRowsV,
    fields: Seq<Selected>,
    function: Seq<char>,
    column: Seq<char>,
)
    requires
        fields.len() == 1,
        fields[0].name@ == "aggregate"@,
        fields[0].fields@.len() == 1,
        fields[0].fields@[0].name@ == function,
        fields[0].fields@[0].fields@.len() == 1,
        fields[0].fields@[0].fields@[0].name@ == column,
        function != "count"@,
        has_text(texts(src.words.aggregates@), function),
    ensures
        numbers_of(field, src, read, fields) == Ok::<Option<Seq<char>>, ErrorV>(
            Some(
                "SELECT json_build_object("@ + ("'count', count(*)"@ + ", "@ + ("'"@ + function
                    + "', json_build_object("@ + ("'"@ + literal(column) + "', "@ + called_on(
                    function,
                    None,
                    column_behind(*src.names, field.schema_name@, field.table_name@, column),
                )) + ")"@)) + ") FROM ("@ + (read.rows + page(read.requested, read.offset))
                    + ") AS pgrst_agg"@,
            ),
        ),
{
    let inner = fields[0].fields@;
    let asked = inner[0].fields@;
    let none = Seq::<Seq<char>>::empty();
    let lead = seq!["'count', count(*)"@];
    assert(!counts_plainly(inner));
    assert(!counted_plainly(fields));
    assert forall|parts: Seq<Seq<char>>| #[trigger] all_counts(fields, 0, field, *src.names, parts)
        == parts by {
        let s = field.schema_name@;
        let t = field.table_name@;
        assert(count_fields(inner, 1, s, t, None, *src.names, parts) == parts);
        assert(count_fields(inner, 0, s, t, None, *src.names, parts) == parts);
        assert(all_counts(fields, 1, field, *src.names, parts) == parts);
    }
    let functions = seq![function];
    assert(placed_in(none, function) == functions);
    assert(functions_asked(inner, 1, None, functions) == functions);
    assert(functions_asked(inner, 0, None, none) == functions);
    assert(all_functions(fields, 1, functions) == functions);
    assert(all_functions(fields, 0, none) == functions);
    let columns = none.push(column);
    assert(distinct_names(asked, 1, columns) == columns);
    assert(distinct_names(asked, 0, none) == columns);
    assert(columns_asked(inner, 1, function, columns) == columns);
    assert(columns_asked(inner, 0, function, none) == columns);
    assert(all_columns(fields, 1, function, columns) == columns);
    assert(all_columns(fields, 0, function, none) == columns);
    assert(functions[0] == function);
    assert(asks_columns(functions, 0, fields));
    let s = field.schema_name@;
    let t = field.table_name@;
    let entry = function_entry(columns, function, None, Some((s, t)), *src.names);
    law_a_function_is_called_on_every_column(columns, function, None, s, t, *src.names);
    let calls = Seq::new(
        columns.len(),
        |i: int|
            "'"@ + literal(columns[i]) + "', "@ + called_on(
                function,
                None,
                column_behind(*src.names, s, t, columns[i]),
            ),
    );
    assert(calls.len() == 1);
    assert(joined(calls, ", "@) == calls[0]);
    let parts = lead.push(entry);
    assert(number_entries(functions, 1, fields, field, src, parts) == Ok::<
        Seq<Seq<char>>,
        ErrorV,
    >(parts));
    assert(number_entries(functions, 0, fields, field, src, lead) == Ok::<
        Seq<Seq<char>>,
        ErrorV,
    >(parts));
    assert(parts.drop_last() =~= lead);
    assert(joined(lead, ", "@) == lead[0]);
    assert(joined(parts, ", "@) == "'count', count(*)"@ + ", "@ + entry);
}

/// A function that the server does not offer is refused.
pub proof fn law_unknown_functions_are_refused(
    functions: Seq<Seq<char>>,
    i: nat,
    fields: Seq<Selected>,
    field: ReadField,
    src: Sources<'_>,
    parts: Seq<Seq<char>>,
    k: int,
)
    requires
        i <= k < functions.len(),
        all_columns(fields, 0, functions[k], Seq::empty()).len() > 0,
        !has_text(texts(src.words.aggregates@), functions[k]),
    ensures
        number_entries(functions, i, fields, field, src, parts) is Err,
    decreases functions.len() - i,
{
    if i < k {
        let columns = all_columns(fields, 0, functions[i as int], Seq::empty());
        if columns.len() == 0 {
            law_unknown_functions_are_refused(functions, i + 1, fields, field, src, parts, k);
        } else if has_text(texts(src.words.aggregates@), functions[i as int]) {
            law_unknown_functions_are_refused(
                functions,
                i + 1,
                fields,
                field,
                src,
                parts.push(
                    function_entry(
                        columns,
                        functions[i as int],
                        None,
                        Some((field.schema_name@, field.table_name@)),
                        *src.names,
                    ),
                ),
                k,
            );
        }
    }
}

/// An aggregate is answered with its numbers under `aggregate` and its rows
/// under `nodes`, whichever were read.
pub proof fn law_numbers_and_rows_are_answered(
    numbers: Option<JsonV>,
    nodes: Option<Seq<JsonV>>,
)
    requires
        numbers is Some ==> numbers->0 is Object,
    ensures
        aggregate_answer(numbers, nodes) is Object,
        aggregate_answer(numbers, nodes).get("aggregate"@) == numbers,
        aggregate_answer(numbers, nodes).get("nodes"@) == (match nodes {
            Some(rows) => Some(JsonV::Array(rows)),
            None => None,
        }),
{
    reveal_strlit("aggregate");
    reveal_strlit("nodes");
    assert("aggregate"@.len() == 9 && "nodes"@.len() == 5);
    let entries = aggregate_answer(numbers, nodes)->Object_0;
    if numbers is Some {
        crate::json::lemma_entry_of(entries, "aggregate"@, 0);
    } else {
        crate::json::lemma_no_entry(entries, "aggregate"@);
    }
    if nodes is Some {
        let k = entries.len() - 1;
        crate::json::lemma_entry_of(entries, "nodes"@, k);
    } else {
        crate::json::lemma_no_entry(entries, "nodes"@);
    }
}

} // verus!
