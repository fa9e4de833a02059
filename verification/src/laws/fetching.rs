//! What is read: the statements of reads, whole and by key.

use crate::binds::BindsV;
use crate::catalog::field_for;
use crate::condition::{condition, CursorV};
use crate::embed::{embed_entries, integer_argument, with_part, EmbedV, FragmentV, Selected};
use crate::error::ErrorV;
use crate::json::JsonV;
use crate::projection::row_as_json;
use crate::read::{
    aggregated_rows, delete_of, framed, head_of, key_conditions, key_filter, page, projected,
    read_filter, read_limit, read_of, read_order, read_scope, renamed_in, row_extras, row_key,
    row_keys, rows_source, rows_with_extras, text_entries, types_in, QueryV, ReadField,
};
use crate::role::{Caller, Verb};
use crate::scope::Sources;
use crate::text::{decimal, decimal_int, ident, ident2, joined};
use vstd::prelude::*;

verus! {

// ---------------------------------------------------------------------------
// By key
// ---------------------------------------------------------------------------

/// The argument of the `i`th key column: what was given under the name the
/// column is exposed as.
pub open spec fn key_argument(
    field: ReadField,
    src: Sources<'_>,
    args: JsonV,
    i: int,
) -> Option<JsonV> {
    args.get(
        field_for(
            *src.names,
            field.schema_name@,
            field.table_name@,
            field.pk_columns@[i].0@,
        ),
    )
}

/// That the `i`th key column equals its argument, as a value of its type.
pub open spec fn key_equals(field: ReadField, i: int) -> Seq<char> {
    ident(field.pk_columns@[i].0@) + " = $"@ + decimal((i + 1) as nat) + "::"@
        + field.pk_columns@[i].1@
}

proof fn lemma_keys(
    field: ReadField,
    src: Sources<'_>,
    args: JsonV,
    i: nat,
    parts: Seq<Seq<char>>,
    values: Seq<JsonV>,
    before: Seq<JsonV>,
)
    requires
        i <= field.pk_columns@.len(),
        forall|k: int|
            0 <= k < field.pk_columns@.len() ==> (#[trigger] key_argument(
                field,
                src,
                args,
                k,
            )) is Some,
        parts == Seq::new(i, |k: int| key_equals(field, k)),
        values == before + Seq::new(i, |k: int| key_argument(field, src, args, k)->0),
    ensures
        key_conditions(field, *src.names, args, i, parts, values) == Ok::<
            (Seq<Seq<char>>, Seq<JsonV>),
            ErrorV,
        >(
            (
                Seq::new(field.pk_columns@.len(), |k: int| key_equals(field, k)),
                before + Seq::new(
                    field.pk_columns@.len(),
                    |k: int| key_argument(field, src, args, k)->0,
                ),
            ),
        ),
    decreases field.pk_columns@.len() - i,
{
    if i < field.pk_columns@.len() {
        let value = key_argument(field, src, args, i as int);
        assert(value is Some);
        let more = parts.push(key_equals(field, i as int));
        assert(more =~= Seq::new(i + 1, |k: int| key_equals(field, k)));
        let next = values.push(value->0);
        assert(next =~= before + Seq::new(
            i + 1,
            |k: int| key_argument(field, src, args, k)->0,
        ));
        lemma_keys(field, src, args, i + 1, more, next, before);
    }
}

proof fn lemma_missing_key(
    field: ReadField,
    src: Sources<'_>,
    args: JsonV,
    i: nat,
    parts: Seq<Seq<char>>,
    values: Seq<JsonV>,
    k: int,
)
    requires
        i <= k < field.pk_columns@.len(),
        key_argument(field, src, args, k) is None,
    ensures
        key_conditions(field, *src.names, args, i, parts, values) is Err,
    decreases field.pk_columns@.len() - i,
{
    if i < k && key_argument(field, src, args, i as int) is Some {
        lemma_missing_key(
            field,
            src,
            args,
            i + 1,
            parts.push(key_equals(field, i as int)),
            values.push(key_argument(field, src, args, i as int)->0),
            k,
        );
    }
}

/// A read by key reaches the row whose every key column equals what was given
/// for it, and no other. Where an argument is missing, or the table has no key,
/// it is refused.
pub proof fn law_a_key_is_equalled(
    field: ReadField,
    src: Sources<'_>,
    args: JsonV,
    values: Seq<JsonV>,
)
    ensures
        ({
            let n = field.pk_columns@.len();
            let r = key_filter(field, *src.names, args, values);
            let all = forall|k: int|
                0 <= k < n ==> (#[trigger] key_argument(field, src, args, k)) is Some;
            &&& n == 0 || !all ==> r is Err
            &&& n > 0 && all ==> r == Ok::<(Seq<char>, Seq<JsonV>), ErrorV>(
                (
                    " WHERE "@ + joined(
                        Seq::new(
                            n,
                            |i: int|
                                ident(field.pk_columns@[i].0@) + " = $"@ + decimal(
                                    (i + 1) as nat,
                                ) + "::"@ + field.pk_columns@[i].1@,
                        ),
                        " AND "@,
                    ),
                    values + Seq::new(n, |i: int| key_argument(field, src, args, i)->0),
                ),
            )
        }),
{
    let n = field.pk_columns@.len();
    let none = Seq::<Seq<char>>::empty();
    let all = forall|k: int| 0 <= k < n ==> (#[trigger] key_argument(field, src, args, k)) is Some;
    if n > 0 && all {
        assert(none =~= Seq::new(0, |k: int| key_equals(field, k)));
        assert(values =~= values + Seq::new(0, |k: int| key_argument(field, src, args, k)->0));
        lemma_keys(field, src, args, 0, none, values, values);
        assert(Seq::new(n, |k: int| key_equals(field, k)) =~= Seq::new(
            n,
            |i: int|
                ident(field.pk_columns@[i].0@) + " = $"@ + decimal((i + 1) as nat) + "::"@
                    + field.pk_columns@[i].1@,
        ));
    }
    if n > 0 && !all {
        let k = choose|k: int| 0 <= k < n && (#[trigger] key_argument(field, src, args, k)) is None;
        lemma_missing_key(field, src, args, 0, none, values, k);
    }
}

/// Whether a read asks for the columns of its rows alone, and by their own
/// names: nothing is computed and nothing embedded.
pub open spec fn reads_columns_alone(
    field: ReadField,
    src: Sources<'_>,
    caller: Caller,
    selection: Selected,
    values: Seq<JsonV>,
) -> bool {
    let table = src.cache.table(field.schema_name@, field.table_name@);
    &&& renamed_in(table, *src.names) is None
    &&& row_extras(
        table,
        src,
        caller,
        field.typename@,
        selection.fields@,
        field.max_rows,
        values,
    ) == Ok::<(Seq<Seq<char>>, Seq<EmbedV>, Seq<JsonV>), (ErrorV, Seq<JsonV>)>(
        (Seq::empty(), Seq::empty(), values),
    )
}

proof fn lemma_no_order(field: ReadField, src: Sources<'_>, args: JsonV, selection: Selected)
    requires
        field.is_by_pk,
    ensures
        read_order(field, src, args, selection) == Ok::<(Seq<char>, Seq<char>), ErrorV>(
            (Seq::empty(), Seq::empty()),
        ),
{
    reveal_strlit(" ORDER BY ");
    assert(crate::text::stripped_prefix(Seq::<char>::empty(), " ORDER BY "@) is None);
}

/// The whole statement of a read by key that no permission narrows: one row of
/// the table, the one whose key columns equal what was given.
#[verifier::rlimit(60)]
pub proof fn law_one_row_is_read_by_its_key(
    field: ReadField,
    src: Sources<'_>,
    caller: Caller,
    args: JsonV,
    selection: Selected,
)
    requires
        field.is_by_pk,
        field.call is None,
        field.pk_columns@.len() > 0,
        integer_argument(args, "offset"@) is None,
        forall|k: int|
            0 <= k < field.pk_columns@.len() ==> (#[trigger] key_argument(
                field,
                src,
                args,
                k,
            )) is Some,
        caller.ruled(field.schema_name@, field.table_name@, Verb::Select).filter matches Ok(None),
        reads_columns_alone(
            field,
            src,
            caller,
            selection,
            Seq::new(
                field.pk_columns@.len(),
                |i: int| key_argument(field, src, args, i)->0,
            ),
        ),
    ensures
        read_of(field, src, caller, args, selection) == Ok::<QueryV, ErrorV>(
            QueryV {
                sql: seq![
                    FragmentV::Text(
                        "SELECT "@ + row_as_json(
                            "t"@,
                            types_in(
                                src.cache.table(field.schema_name@, field.table_name@),
                                *src.names,
                            ),
                        ) + " FROM ("@,
                    ),
                    FragmentV::Text(
                        "SELECT * FROM "@ + ident2(field.schema_name@, field.table_name@) + " AS "@
                            + ident("pgrst_src"@) + " WHERE "@ + joined(
                            Seq::new(
                                field.pk_columns@.len(),
                                |i: int|
                                    ident(field.pk_columns@[i].0@) + " = $"@ + decimal(
                                        (i + 1) as nat,
                                    ) + "::"@ + field.pk_columns@[i].1@,
                            ),
                            " AND "@,
                        ) + " LIMIT 1"@,
                    ),
                    FragmentV::Text(") t"@),
                ],
                values: Seq::new(
                    field.pk_columns@.len(),
                    |i: int| key_argument(field, src, args, i)->0,
                ),
            },
        ),
{
    let none = Seq::<JsonV>::empty();
    let n = field.pk_columns@.len();
    let given = Seq::new(n, |i: int| key_argument(field, src, args, i)->0);
    law_a_key_is_equalled(field, src, args, none);
    assert(none + given =~= given);
    lemma_no_order(field, src, args, selection);
    let keys = joined(
        Seq::new(
            n,
            |i: int|
                ident(field.pk_columns@[i].0@) + " = $"@ + decimal((i + 1) as nat) + "::"@
                    + field.pk_columns@[i].1@,
        ),
        " AND "@,
    );
    let table = src.cache.table(field.schema_name@, field.table_name@);
    let head = "SELECT "@ + row_as_json("t"@, types_in(table, *src.names)) + " FROM ("@;
    lemma_key_text(field.schema_name@, field.table_name@, keys);
    lemma_framed(
        head,
        key_text(field.schema_name@, field.table_name@, " WHERE "@ + keys),
        ") t"@,
    );
    let sourced = rows_source(field, args, Some("pgrst_src"@));
    assert(sourced matches Ok((source, at)) && at.values == none);
    assert(read_filter(field, src, caller, None, Some("pgrst_src"@), given) == Ok::<
        (Option<Seq<char>>, Seq<JsonV>),
        ErrorV,
    >((None, given)));
}

/// What a read by key reads, in its parts.
spec fn key_text(schema: Seq<char>, table: Seq<char>, keys: Seq<char>) -> Seq<char> {
    "SELECT "@ + Seq::<char>::empty() + "* FROM "@ + (ident2(schema, table) + " AS "@ + ident(
        "pgrst_src"@,
    )) + keys + Seq::<char>::empty() + page(Some(1i64), None)
}

proof fn lemma_key_text(schema: Seq<char>, table: Seq<char>, keys: Seq<char>)
    ensures
        key_text(schema, table, " WHERE "@ + keys) == "SELECT * FROM "@ + ident2(schema, table)
            + " AS "@ + ident("pgrst_src"@) + " WHERE "@ + keys + " LIMIT 1"@,
{
    reveal_strlit("");
    reveal_strlit("SELECT ");
    reveal_strlit("* FROM ");
    reveal_strlit("SELECT * FROM ");
    reveal_strlit(" LIMIT 1");
    reveal_strlit(" LIMIT ");
    assert(decimal_int(1) =~= seq!['1']);
    assert(page(Some(1i64), None) =~= " LIMIT 1"@);
    assert("SELECT "@ + Seq::<char>::empty() + "* FROM "@ =~= "SELECT * FROM "@);
    let source = ident2(schema, table) + " AS "@ + ident("pgrst_src"@);
    assert("SELECT * FROM "@ + source + (" WHERE "@ + keys) + Seq::<char>::empty() + " LIMIT 1"@
        =~= "SELECT * FROM "@ + ident2(schema, table) + " AS "@ + ident("pgrst_src"@) + " WHERE "@
        + keys + " LIMIT 1"@);
}

proof fn lemma_framed(head: Seq<char>, inner: Seq<char>, last: Seq<char>)
    ensures
        framed(head, seq![FragmentV::Text(inner)], last) == seq![
            FragmentV::Text(head),
            FragmentV::Text(inner),
            FragmentV::Text(last),
        ],
{
    assert(framed(head, seq![FragmentV::Text(inner)], last) =~= seq![
        FragmentV::Text(head),
        FragmentV::Text(inner),
        FragmentV::Text(last),
    ]);
}

// ---------------------------------------------------------------------------
// Whole tables
// ---------------------------------------------------------------------------

/// The page of a read is what it is limited to, from where it begins.
pub proof fn law_a_page_is_limited(limit: i64, offset: i64)
    ensures
        page(None, None) == Seq::<char>::empty(),
        page(Some(limit), None) == " LIMIT "@ + decimal_int(limit as int),
        page(None, Some(offset)) == " OFFSET "@ + decimal_int(offset as int),
        page(Some(limit), Some(offset)) == " LIMIT "@ + decimal_int(limit as int) + " OFFSET "@
            + decimal_int(offset as int),
{
    reveal_strlit("");
    assert(page(None, None) =~= Seq::<char>::empty());
    assert(page(Some(limit), None) =~= " LIMIT "@ + decimal_int(limit as int));
    assert(page(None, Some(offset)) =~= " OFFSET "@ + decimal_int(offset as int));
    assert(page(Some(limit), Some(offset)) =~= " LIMIT "@ + decimal_int(limit as int)
        + " OFFSET "@ + decimal_int(offset as int));
}

/// A whole number that was given as an argument is the number it is.
pub proof fn law_whole_arguments_are_read(args: JsonV, name: Seq<char>, n: i64)
    ensures
        args.get(name) == Some(JsonV::Number(crate::json::NumberV::Int(n as int)))
            ==> integer_argument(args, name) == Some(n),
        args.get(name) is None ==> integer_argument(args, name) is None,
        args.get(name) == Some(JsonV::Null) ==> integer_argument(args, name) is None,
{
}

/// The condition of a read that no permission narrows is the one that was asked
/// for, numbered on after what is bound before it; with a permission it is both
/// together.
pub proof fn law_a_read_is_of_what_was_asked(
    field: ReadField,
    src: Sources<'_>,
    caller: Caller,
    asked: JsonV,
    alias: Option<Seq<char>>,
    before: Seq<JsonV>,
)
    requires
        before.len() + 1 < usize::MAX,
    ensures
        ({
            let rule = caller.ruled(field.schema_name@, field.table_name@, Verb::Select);
            let at = CursorV {
                binds: BindsV { next: (before.len() + 1) as usize, values: Seq::empty() },
                aliases: 0,
            };
            let scope = read_scope(field, src, caller, alias);
            let whole = match rule.filter {
                Ok(Some(granted)) => JsonV::Object(
                    seq![
                        (
                            "_and"@,
                            JsonV::Array(
                                seq![asked, JsonV::Object(seq![("_permission"@, granted@)])],
                            ),
                        ),
                    ],
                ),
                _ => asked,
            };
            let r = read_filter(field, src, caller, Some(asked), alias, before);
            &&& rule.filter is Err ==> r is Err
            &&& rule.filter is Ok ==> r == (match condition(whole, scope, at) {
                Err((e, _)) => Err(e),
                Ok((None, _)) => Ok((None, before)),
                Ok((Some(sql), end)) => Ok((Some(sql), before + end.binds.values)),
            })
            &&& rule.filter matches Ok(None) ==> read_filter(
                field,
                src,
                caller,
                None,
                alias,
                before,
            ) == Ok::<(Option<Seq<char>>, Seq<JsonV>), ErrorV>((None, before))
        }),
{
}

/// The whole statement of a read of a table: its rows, those that were asked
/// for and may be seen, ordered and kept apart as was asked, and the page of
/// them.
#[verifier::rlimit(60)]
pub proof fn law_rows_are_read_as_asked(
    field: ReadField,
    src: Sources<'_>,
    caller: Caller,
    args: JsonV,
    selection: Selected,
    filter: Option<Seq<char>>,
    values: Seq<JsonV>,
    distinct: Seq<char>,
    order: Seq<char>,
)
    requires
        !field.is_by_pk,
        field.call is None,
        read_filter(
            field,
            src,
            caller,
            args.get("where"@),
            Some("pgrst_src"@),
            Seq::empty(),
        ) == Ok::<(Option<Seq<char>>, Seq<JsonV>), ErrorV>((filter, values)),
        read_order(field, src, args, selection) == Ok::<(Seq<char>, Seq<char>), ErrorV>(
            (distinct, order),
        ),
        reads_columns_alone(field, src, caller, selection, values),
    ensures
        ({
            let condition = match filter {
                Some(sql) => " WHERE "@ + sql,
                None => Seq::empty(),
            };
            read_of(field, src, caller, args, selection) == Ok::<QueryV, ErrorV>(
                QueryV {
                    sql: seq![
                        FragmentV::Text(
                            "SELECT "@ + row_as_json(
                                "t"@,
                                types_in(
                                    src.cache.table(field.schema_name@, field.table_name@),
                                    *src.names,
                                ),
                            ) + " FROM ("@,
                        ),
                        FragmentV::Text(
                            "SELECT "@ + distinct + "* FROM "@ + ident2(
                                field.schema_name@,
                                field.table_name@,
                            ) + " AS "@ + ident("pgrst_src"@) + condition + order + page(
                                read_limit(field, caller, integer_argument(args, "limit"@)),
                                integer_argument(args, "offset"@),
                            ),
                        ),
                        FragmentV::Text(") t"@),
                    ],
                    values,
                },
            )
        }),
{
    let held = match filter {
        Some(sql) => " WHERE "@ + sql,
        None => Seq::empty(),
    };
    let limited = page(
        read_limit(field, caller, integer_argument(args, "limit"@)),
        integer_argument(args, "offset"@),
    );
    let table = src.cache.table(field.schema_name@, field.table_name@);
    let head = "SELECT "@ + row_as_json("t"@, types_in(table, *src.names)) + " FROM ("@;
    lemma_rows_text(field.schema_name@, field.table_name@, distinct, held, order, limited);
    lemma_framed(
        head,
        rows_text(field.schema_name@, field.table_name@, distinct, held, order, limited),
        ") t"@,
    );
    let sourced = rows_source(field, args, Some("pgrst_src"@));
    assert(sourced matches Ok((source, at)) && at.values == Seq::<JsonV>::empty());
}

/// What a read reads, in its parts.
spec fn rows_text(
    schema: Seq<char>,
    table: Seq<char>,
    distinct: Seq<char>,
    held: Seq<char>,
    order: Seq<char>,
    limited: Seq<char>,
) -> Seq<char> {
    "SELECT "@ + distinct + "* FROM "@ + (ident2(schema, table) + " AS "@ + ident("pgrst_src"@))
        + held + order + limited
}

proof fn lemma_rows_text(
    schema: Seq<char>,
    table: Seq<char>,
    distinct: Seq<char>,
    held: Seq<char>,
    order: Seq<char>,
    limited: Seq<char>,
)
    ensures
        rows_text(schema, table, distinct, held, order, limited) == "SELECT "@ + distinct
            + "* FROM "@ + ident2(schema, table) + " AS "@ + ident("pgrst_src"@) + held + order
            + limited,
{
    assert(rows_text(schema, table, distinct, held, order, limited) =~= "SELECT "@ + distinct
        + "* FROM "@ + ident2(schema, table) + " AS "@ + ident("pgrst_src"@) + held + order
        + limited);
}

/// The rows an aggregate is of: those of the table that were asked for and may
/// be seen, in the order that was asked for.
pub proof fn law_rows_are_aggregated_as_asked(
    field: ReadField,
    src: Sources<'_>,
    caller: Caller,
    args: JsonV,
    filter: Option<Seq<char>>,
    values: Seq<JsonV>,
    order: Seq<char>,
)
    requires
        field.call is None,
        read_filter(field, src, caller, args.get("where"@), None, Seq::empty()) == Ok::<
            (Option<Seq<char>>, Seq<JsonV>),
            ErrorV,
        >((filter, values)),
        crate::ordering::order_by_clause(
            args.get("order_by"@),
            src,
            field.schema_name@,
            field.table_name@,
            field.typename@,
            ident2(field.schema_name@, field.table_name@),
        ) == Ok::<Seq<char>, ErrorV>(order),
    ensures
        aggregated_rows(field, src, caller, args) matches Ok(read) && {
            let granted = caller.ruled(field.schema_name@, field.table_name@, Verb::Select).limit;
            &&& read.rows == "SELECT * FROM "@ + ident2(field.schema_name@, field.table_name@) + (
            match filter {
                Some(sql) => " WHERE "@ + sql,
                None => Seq::empty(),
            }) + order
            &&& read.values == values
            &&& read.requested == integer_argument(args, "limit"@)
            &&& read.offset == integer_argument(args, "offset"@)
            &&& read.requested is Some ==> read.limit is Some && read.limit->0 <= read.requested->0
            &&& field.max_rows is Some ==> read.limit is Some && read.limit->0 <= field.max_rows->0
            &&& granted is Some ==> read.limit is Some && read.limit->0 <= granted->0
            &&& read.limit is Some ==> read.limit == read.requested || read.limit == field.max_rows
                || read.limit == granted
        },
{
    reveal_strlit("");
    assert(""@ =~= Seq::<char>::empty());
}

// ---------------------------------------------------------------------------
// What is read beside the columns
// ---------------------------------------------------------------------------

/// A text among fragments, where there is nothing else.
pub open spec fn text_of(sql: Seq<FragmentV>) -> Seq<char>
    decreases sql.len(),
{
    if sql.len() == 0 {
        Seq::empty()
    } else {
        text_of(sql.drop_last()) + (match sql.last() {
            FragmentV::Text(text) => text,
            FragmentV::Embed(_) => Seq::empty(),
        })
    }
}

proof fn lemma_text_of(a: Seq<FragmentV>, b: Seq<FragmentV>)
    ensures
        text_of(a + b) == text_of(a) + text_of(b),
    decreases b.len(),
{
    if b.len() == 0 {
        assert(a + b =~= a);
        assert(text_of(a) + text_of(b) =~= text_of(a));
    } else {
        assert((a + b).drop_last() =~= a + b.drop_last());
        lemma_text_of(a, b.drop_last());
        assert(text_of(a + b) =~= text_of(a) + text_of(b));
    }
}

proof fn lemma_one_text(text: Seq<char>)
    ensures
        text_of(seq![FragmentV::Text(text)]) == text,
{
    let one = seq![FragmentV::Text(text)];
    assert(one.drop_last() =~= Seq::<FragmentV>::empty());
    assert(text_of(Seq::<FragmentV>::empty()) =~= Seq::<char>::empty());
    assert(one.last() == FragmentV::Text(text));
    assert(text_of(one) =~= text);
}

proof fn lemma_text_entries(parts: Seq<Seq<char>>, i: nat, list: Seq<FragmentV>)
    requires
        list.len() > 0,
        i <= parts.len(),
    ensures
        text_of(text_entries(parts, i, list)) == text_of(list) + spread(parts.skip(i as int)),
        text_entries(parts, i, list).len() > 0,
    decreases parts.len() - i,
{
    let rest = parts.skip(i as int);
    if i < parts.len() {
        let part = parts[i as int];
        let more = with_part(list, seq![FragmentV::Text(part)]);
        lemma_text_entries(parts, i + 1, more);
        assert(rest[0] == part);
        assert(rest.drop_first() =~= parts.skip((i + 1) as int));
        let comma = list.push(FragmentV::Text(", "@));
        assert(comma.drop_last() =~= list);
        assert(text_of(comma) == text_of(list) + ", "@);
        lemma_text_of(comma, seq![FragmentV::Text(part)]);
        lemma_one_text(part);
        assert(text_of(list) + spread(rest) =~= text_of(more) + spread(rest.drop_first()));
    } else {
        assert(text_of(list) + spread(rest) =~= text_of(list));
    }
}

/// Texts that each follow something.
pub open spec fn spread(parts: Seq<Seq<char>>) -> Seq<char>
    decreases parts.len(),
{
    if parts.len() == 0 {
        Seq::empty()
    } else {
        ", "@ + parts[0] + spread(parts.drop_first())
    }
}

/// A row is read with everything computed for it after its own columns, from
/// the rows that were read.
pub proof fn law_computed_fields_are_read_too(
    inner: Seq<char>,
    renamed: Option<Seq<char>>,
    computed: Seq<Seq<char>>,
)
    ensures
        text_of(rows_with_extras(inner, renamed, computed, Seq::empty())) == (if computed.len()
            == 0 && renamed is None {
            inner
        } else {
            "SELECT "@ + (if renamed is Some {
                renamed->0
            } else {
                "src.*"@
            }) + spread(computed) + " FROM ("@ + inner + ") AS src"@
        }),
{
    let none = Seq::<EmbedV>::empty();
    let head = head_of(renamed);
    let first = seq![FragmentV::Text(head)];
    lemma_one_text(head);
    lemma_one_text(inner);
    if !(computed.len() == 0 && renamed is None) {
        lemma_text_entries(computed, 0, first);
        assert(computed.skip(0) =~= computed);
        let list = projected(head, computed, none);
        assert(list == text_entries(computed, 0, first));
        let start = seq![FragmentV::Text("SELECT "@)];
        lemma_one_text("SELECT "@);
        lemma_text_of(start, list);
        let last = " FROM ("@ + inner + ") AS src"@;
        let whole = (start + list).push(FragmentV::Text(last));
        assert(whole.drop_last() =~= start + list);
        assert(text_of(whole) =~= "SELECT "@ + head + spread(computed) + " FROM ("@ + inner
            + ") AS src"@);
    }
}

/// What embeds add to the columns of a row: each after a comma, under the name
/// it is answered as.
pub open spec fn embeds_read(embeds: Seq<EmbedV>) -> Seq<FragmentV>
    decreases embeds.len(),
{
    if embeds.len() == 0 {
        Seq::empty()
    } else {
        seq![
            FragmentV::Text(", "@),
            FragmentV::Text(Seq::empty()),
            FragmentV::Embed(Box::new(embeds[0])),
            FragmentV::Text(" AS "@ + ident(embeds[0].field)),
        ] + embeds_read(embeds.drop_first())
    }
}

proof fn lemma_embed_entries(embeds: Seq<EmbedV>, i: nat, list: Seq<FragmentV>)
    requires
        list.len() > 0,
        i <= embeds.len(),
    ensures
        embed_entries(embeds, i, list) == list + embeds_read(embeds.skip(i as int)),
    decreases embeds.len() - i,
{
    reveal_strlit("");
    let rest = embeds.skip(i as int);
    if i < embeds.len() {
        let part = seq![
            FragmentV::Text(""@),
            FragmentV::Embed(Box::new(embeds[i as int])),
            FragmentV::Text(" AS "@ + ident(embeds[i as int].field)),
        ];
        let more = with_part(list, part);
        lemma_embed_entries(embeds, i + 1, more);
        assert(rest[0] == embeds[i as int]);
        assert(rest.drop_first() =~= embeds.skip((i + 1) as int));
        assert(""@ =~= Seq::<char>::empty());
        assert(more + embeds_read(rest.drop_first()) =~= list + embeds_read(rest));
    } else {
        assert(list + embeds_read(rest) =~= list);
    }
}

/// Every embed of a row is read with it, under its own name, after everything
/// else.
pub proof fn law_embeds_are_read_too(
    head: Seq<char>,
    computed: Seq<Seq<char>>,
    embeds: Seq<EmbedV>,
)
    ensures
        projected(head, computed, embeds) == projected(head, computed, Seq::empty()) + embeds_read(
            embeds,
        ),
{
    let list = text_entries(computed, 0, seq![FragmentV::Text(head)]);
    lemma_text_entries(computed, 0, seq![FragmentV::Text(head)]);
    lemma_embed_entries(embeds, 0, list);
    assert(embeds.skip(0) =~= embeds);
    assert(projected(head, computed, Seq::empty()) == list);
}

// ---------------------------------------------------------------------------
// Written rows
// ---------------------------------------------------------------------------

/// A delete removes the rows for which its condition holds, and they come back
/// as they were.
pub proof fn law_a_delete_removes_the_rows_it_names(
    schema: Seq<char>,
    table: Seq<char>,
    held: Seq<char>,
    types: Seq<(Seq<char>, Seq<char>)>,
)
    ensures
        delete_of(schema, table, held, None, Seq::empty(), Seq::empty(), types) == seq![
            FragmentV::Text(
                "DELETE FROM "@ + ident2(schema, table) + " AS "@ + ident("pgrst_row"@) + " "@
                    + held + " RETURNING "@ + row_as_json(ident("pgrst_row"@), types),
            ),
        ],
{
}

/// The same where more than its columns is asked of a row: the rows are removed
/// first, and what is asked is read of the rows that were.
pub proof fn law_a_delete_answers_from_what_it_removed(
    schema: Seq<char>,
    table: Seq<char>,
    held: Seq<char>,
    renamed: Option<Seq<char>>,
    computed: Seq<Seq<char>>,
    embeds: Seq<EmbedV>,
    types: Seq<(Seq<char>, Seq<char>)>,
)
    requires
        computed.len() > 0 || embeds.len() > 0 || renamed is Some,
    ensures
        delete_of(schema, table, held, renamed, computed, embeds, types) == seq![
            FragmentV::Text(
                "WITH pgrst_deleted AS ("@ + ("DELETE FROM "@ + ident2(schema, table) + " AS "@
                    + ident("pgrst_row"@) + " "@ + held + " RETURNING "@) + ident("pgrst_row"@)
                    + ".*) SELECT "@ + row_as_json("pgrst_r"@, types) + " FROM (SELECT "@,
            ),
        ] + projected(
            if renamed is Some {
                renamed->0
            } else {
                "src.*"@
            },
            computed,
            embeds,
        ) + seq![FragmentV::Text(" FROM pgrst_deleted AS src) AS pgrst_r"@)],
{
    let list = projected(head_of(renamed), computed, embeds);
    let r = delete_of(schema, table, held, renamed, computed, embeds, types);
    let first = seq![
        FragmentV::Text(
            "WITH pgrst_deleted AS ("@ + ("DELETE FROM "@ + ident2(schema, table) + " AS "@
                + ident("pgrst_row"@) + " "@ + held + " RETURNING "@) + ident("pgrst_row"@)
                + ".*) SELECT "@ + row_as_json("pgrst_r"@, types) + " FROM (SELECT "@,
        ),
    ];
    assert(r =~= first + list + seq![FragmentV::Text(" FROM pgrst_deleted AS src) AS pgrst_r"@)]);
}

proof fn lemma_row_key(
    row: JsonV,
    columns: Seq<Seq<char>>,
    i: nat,
    parts: Seq<Seq<char>>,
    at: BindsV,
    first: usize,
    before: Seq<JsonV>,
)
    requires
        i <= columns.len(),
        first + columns.len() < usize::MAX,
        at.next == first + i,
        forall|k: int| 0 <= k < columns.len() ==> row.get(#[trigger] columns[k]) is Some,
        parts == Seq::new(i, |k: int| row_equals(columns, first as nat, k)),
        at.values == before + Seq::new(i, |k: int| row.get(columns[k])->0),
    ensures
        row_key(row, columns, i, parts, at) == Some(
            (
                Seq::new(columns.len(), |k: int| row_equals(columns, first as nat, k)),
                BindsV {
                    next: (first + columns.len()) as usize,
                    values: before + Seq::new(columns.len(), |k: int| row.get(columns[k])->0),
                },
            ),
        ),
    decreases columns.len() - i,
{
    if i < columns.len() {
        assert(row.get(columns[i as int]) is Some);
        let more = parts.push(row_equals(columns, first as nat, i as int));
        assert(more =~= Seq::new(i + 1, |k: int| row_equals(columns, first as nat, k)));
        let next = crate::binds::bound(at, row.get(columns[i as int])->0);
        assert(next.values =~= before + Seq::new(i + 1, |k: int| row.get(columns[k])->0));
        lemma_row_key(row, columns, i + 1, more, next, first, before);
    }
}

/// That the `i`th key column equals what a row holds.
pub open spec fn row_equals(columns: Seq<Seq<char>>, first: nat, i: int) -> Seq<char> {
    ident(columns[i]) + " = "@ + ("$"@ + decimal((first + i) as nat))
}

/// A row that was written is found again by its key: every key column equals
/// what the row holds.
pub proof fn law_written_rows_are_found_by_their_keys(
    row: JsonV,
    columns: Seq<Seq<char>>,
    at: BindsV,
)
    requires
        at.next + columns.len() < usize::MAX,
        forall|k: int| 0 <= k < columns.len() ==> row.get(#[trigger] columns[k]) is Some,
    ensures
        row_keys(seq![row], columns, 0, Seq::empty(), at) == Some(
            (
                seq![
                    "("@ + joined(
                        Seq::new(
                            columns.len(),
                            |k: int|
                                ident(columns[k]) + " = "@ + ("$"@ + decimal(
                                    (at.next + k) as nat,
                                )),
                        ),
                        " AND "@,
                    ) + ")"@,
                ],
                BindsV {
                    next: (at.next + columns.len()) as usize,
                    values: at.values + Seq::new(
                        columns.len(),
                        |k: int| row.get(columns[k])->0,
                    ),
                },
            ),
        ),
{
    let none = Seq::<Seq<char>>::empty();
    assert(none =~= Seq::new(0, |k: int| row_equals(columns, at.next as nat, k)));
    assert(at.values =~= at.values + Seq::new(0, |k: int| row.get(columns[k])->0));
    lemma_row_key(row, columns, 0, none, at, at.next, at.values);
    let keys = Seq::new(columns.len(), |k: int| row_equals(columns, at.next as nat, k));
    assert(keys =~= Seq::new(
        columns.len(),
        |k: int| ident(columns[k]) + " = "@ + ("$"@ + decimal((at.next + k) as nat)),
    ));
    let rows = seq![row];
    assert(rows[0] == row);
    let end = BindsV {
        next: (at.next + columns.len()) as usize,
        values: at.values + Seq::new(columns.len(), |k: int| row.get(columns[k])->0),
    };
    let one = none.push("("@ + joined(keys, " AND "@) + ")"@);
    assert(row_keys(rows, columns, 1, one, end) == Some((one, end)));
    assert(one =~= seq!["("@ + joined(keys, " AND "@) + ")"@]);
}

} // verus!
