//! The statements that write rows.

use crate::binds::{bind, binds, bound, placeholder, BindsV};
use crate::catalog::{column_behind, column_for, table_column_for, Table, UniqueConstraint};
use crate::comparison::{array_of, sql_array, SqlV};
use crate::condition::{build_condition, build_where_clause, condition, where_clause, CursorV};
use crate::error::{at_path, coded_error, coded_refusal, plain_refusal, Error, ErrorV};
use crate::geojson::{check_geojson, shape_fault};
use crate::json::{
    entries_view, json_ref, jsons, lemma_array_view, lemma_object_view, well_keyed, Json, JsonV,
};
use crate::lookup::{find_qualified, once, qualified, Qualified};
use crate::ordering::strings_from;
use crate::projection::{is_shape, is_shape_type, pairs, row_as_json, row_json, second_of, type_of};
use crate::role::{and_predicates, both, filter_of, permission_filter, Caller, Rule, Verb};
use crate::scope::{ScopeV, Sources, WhereScope};
use crate::text::{
    cat10, cat11, cat2, cat3, cat4, cat5, cat6, contains_text, escape_ident, escape_ident2,
    has_text, ident, ident2, join, joined, no_texts, owned, push_text, same, texts,
};
use crate::write::{write_expression, write_operand, written_as, written_value};
use vstd::prelude::*;

verus! {

/// What a written table is called inside its own statement: a name no column
/// has.
pub const WRITTEN_ROW: &'static str = "pgrst_row";

/// The column a permission's check is returned in.
pub const CHECK_COLUMN: &'static str = "pgrst_permission_check";

/// What a write is answered whose rows fail its permission's check.
pub const CHECK_FAILED: &'static str =
    "check constraint of an insert/update permission has failed";

/// The enum member that stands in for an update permission granting no
/// column.
pub const PLACEHOLDER_COLUMN: &'static str = "_PLACEHOLDER";

/// The GraphQL type of a table, which keys its relationships.
pub struct TypeName {
    pub schema: String,
    pub table: String,
    pub typename: String,
}

impl Qualified for TypeName {
    open spec fn placed(&self) -> (Seq<char>, Seq<char>) {
        (self.schema@, self.table@)
    }

    fn is_at(&self, schema: &str, name: &str) -> (r: bool) {
        same(&self.schema, schema) && same(&self.table, name)
    }
}

/// Everything that building a write looks things up in.
#[derive(Clone, Copy)]
pub struct WriteSources<'a> {
    pub src: Sources<'a>,
    pub type_names: &'a Vec<TypeName>,
    pub caller: &'a Caller,
}

/// The GraphQL type of a table, or the table's own name.
pub open spec fn typename_of(
    types: Seq<TypeName>,
    schema: Seq<char>,
    table: Seq<char>,
) -> Seq<char> {
    match qualified(types, schema, table) {
        Some(found) => found.typename@,
        None => table,
    }
}

/// The GraphQL type of a table, or the table's own name.
pub fn find_typename<'a>(types: &'a Vec<TypeName>, schema: &str, table: &'a str) -> (r: &'a str)
    ensures
        r@ == typename_of(types@, schema@, table@),
{
    match find_qualified(types, schema, table) {
        Some(found) => found.typename.as_str(),
        None => table,
    }
}

/// A statement, the values it binds in order, and whether its rows come back
/// with a permission's check.
#[derive(Debug)]
pub struct Statement {
    pub sql: String,
    pub values: Vec<Json>,
    pub checked: bool,
}

/// What a [`Statement`] holds.
#[verifier::ext_equal]
pub struct StatementV {
    pub sql: Seq<char>,
    pub values: Seq<JsonV>,
    pub checked: bool,
}

impl View for Statement {
    type V = StatementV;

    open spec fn view(&self) -> StatementV {
        StatementV { sql: self.sql@, values: jsons(self.values@), checked: self.checked }
    }
}

/// What building a statement reports.
pub open spec fn statement_outcome(r: Result<Statement, Error>) -> Result<StatementV, ErrorV> {
    match r {
        Ok(statement) => Ok(statement@),
        Err(e) => Err(e@),
    }
}

/// Adds documents at the end of a list.
pub fn append_jsons(values: &mut Vec<Json>, more: Vec<Json>)
    ensures
        jsons(final(values)@) == jsons(old(values)@) + jsons(more@),
{
    let mut more = more;
    proof {
        assert(jsons(values@ + more@) =~= jsons(values@) + jsons(more@));
    }
    values.append(&mut more);
}

/// The number that is `k` after one, in the machine's arithmetic.
pub open spec fn numbered_after(n: usize, k: nat) -> usize {
    if n + k > usize::MAX {
        (n + k - usize::MAX - 1) as usize
    } else {
        (n + k) as usize
    }
}

/// The number that is `k` after one, in the machine's arithmetic.
pub fn number_after(n: usize, k: usize) -> (r: usize)
    ensures
        r == numbered_after(n, k as nat),
{
    n.wrapping_add(k)
}

// ---------------------------------------------------------------------------
// Checks
// ---------------------------------------------------------------------------

/// A permission's check, as a column of the write's `RETURNING`; nothing
/// where there is nothing to check.
pub open spec fn check_clause(rule: Rule, scope: ScopeV, start: usize) -> Result<
    (Seq<char>, Seq<JsonV>),
    ErrorV,
> {
    let at = CursorV { binds: BindsV { next: start, values: Seq::empty() }, aliases: 0 };
    match rule.check {
        Err(fault) => Err(fault.refusal()),
        Ok(None) => Ok((Seq::empty(), Seq::empty())),
        Ok(Some(check)) => match condition(check@, scope, at) {
            Err((e, _)) => Err(e),
            Ok((None, _)) => Ok((Seq::empty(), Seq::empty())),
            Ok((Some(sql), end)) => Ok(
                (", ("@ + sql + ") AS "@ + ident(CHECK_COLUMN@), end.binds.values),
            ),
        },
    }
}

/// A permission's check, as a column of the write's `RETURNING`, evaluated
/// for each written row against the row itself.
pub fn permission_check_sql(rule: &Rule, scope: &WhereScope<'_>, start_param_idx: usize) -> (r:
    Result<(String, Vec<Json>), Error>)
    ensures
        crate::condition::clause_outcome(r) == check_clause(*rule, scope@, start_param_idx),
{
    let mut values: Vec<Json> = Vec::new();
    assert(jsons(values@) =~= Seq::<JsonV>::empty());
    let check = match &rule.check {
        Err(fault) => return Err(fault.to_error()),
        Ok(None) => return Ok((String::new(), values)),
        Ok(Some(check)) => check,
    };
    let mut param_idx: usize = start_param_idx;
    let mut alias_counter: usize = 0;
    match build_condition(check, scope, &mut param_idx, &mut values, &mut alias_counter) {
        Err(e) => Err(e),
        Ok(None) => {
            let none: Vec<Json> = Vec::new();
            assert(jsons(none@) =~= Seq::<JsonV>::empty());
            Ok((String::new(), none))
        },
        Ok(Some(sql)) => Ok((cat4(", (", &sql, ") AS ", &escape_ident(CHECK_COLUMN)), values)),
    }
}

/// Refuse the whole write if any row it produced fails the permission's
/// check. `passed` says of each row whether its check came back true: an
/// unknown is not a satisfied condition.
pub fn refuse_unchecked_rows(passed: &Vec<bool>, checked: bool) -> (r: Result<(), Error>)
    ensures
        crate::geojson::check_outcome(r) == (if checked && exists|i: int|
            0 <= i < passed@.len() && !#[trigger] passed@[i] {
            Err(coded_refusal("permission-error"@, CHECK_FAILED@))
        } else {
            Ok(())
        }),
{
    if !checked {
        return Ok(());
    }
    let mut i: usize = 0;
    while i < passed.len()
        invariant
            i <= passed.len(),
            checked,
            forall|j: int| 0 <= j < i ==> #[trigger] passed@[j],
        decreases passed.len() - i,
    {
        if !passed[i] {
            assert(!passed@[i as int]);
            return Err(coded_error("permission-error", owned(CHECK_FAILED)));
        }
        i += 1;
    }
    Ok(())
}

// ---------------------------------------------------------------------------
// Presets
// ---------------------------------------------------------------------------

/// The assignments of the presets from the `i`th on, after those in `parts`.
pub open spec fn preset_assignments(
    presets: Seq<(Seq<char>, JsonV)>,
    i: nat,
    types: Seq<(Seq<char>, Seq<char>)>,
    parts: Seq<Seq<char>>,
    at: BindsV,
) -> (Seq<Seq<char>>, BindsV)
    decreases presets.len() - i,
{
    if i >= presets.len() {
        (parts, at)
    } else {
        let (column, value) = presets[i as int];
        let t = second_of(types, column);
        preset_assignments(
            presets,
            i + 1,
            types,
            parts.push(ident(column) + " = "@ + written_as(t, value, placeholder(at))),
            bound(at, written_value(t, value)),
        )
    }
}

fn assign_presets(
    presets: &Vec<(String, Json)>,
    types: &Vec<(String, String)>,
    parts: &mut Vec<String>,
    param_idx: &mut usize,
    values: &mut Vec<Json>,
)
    ensures
        (texts(final(parts)@), binds(*final(param_idx), final(values)@)) == preset_assignments(
            entries_view(presets@),
            0,
            pairs(types@),
            texts(old(parts)@),
            binds(*old(param_idx), old(values)@),
        ),
{
    let mut i: usize = 0;
    while i < presets.len()
        invariant
            i <= presets.len(),
            preset_assignments(
                entries_view(presets@),
                0,
                pairs(types@),
                texts(old(parts)@),
                binds(*old(param_idx), old(values)@),
            ) == preset_assignments(
                entries_view(presets@),
                i as nat,
                pairs(types@),
                texts(parts@),
                binds(*param_idx, values@),
            ),
        decreases presets.len() - i,
    {
        assert(entries_view(presets@)[i as int] == (presets@[i as int].0@, presets@[i as int].1@));
        let column = &presets[i].0;
        let value = &presets[i].1;
        let text = bind(param_idx, values, write_operand(types, column, value));
        let expression = write_expression(types, column, value, &text);
        push_text(parts, cat3(&escape_ident(column), " = ", &expression));
        i += 1;
    }
}

/// Whether a preset writes a column.
pub open spec fn is_preset(presets: Seq<(Seq<char>, JsonV)>, column: Seq<char>) -> bool {
    exists|i: int| 0 <= i < presets.len() && (#[trigger] presets[i]).0 == column
}

fn preset_has(presets: &Vec<(String, Json)>, column: &str) -> (r: bool)
    ensures
        r == is_preset(entries_view(presets@), column@),
{
    let mut i: usize = 0;
    while i < presets.len()
        invariant
            i <= presets.len(),
            forall|j: int|
                0 <= j < i ==> (#[trigger] entries_view(presets@)[j]).0 != column@,
        decreases presets.len() - i,
    {
        assert(entries_view(presets@)[i as int].0 == presets@[i as int].0@);
        if same(&presets[i].0, column) {
            return true;
        }
        i += 1;
    }
    false
}

// ---------------------------------------------------------------------------
// Updates
// ---------------------------------------------------------------------------

/// The assignment one operator makes of one column. Everything but `_set`
/// reads the column's current value.
pub open spec fn assignment(
    op: Seq<char>,
    column: Seq<char>,
    value: JsonV,
    types: Seq<(Seq<char>, Seq<char>)>,
    at: BindsV,
) -> SqlV {
    let quoted = ident(column);
    let t = second_of(types, column);
    if op == "_set"@ {
        if t is Some && is_shape_type(t->0) && shape_fault(value) is Some {
            Err((coded_refusal("parse-failed"@, shape_fault(value)->0), at))
        } else {
            Ok(
                (
                    quoted + " = "@ + written_as(t, value, placeholder(at)),
                    bound(at, written_value(t, value)),
                ),
            )
        }
    } else if op == "_inc"@ {
        Ok(
            (
                quoted + " = "@ + quoted + " + "@ + written_as(t, value, placeholder(at)),
                bound(at, value),
            ),
        )
    } else if op == "_append"@ {
        Ok((quoted + " = "@ + quoted + " || "@ + placeholder(at) + "::jsonb"@, bound(at, value)))
    } else if op == "_prepend"@ {
        Ok((quoted + " = "@ + placeholder(at) + "::jsonb || "@ + quoted, bound(at, value)))
    } else if op == "_delete_key"@ {
        Ok((quoted + " = "@ + quoted + " - "@ + placeholder(at) + "::text"@, bound(at, value)))
    } else if op == "_delete_elem"@ {
        Ok((quoted + " = "@ + quoted + " - "@ + placeholder(at) + "::int"@, bound(at, value)))
    } else if op == "_delete_at_path"@ {
        match value {
            JsonV::Array(steps) => {
                let (path, end) = array_of(steps, "text[]"@, at);
                Ok((quoted + " = "@ + quoted + " #- "@ + path, end))
            },
            _ => Err(
                (
                    plain_refusal(
                        "\"_delete_at_path\" on \""@ + column + "\" takes a list of keys"@,
                    ),
                    at,
                ),
            ),
        }
    } else {
        Err((plain_refusal("unsupported update operator \""@ + op + "\""@), at))
    }
}

fn assignment_sql(
    op: &str,
    column: &str,
    value: &Json,
    types: &Vec<(String, String)>,
    param_idx: &mut usize,
    values: &mut Vec<Json>,
) -> (r: Result<String, Error>)
    ensures
        crate::comparison::outcome(r, *final(param_idx), final(values)@) == assignment(
            op@,
            column@,
            value@,
            pairs(types@),
            binds(*old(param_idx), old(values)@),
        ),
{
    let quoted = escape_ident(column);
    if same(op, "_set") {
        if let Some(t) = type_of(types, column) {
            if is_shape(t) {
                match check_geojson(value) {
                    Ok(_) => {},
                    Err(e) => return Err(e),
                }
            }
        }
        let text = bind(param_idx, values, write_operand(types, column, value));
        return Ok(cat3(&quoted, " = ", &write_expression(types, column, value, &text)));
    }
    if same(op, "_inc") {
        let text = bind(param_idx, values, value.copy());
        let expression = write_expression(types, column, value, &text);
        Ok(cat5(&quoted, " = ", &quoted, " + ", &expression))
    } else if same(op, "_append") {
        let text = bind(param_idx, values, value.copy());
        Ok(cat6(&quoted, " = ", &quoted, " || ", &text, "::jsonb"))
    } else if same(op, "_prepend") {
        let text = bind(param_idx, values, value.copy());
        Ok(cat5(&quoted, " = ", &text, "::jsonb || ", &quoted))
    } else if same(op, "_delete_key") {
        let text = bind(param_idx, values, value.copy());
        Ok(cat6(&quoted, " = ", &quoted, " - ", &text, "::text"))
    } else if same(op, "_delete_elem") {
        let text = bind(param_idx, values, value.copy());
        Ok(cat6(&quoted, " = ", &quoted, " - ", &text, "::int"))
    } else if same(op, "_delete_at_path") {
        match value {
            Json::Array(steps) => {
                proof {
                    lemma_array_view(*steps);
                }
                let path = sql_array(steps, "text[]", param_idx, values);
                Ok(cat5(&quoted, " = ", &quoted, " #- ", &path))
            },
            _ => Err(
                Error::new(
                    cat3("\"_delete_at_path\" on \"", column, "\" takes a list of keys"),
                ),
            ),
        }
    } else {
        Err(Error::new(cat3("unsupported update operator \"", op, "\"")))
    }
}

/// The assignments of an update so far, the columns its operators write, and
/// the values bound.
#[verifier::ext_equal]
pub struct SetV {
    pub parts: Seq<Seq<char>>,
    pub written: Seq<Seq<char>>,
    pub binds: BindsV,
}

/// The assignments with those of one operator's columns from the `i`th on. A
/// preset's column is left to the preset; a column written twice is refused.
pub open spec fn columns_set(
    op: Seq<char>,
    map: Seq<(Seq<char>, JsonV)>,
    i: nat,
    ws: WriteSources<'_>,
    schema: Seq<char>,
    table: Seq<char>,
    presets: Seq<(Seq<char>, JsonV)>,
    types: Seq<(Seq<char>, Seq<char>)>,
    set: SetV,
) -> Result<SetV, ErrorV>
    decreases map.len() - i,
{
    if i >= map.len() {
        Ok(set)
    } else {
        let column = column_behind(*ws.src.names, schema, table, map[i as int].0);
        if is_preset(presets, column) {
            columns_set(op, map, i + 1, ws, schema, table, presets, types, set)
        } else if has_text(set.written, column) {
            Err(
                plain_refusal(
                    "\""@ + column
                        + "\" is written twice in one update; a column may be changed by one operator at a time"@,
                ),
            )
        } else {
            match assignment(op, column, map[i as int].1, types, set.binds) {
                Err((e, _)) => Err(e),
                Ok((sql, end)) => columns_set(
                    op,
                    map,
                    i + 1,
                    ws,
                    schema,
                    table,
                    presets,
                    types,
                    SetV {
                        parts: set.parts.push(sql),
                        written: set.written.push(column),
                        binds: end,
                    },
                ),
            }
        }
    }
}

/// The assignments with those of the operators from the `i`th on.
pub open spec fn operators_set(
    operators: Seq<(Seq<char>, JsonV)>,
    i: nat,
    ws: WriteSources<'_>,
    schema: Seq<char>,
    table: Seq<char>,
    presets: Seq<(Seq<char>, JsonV)>,
    types: Seq<(Seq<char>, Seq<char>)>,
    set: SetV,
) -> Result<SetV, ErrorV>
    decreases operators.len() - i,
{
    if i >= operators.len() {
        Ok(set)
    } else {
        match operators[i as int].1 {
            JsonV::Object(map) => match columns_set(
                operators[i as int].0,
                map,
                0,
                ws,
                schema,
                table,
                presets,
                types,
                set,
            ) {
                Ok(more) => operators_set(
                    operators,
                    i + 1,
                    ws,
                    schema,
                    table,
                    presets,
                    types,
                    more,
                ),
                Err(e) => Err(e),
            },
            _ => Err(
                plain_refusal(
                    "\""@ + operators[i as int].0
                        + "\" takes an object mapping columns to values"@,
                ),
            ),
        }
    }
}

/// What collecting assignments reports.
pub open spec fn set_outcome(
    r: Result<(), Error>,
    parts: Seq<String>,
    written: Seq<String>,
    param_idx: usize,
    values: Seq<Json>,
) -> Result<SetV, ErrorV> {
    match r {
        Ok(_) => Ok(set_of(parts, written, param_idx, values)),
        Err(e) => Err(e@),
    }
}

/// The assignments that their parts make.
pub open spec fn set_of(
    parts: Seq<String>,
    written: Seq<String>,
    param_idx: usize,
    values: Seq<Json>,
) -> SetV {
    SetV { parts: texts(parts), written: texts(written), binds: binds(param_idx, values) }
}

fn set_columns(
    op: &str,
    map: &Vec<(String, Json)>,
    ws: WriteSources<'_>,
    schema: &str,
    table: &str,
    presets: &Vec<(String, Json)>,
    types: &Vec<(String, String)>,
    parts: &mut Vec<String>,
    written: &mut Vec<String>,
    param_idx: &mut usize,
    values: &mut Vec<Json>,
) -> (r: Result<(), Error>)
    ensures
        set_outcome(r, final(parts)@, final(written)@, *final(param_idx), final(values)@)
            == columns_set(
            op@,
            entries_view(map@),
            0,
            ws,
            schema@,
            table@,
            entries_view(presets@),
            pairs(types@),
            set_of(old(parts)@, old(written)@, *old(param_idx), old(values)@),
        ),
{
    let mut i: usize = 0;
    while i < map.len()
        invariant
            i <= map.len(),
            columns_set(
                op@,
                entries_view(map@),
                0,
                ws,
                schema@,
                table@,
                entries_view(presets@),
                pairs(types@),
                set_of(old(parts)@, old(written)@, *old(param_idx), old(values)@),
            ) == columns_set(
                op@,
                entries_view(map@),
                i as nat,
                ws,
                schema@,
                table@,
                entries_view(presets@),
                pairs(types@),
                set_of(parts@, written@, *param_idx, values@),
            ),
        decreases map.len() - i,
    {
        assert(entries_view(map@)[i as int] == (map@[i as int].0@, map@[i as int].1@));
        let column = column_for(ws.src.names, schema, table, &map[i].0);
        if !preset_has(presets, column) {
            if contains_text(written, column) {
                return Err(
                    Error::new(
                        cat3(
                            "\"",
                            column,
                            "\" is written twice in one update; a column may be changed by one operator at a time",
                        ),
                    ),
                );
            }
            match assignment_sql(op, column, &map[i].1, types, param_idx, values) {
                Ok(sql) => {
                    push_text(parts, sql);
                    push_text(written, owned(column));
                },
                Err(e) => return Err(e),
            }
        }
        i += 1;
    }
    Ok(())
}

fn set_operators(
    operators: &Vec<(String, Json)>,
    ws: WriteSources<'_>,
    schema: &str,
    table: &str,
    presets: &Vec<(String, Json)>,
    types: &Vec<(String, String)>,
    parts: &mut Vec<String>,
    written: &mut Vec<String>,
    param_idx: &mut usize,
    values: &mut Vec<Json>,
) -> (r: Result<(), Error>)
    ensures
        set_outcome(r, final(parts)@, final(written)@, *final(param_idx), final(values)@)
            == operators_set(
            entries_view(operators@),
            0,
            ws,
            schema@,
            table@,
            entries_view(presets@),
            pairs(types@),
            set_of(old(parts)@, old(written)@, *old(param_idx), old(values)@),
        ),
{
    let mut i: usize = 0;
    while i < operators.len()
        invariant
            i <= operators.len(),
            operators_set(
                entries_view(operators@),
                0,
                ws,
                schema@,
                table@,
                entries_view(presets@),
                pairs(types@),
                set_of(old(parts)@, old(written)@, *old(param_idx), old(values)@),
            ) == operators_set(
                entries_view(operators@),
                i as nat,
                ws,
                schema@,
                table@,
                entries_view(presets@),
                pairs(types@),
                set_of(parts@, written@, *param_idx, values@),
            ),
        decreases operators.len() - i,
    {
        assert(entries_view(operators@)[i as int] == (
            operators@[i as int].0@,
            operators@[i as int].1@,
        ));
        match &operators[i].1 {
            Json::Object(map) => {
                proof {
                    lemma_object_view(*map);
                }
                match set_columns(
                    &operators[i].0,
                    map,
                    ws,
                    schema,
                    table,
                    presets,
                    types,
                    parts,
                    written,
                    param_idx,
                    values,
                ) {
                    Ok(_) => {},
                    Err(e) => return Err(e),
                }
            },
            _ => {
                return Err(
                    Error::new(
                        cat3(
                            "\"",
                            &operators[i].0,
                            "\" takes an object mapping columns to values",
                        ),
                    ),
                );
            },
        }
        i += 1;
    }
    Ok(())
}

/// The scope of a statement that writes a table, under the alias its row
/// goes by.
pub open spec fn write_scope(
    ws: WriteSources<'_>,
    schema: Seq<char>,
    table: Seq<char>,
    typename: Seq<char>,
) -> ScopeV {
    ScopeV {
        resolution: Some((*ws.src.cache, *ws.src.relationships)),
        ..ScopeV::over(schema, table, typename, *ws.src.names, *ws.src.words).renamed(WRITTEN_ROW@)
    }
}

/// The scope of a statement that writes a table.
pub fn scope_of_write<'a>(
    ws: WriteSources<'a>,
    schema: &str,
    table: &str,
    typename: &str,
) -> (r: WhereScope<'a>)
    ensures
        r@ == write_scope(ws, schema@, table@, typename@),
{
    WhereScope::table(schema, table, typename, ws.src.names, ws.src.words).under_alias(
        WRITTEN_ROW,
    ).with_resolution(ws.src.cache, ws.src.relationships)
}

/// The refusal of a write that would reach every row of its table.
pub open spec fn unbounded_refusal(verb: Seq<char>, table: Seq<char>) -> ErrorV {
    plain_refusal(
        verb + " on \""@ + table
            + "\" requires a `where` argument with at least one recognised condition; refusing to "@
            + verb + " every row"@,
    )
}

fn refuse_unbounded(verb: &str, table: &str) -> (r: Error)
    ensures
        r@ == unbounded_refusal(verb@, table@),
{
    Error::new(
        cat6(
            verb,
            " on \"",
            table,
            "\" requires a `where` argument with at least one recognised condition; refusing to ",
            verb,
            " every row",
        ),
    )
}

/// An update of a table. None where it sets nothing: an update that changes
/// nothing changes no rows. One that would reach every row is refused.
pub open spec fn update_of(
    ws: WriteSources<'_>,
    schema: Seq<char>,
    table: Seq<char>,
    typename: Seq<char>,
    operators: Seq<(Seq<char>, JsonV)>,
    types: Seq<(Seq<char>, Seq<char>)>,
    filter: Option<JsonV>,
) -> Result<Option<StatementV>, ErrorV> {
    let rule = ws.caller.ruled(schema, table, Verb::Update);
    match rule.presets {
        Err(fault) => Err(fault.refusal()),
        Ok(presets) => {
            let (parts, at) = preset_assignments(
                entries_view(presets@),
                0,
                types,
                Seq::empty(),
                BindsV { next: 1, values: Seq::empty() },
            );
            match operators_set(
                operators,
                0,
                ws,
                schema,
                table,
                entries_view(presets@),
                types,
                SetV { parts, written: Seq::empty(), binds: at },
            ) {
                Err(e) => Err(e),
                Ok(set) => if set.parts.len() == 0 {
                    Ok(None)
                } else {
                    let scope = write_scope(ws, schema, table, typename);
                    match where_clause(filter, set.binds.next, scope) {
                        Err(e) => Err(e),
                        Ok((where_sql, where_values)) => if where_sql.len() == 0 {
                            Err(unbounded_refusal("update"@, table))
                        } else {
                            match check_clause(
                                rule,
                                scope,
                                numbered_after(set.binds.next, where_values.len()),
                            ) {
                                Err(e) => Err(e),
                                Ok((check_sql, check_values)) => Ok(
                                    Some(
                                        StatementV {
                                            sql: "UPDATE "@ + ident2(schema, table) + " AS "@
                                                + ident(WRITTEN_ROW@) + " SET "@ + joined(
                                                set.parts,
                                                ", "@,
                                            ) + " "@ + where_sql + " RETURNING "@ + row_as_json(
                                                ident(WRITTEN_ROW@),
                                                types,
                                            ) + check_sql,
                                            values: set.binds.values + where_values + check_values,
                                            checked: check_sql.len() > 0,
                                        },
                                    ),
                                ),
                            }
                        },
                    }
                },
            }
        },
    }
}

/// The statement of an update mutation.
///
/// Each operator writes a column in terms of itself except `_set`, which
/// replaces it, and several may be sent as long as they name different
/// columns. What the permission presets is written whatever the request says.
pub fn update_statement(
    ws: WriteSources<'_>,
    schema_name: &str,
    table_name: &str,
    typename: &str,
    operators: &Vec<(String, Json)>,
    column_types: &Vec<(String, String)>,
    filter: Option<&Json>,
) -> (r: Result<Option<Statement>, Error>)
    ensures
        (match r {
            Ok(Some(statement)) => Ok(Some(statement@)),
            Ok(None) => Ok(None),
            Err(e) => Err(e@),
        }) == update_of(
            ws,
            schema_name@,
            table_name@,
            typename@,
            entries_view(operators@),
            pairs(column_types@),
            json_ref(filter),
        ),
{
    let rule = ws.caller.rule(schema_name, table_name, Verb::Update);
    let presets = match &rule.presets {
        Ok(presets) => presets,
        Err(fault) => return Err(fault.to_error()),
    };
    let mut parts = no_texts();
    let mut written = no_texts();
    let mut values: Vec<Json> = Vec::new();
    let mut param_idx: usize = 1;
    assert(jsons(values@) =~= Seq::<JsonV>::empty());
    assign_presets(presets, column_types, &mut parts, &mut param_idx, &mut values);
    match set_operators(
        operators,
        ws,
        schema_name,
        table_name,
        presets,
        column_types,
        &mut parts,
        &mut written,
        &mut param_idx,
        &mut values,
    ) {
        Ok(_) => {},
        Err(e) => return Err(e),
    }
    if parts.len() == 0 {
        return Ok(None);
    }
    let scope = scope_of_write(ws, schema_name, table_name, typename);
    let (where_sql, where_values) = match build_where_clause(filter, param_idx, &scope) {
        Ok(clause) => clause,
        Err(e) => return Err(e),
    };
    if where_sql.as_str().is_empty() {
        return Err(refuse_unbounded("update", table_name));
    }
    let start: usize = number_after(param_idx, where_values.len());
    let (check_sql, check_values) = match permission_check_sql(rule, &scope, start) {
        Ok(clause) => clause,
        Err(e) => return Err(e),
    };
    let written_row = escape_ident(WRITTEN_ROW);
    let sql = update_sql(
        schema_name,
        table_name,
        &written_row,
        &join(&parts, ", "),
        &where_sql,
        &row_json(&written_row, column_types),
        &check_sql,
    );
    append_jsons(&mut values, where_values);
    append_jsons(&mut values, check_values);
    Ok(Some(Statement { sql, values, checked: !check_sql.as_str().is_empty() }))
}

fn update_sql(
    schema: &str,
    table: &str,
    row: &str,
    sets: &str,
    where_sql: &str,
    answer: &str,
    check: &str,
) -> (r: String)
    ensures
        r@ == "UPDATE "@ + ident2(schema@, table@) + " AS "@ + row@ + " SET "@ + sets@ + " "@
            + where_sql@ + " RETURNING "@ + answer@ + check@,
{
    cat11(
        "UPDATE ",
        &escape_ident2(schema, table),
        " AS ",
        row,
        " SET ",
        sets,
        " ",
        where_sql,
        " RETURNING ",
        answer,
        check,
    )
}

// ---------------------------------------------------------------------------
// Conflicts
// ---------------------------------------------------------------------------

/// Whether a name is that of a unique constraint.
pub open spec fn is_constraint(constraints: Seq<UniqueConstraint>, name: Seq<char>) -> bool {
    exists|i: int| 0 <= i < constraints.len() && (#[trigger] constraints[i]).name@ == name
}

fn has_constraint(constraints: &Vec<UniqueConstraint>, name: &str) -> (r: bool)
    ensures
        r == is_constraint(constraints@, name@),
{
    let mut i: usize = 0;
    while i < constraints.len()
        invariant
            i <= constraints.len(),
            forall|j: int| 0 <= j < i ==> (#[trigger] constraints@[j]).name@ != name@,
        decreases constraints.len() - i,
    {
        if same(&constraints[i].name, name) {
            return true;
        }
        i += 1;
    }
    false
}

/// The columns an upsert overwrites: the strings of a list.
pub open spec fn updated_fields(spec: JsonV) -> Seq<Seq<char>> {
    match spec.get("update_columns"@) {
        Some(JsonV::Array(items)) => strings_from(items, 0, Seq::empty()),
        _ => Seq::empty(),
    }
}

/// The assignments of the overwritten fields from the `i`th on, after those in
/// `parts`: each column takes what was to be inserted, unless a preset writes
/// it.
pub open spec fn excluded_assignments(
    fields: Seq<Seq<char>>,
    i: nat,
    ws: WriteSources<'_>,
    table: Table,
    presets: Seq<(Seq<char>, JsonV)>,
    parts: Seq<Seq<char>>,
) -> Seq<Seq<char>>
    decreases fields.len() - i,
{
    if i >= fields.len() {
        parts
    } else {
        let column = column_behind(
            *ws.src.names,
            table.schema@,
            table.name@,
            fields[i as int],
        );
        excluded_assignments(
            fields,
            i + 1,
            ws,
            table,
            presets,
            if is_preset(presets, column) {
                parts
            } else {
                parts.push(ident(column) + " = EXCLUDED."@ + ident(column))
            },
        )
    }
}

fn assign_excluded(
    fields: &Vec<String>,
    ws: WriteSources<'_>,
    table: &Table,
    presets: &Vec<(String, Json)>,
    parts: &mut Vec<String>,
)
    ensures
        texts(final(parts)@) == excluded_assignments(
            texts(fields@),
            0,
            ws,
            *table,
            entries_view(presets@),
            texts(old(parts)@),
        ),
{
    let mut i: usize = 0;
    while i < fields.len()
        invariant
            i <= fields.len(),
            excluded_assignments(
                texts(fields@),
                0,
                ws,
                *table,
                entries_view(presets@),
                texts(old(parts)@),
            ) == excluded_assignments(
                texts(fields@),
                i as nat,
                ws,
                *table,
                entries_view(presets@),
                texts(parts@),
            ),
        decreases fields.len() - i,
    {
        assert(texts(fields@)[i as int] == fields@[i as int]@);
        let column = table_column_for(ws.src.names, table, &fields[i]);
        if !preset_has(presets, column) {
            push_text(parts, cat3(&escape_ident(column), " = EXCLUDED.", &escape_ident(column)));
        }
        i += 1;
    }
}

/// What an upsert overwrites, and on which rows: the presets of the update
/// permission, the fields that were asked for, the condition that was asked
/// for and the update permission's own filter.
pub open spec fn overwriting(
    ws: WriteSources<'_>,
    table: Table,
    schema: Seq<char>,
    table_name: Seq<char>,
    types: Seq<(Seq<char>, Seq<char>)>,
    constraint: Seq<char>,
    fields: Seq<Seq<char>>,
    spec: JsonV,
    start: usize,
) -> Result<(Seq<char>, Seq<JsonV>), ErrorV> {
    let rule = ws.caller.ruled(schema, table_name, Verb::Update);
    match rule.presets {
        Err(fault) => Err(fault.refusal()),
        Ok(presets) => {
            let (set, at) = preset_assignments(
                entries_view(presets@),
                0,
                types,
                Seq::empty(),
                BindsV { next: start, values: Seq::empty() },
            );
            let parts = excluded_assignments(
                fields,
                0,
                ws,
                table,
                entries_view(presets@),
                set,
            );
            let head = " ON CONFLICT ON CONSTRAINT "@ + ident(constraint) + " DO UPDATE SET "@
                + joined(parts, ", "@);
            match filter_of(rule) {
                Err(e) => Err(e),
                Ok(granted) => match both(spec.present("where"@), granted) {
                    None => Ok((head + ""@, at.values)),
                    Some(filter) => {
                        let scope = write_scope(
                            ws,
                            schema,
                            table_name,
                            typename_of(ws.type_names@, schema, table_name),
                        );
                        match condition(filter, scope, CursorV { binds: at, aliases: 0 }) {
                            Err((e, _)) => Err(e),
                            Ok((None, end)) => Ok((head + ""@, end.binds.values)),
                            Ok((Some(sql), end)) => Ok(
                                (head + (" WHERE "@ + sql), end.binds.values),
                            ),
                        }
                    },
                },
            }
        },
    }
}

/// The clause that says what to do about a row that is already there. No
/// columns to overwrite leave it as it is.
pub open spec fn conflict_clause(
    ws: WriteSources<'_>,
    table: Table,
    schema: Seq<char>,
    table_name: Seq<char>,
    types: Seq<(Seq<char>, Seq<char>)>,
    on_conflict: Option<JsonV>,
    path: Seq<char>,
    start: usize,
) -> Result<(Seq<char>, Seq<JsonV>), ErrorV> {
    match on_conflict {
        Some(JsonV::Object(entries)) => {
            let spec = JsonV::Object(entries);
            match spec.get("constraint"@) {
                Some(JsonV::String(constraint)) => {
                    let fields = updated_fields(spec);
                    if !is_constraint(table.unique_constraints@, constraint) {
                        Err(
                            plain_refusal(
                                "\""@ + constraint + "\" is not a unique constraint of \""@
                                    + table_name + "\""@,
                            ),
                        )
                    } else if has_text(fields, PLACEHOLDER_COLUMN@) {
                        Err(
                            ErrorV {
                                path: Some(path),
                                ..coded_refusal("validation-failed"@, "erroneous column name"@)
                            },
                        )
                    } else if fields.len() == 0 {
                        Ok(
                            (
                                " ON CONFLICT ON CONSTRAINT "@ + ident(constraint)
                                    + " DO NOTHING"@,
                                Seq::empty(),
                            ),
                        )
                    } else {
                        overwriting(
                            ws,
                            table,
                            schema,
                            table_name,
                            types,
                            constraint,
                            fields,
                            spec,
                            start,
                        )
                    }
                },
                _ => Err(plain_refusal("on_conflict needs a constraint to resolve against"@)),
            }
        },
        _ => Ok((Seq::empty(), Seq::empty())),
    }
}

fn overwriting_sql(
    ws: WriteSources<'_>,
    table: &Table,
    schema: &str,
    table_name: &str,
    types: &Vec<(String, String)>,
    constraint: &str,
    fields: &Vec<String>,
    spec: &Json,
    start: usize,
) -> (r: Result<(String, Vec<Json>), Error>)
    ensures
        crate::condition::clause_outcome(r) == overwriting(
            ws,
            *table,
            schema@,
            table_name@,
            pairs(types@),
            constraint@,
            texts(fields@),
            spec@,
            start,
        ),
{
    let rule = ws.caller.rule(schema, table_name, Verb::Update);
    let presets = match &rule.presets {
        Ok(presets) => presets,
        Err(fault) => return Err(fault.to_error()),
    };
    let mut values: Vec<Json> = Vec::new();
    assert(jsons(values@) =~= Seq::<JsonV>::empty());
    let mut param_idx: usize = start;
    let mut parts = no_texts();
    assign_presets(presets, types, &mut parts, &mut param_idx, &mut values);
    assign_excluded(fields, ws, table, presets, &mut parts);
    let head = cat4(
        " ON CONFLICT ON CONSTRAINT ",
        &escape_ident(constraint),
        " DO UPDATE SET ",
        &join(&parts, ", "),
    );
    let granted = match permission_filter(ws.caller, schema, table_name, Verb::Update) {
        Ok(granted) => granted,
        Err(e) => return Err(e),
    };
    let requested = match spec.present("where") {
        Some(filter) => Some(filter.copy()),
        None => None,
    };
    match and_predicates(requested, granted) {
        None => Ok((cat2(&head, ""), values)),
        Some(filter) => {
            let typename = find_typename(ws.type_names, schema, table_name);
            let scope = scope_of_write(ws, schema, table_name, typename);
            let mut alias_counter: usize = 0;
            match build_condition(
                &filter,
                &scope,
                &mut param_idx,
                &mut values,
                &mut alias_counter,
            ) {
                Err(e) => Err(e),
                Ok(None) => Ok((cat2(&head, ""), values)),
                Ok(Some(sql)) => Ok((cat2(&head, &cat2(" WHERE ", &sql)), values)),
            }
        },
    }
}

/// The clause that says what to do about a row that is already there.
///
/// It names the uniqueness that is resolved against. What it overwrites is an
/// update, so the update permission's presets and filter hold here too.
pub fn conflict_sql(
    ws: WriteSources<'_>,
    table: &Table,
    schema: &str,
    table_name: &str,
    types: &Vec<(String, String)>,
    on_conflict: Option<&Json>,
    path: &str,
    start: usize,
) -> (r: Result<(String, Vec<Json>), Error>)
    ensures
        crate::condition::clause_outcome(r) == conflict_clause(
            ws,
            *table,
            schema@,
            table_name@,
            pairs(types@),
            json_ref(on_conflict),
            path@,
            start,
        ),
{
    let none: Vec<Json> = Vec::new();
    assert(jsons(none@) =~= Seq::<JsonV>::empty());
    let spec = match on_conflict {
        Some(spec) => spec,
        None => return Ok((String::new(), none)),
    };
    if !matches!(spec, Json::Object(_)) {
        return Ok((String::new(), none));
    }
    let constraint = match spec.get("constraint") {
        Some(Json::String(constraint)) => constraint,
        _ => {
            return Err(Error::new(owned("on_conflict needs a constraint to resolve against")));
        },
    };
    if !has_constraint(&table.unique_constraints, constraint) {
        return Err(
            Error::new(
                cat5(
                    "\"",
                    constraint,
                    "\" is not a unique constraint of \"",
                    table_name,
                    "\"",
                ),
            ),
        );
    }
    let fields = match spec.get("update_columns") {
        Some(Json::Array(items)) => {
            proof {
                lemma_array_view(*items);
            }
            crate::ordering::argument_names(spec.get("update_columns"))
        },
        _ => no_texts(),
    };
    if contains_text(&fields, PLACEHOLDER_COLUMN) {
        return Err(
            at_path(coded_error("validation-failed", owned("erroneous column name")), path),
        );
    }
    if fields.len() == 0 {
        return Ok(
            (
                cat3(" ON CONFLICT ON CONSTRAINT ", &escape_ident(constraint), " DO NOTHING"),
                none,
            ),
        );
    }
    overwriting_sql(ws, table, schema, table_name, types, constraint, &fields, spec, start)
}

// ---------------------------------------------------------------------------
// Inserts
// ---------------------------------------------------------------------------

/// Entries with a key given a value: where it stands already, or else last.
pub open spec fn put(entries: Seq<(Seq<char>, JsonV)>, key: Seq<char>, value: JsonV) -> Seq<
    (Seq<char>, JsonV),
> {
    let k = crate::condition::place_of(entries, key, 0);
    if k < entries.len() {
        entries.update(k as int, (key, value))
    } else {
        entries.push((key, value))
    }
}

/// A map stays one when a key is given a value.
pub proof fn law_put_keeps_keys_once(
    entries: Seq<(Seq<char>, JsonV)>,
    key: Seq<char>,
    value: JsonV,
)
    ensures
        once(entries) ==> once(put(entries, key, value)),
        well_keyed(JsonV::Object(entries)) && well_keyed(value) ==> well_keyed(
            JsonV::Object(put(entries, key, value)),
        ),
{
    crate::condition::lemma_place_range(entries, key, 0);
    let k = crate::condition::place_of(entries, key, 0) as int;
    let after = put(entries, key, value);
    if once(entries) {
        assert forall|i: int, j: int| 0 <= i < j < after.len() implies (#[trigger] after[i]).0 != (
        #[trigger] after[j]).0 by {
            if i != k && i < entries.len() {
                assert(after[i] == entries[i]);
            }
            if j != k && j < entries.len() {
                assert(after[j] == entries[j]);
            }
        }
    }
    if well_keyed(JsonV::Object(entries)) && well_keyed(value) {
        assert forall|i: int| 0 <= i < after.len() implies well_keyed((#[trigger] after[i]).1) by {
            if i != k && i < entries.len() {
                assert(after[i] == entries[i]);
            }
        }
    }
}

/// A map stays one when entries are put over its own, a map or not.
pub proof fn law_put_all_keeps_keys_once(
    entries: Seq<(Seq<char>, JsonV)>,
    over: Seq<(Seq<char>, JsonV)>,
    i: nat,
)
    ensures
        once(entries) ==> once(put_all(entries, over, i)),
        well_keyed(JsonV::Object(entries)) && (forall|j: int|
            0 <= j < over.len() ==> well_keyed((#[trigger] over[j]).1)) ==> well_keyed(
            JsonV::Object(put_all(entries, over, i)),
        ),
    decreases over.len() - i,
{
    if i < over.len() {
        let (key, value) = over[i as int];
        law_put_keeps_keys_once(entries, key, value);
        law_put_all_keeps_keys_once(put(entries, key, value), over, i + 1);
    }
}

/// Gives a key of a list of entries a value.
pub fn put_entry(entries: &mut Vec<(String, Json)>, key: String, value: Json)
    ensures
        entries_view(final(entries)@) == put(entries_view(old(entries)@), key@, value@),
{
    let found = crate::condition::position_of(entries, &key);
    let ghost before = entries@;
    let ghost given = value@;
    match found {
        Some(k) => {
            entries.set(k, (key, value));
            assert(entries_view(entries@) =~= entries_view(before).update(
                k as int,
                (key@, given),
            ));
        },
        None => {
            entries.push((key, value));
            assert(entries_view(entries@) =~= entries_view(before).push((key@, given)));
        },
    }
}

/// Entries with those of another list put over them, from the `i`th on.
pub open spec fn put_all(
    entries: Seq<(Seq<char>, JsonV)>,
    over: Seq<(Seq<char>, JsonV)>,
    i: nat,
) -> Seq<(Seq<char>, JsonV)>
    decreases over.len() - i,
{
    if i >= over.len() {
        entries
    } else {
        put_all(put(entries, over[i as int].0, over[i as int].1), over, i + 1)
    }
}

/// Puts entries over those of a list.
pub fn put_entries(entries: &mut Vec<(String, Json)>, over: &Vec<(String, Json)>)
    ensures
        entries_view(final(entries)@) == put_all(
            entries_view(old(entries)@),
            entries_view(over@),
            0,
        ),
{
    let mut i: usize = 0;
    while i < over.len()
        invariant
            i <= over.len(),
            put_all(entries_view(old(entries)@), entries_view(over@), 0) == put_all(
                entries_view(entries@),
                entries_view(over@),
                i as nat,
            ),
        decreases over.len() - i,
    {
        assert(entries_view(over@)[i as int] == (over@[i as int].0@, over@[i as int].1@));
        put_entry(entries, over[i].0.clone(), over[i].1.copy());
        i += 1;
    }
}

/// The columns a row is written with, quoted.
pub open spec fn column_list(columns: Seq<(Seq<char>, JsonV)>) -> Seq<Seq<char>> {
    columns.map_values(|c: (Seq<char>, JsonV)| ident(c.0))
}

/// The expressions and values of the columns from the `i`th on, after those
/// in `parts`.
pub open spec fn written_row(
    columns: Seq<(Seq<char>, JsonV)>,
    i: nat,
    types: Seq<(Seq<char>, Seq<char>)>,
    parts: Seq<Seq<char>>,
    at: BindsV,
) -> (Seq<Seq<char>>, BindsV)
    decreases columns.len() - i,
{
    if i >= columns.len() {
        (parts, at)
    } else {
        let (column, value) = columns[i as int];
        let t = second_of(types, column);
        written_row(
            columns,
            i + 1,
            types,
            parts.push(written_as(t, value, placeholder(at))),
            bound(at, written_value(t, value)),
        )
    }
}

fn write_row(
    columns: &Vec<(String, Json)>,
    types: &Vec<(String, String)>,
    names: &mut Vec<String>,
    parts: &mut Vec<String>,
    values: &mut Vec<Json>,
)
    requires
        old(names)@.len() == 0,
        old(parts)@.len() == 0,
        old(values)@.len() == 0,
    ensures
        texts(final(names)@) == column_list(entries_view(columns@)),
        texts(final(parts)@) == written_row(
            entries_view(columns@),
            0,
            pairs(types@),
            Seq::empty(),
            BindsV { next: 1, values: Seq::empty() },
        ).0,
        jsons(final(values)@) == written_row(
            entries_view(columns@),
            0,
            pairs(types@),
            Seq::empty(),
            BindsV { next: 1, values: Seq::empty() },
        ).1.values,
{
    let mut param_idx: usize = 1;
    let mut i: usize = 0;
    let ghost start = BindsV { next: 1, values: Seq::<JsonV>::empty() };
    assert(jsons(values@) =~= Seq::<JsonV>::empty());
    assert(texts(parts@) =~= Seq::<Seq<char>>::empty());
    while i < columns.len()
        invariant
            i <= columns.len(),
            texts(names@) =~= column_list(entries_view(columns@)).take(i as int),
            written_row(entries_view(columns@), 0, pairs(types@), Seq::empty(), start)
                == written_row(
                entries_view(columns@),
                i as nat,
                pairs(types@),
                texts(parts@),
                binds(param_idx, values@),
            ),
        decreases columns.len() - i,
    {
        assert(entries_view(columns@)[i as int] == (columns@[i as int].0@, columns@[i as int].1@));
        let column = &columns[i].0;
        let value = &columns[i].1;
        let text = bind(&mut param_idx, values, write_operand(types, column, value));
        push_text(parts, write_expression(types, column, value, &text));
        push_text(names, escape_ident(column));
        i += 1;
    }
    assert(texts(names@) =~= column_list(entries_view(columns@)));
}

/// What one row's columns are written with: what was sent, under what the
/// permission presets.
pub open spec fn preset_columns(rule: Rule, columns: Seq<(Seq<char>, JsonV)>) -> Result<
    Seq<(Seq<char>, JsonV)>,
    ErrorV,
> {
    match rule.presets {
        Err(fault) => Err(fault.refusal()),
        Ok(presets) => Ok(put_all(columns, entries_view(presets@), 0)),
    }
}

/// The scope a written row's check is read against.
pub open spec fn check_scope(ws: WriteSources<'_>, schema: Seq<char>, table: Seq<char>) -> ScopeV {
    ScopeV::over_alias(
        schema,
        table,
        WRITTEN_ROW@,
        typename_of(ws.type_names@, schema, table),
        *ws.src.cache,
        *ws.src.relationships,
        *ws.src.names,
        *ws.src.words,
    )
}

/// The statement that inserts one row.
pub open spec fn insert_of(
    ws: WriteSources<'_>,
    table: Table,
    schema: Seq<char>,
    table_name: Seq<char>,
    sent: Seq<(Seq<char>, JsonV)>,
    on_conflict: Option<JsonV>,
    conflict_path: Seq<char>,
) -> Result<StatementV, ErrorV> {
    let rule = ws.caller.ruled(schema, table_name, Verb::Insert);
    let types = crate::projection::own_types(table);
    match preset_columns(rule, sent) {
        Err(e) => Err(e),
        Ok(columns) => {
            let count = columns.len();
            match conflict_clause(
                ws,
                table,
                schema,
                table_name,
                types,
                on_conflict,
                conflict_path,
                numbered_after(1, count),
            ) {
                Err(e) => Err(e),
                Ok((conflict, conflict_values)) => match check_clause(
                    rule,
                    check_scope(ws, schema, table_name),
                    numbered_after(numbered_after(1, count), conflict_values.len()),
                ) {
                    Err(e) => Err(e),
                    Ok((check, check_values)) => {
                        let target = "INSERT INTO "@ + ident2(schema, table_name) + " AS "@
                            + ident(WRITTEN_ROW@);
                        let answer = row_as_json(ident(WRITTEN_ROW@), types);
                        let (parts, at) = written_row(
                            columns,
                            0,
                            types,
                            Seq::empty(),
                            BindsV { next: 1, values: Seq::empty() },
                        );
                        // Every column defaulted is `DEFAULT VALUES`: an empty
                        // column list is a syntax error.
                        let sql = if count == 0 {
                            target + " DEFAULT VALUES"@ + conflict + " RETURNING "@ + answer
                                + check
                        } else {
                            target + " ("@ + joined(column_list(columns), ", "@) + ") VALUES ("@
                                + joined(parts, ", "@) + ")"@ + conflict + " RETURNING "@ + answer
                                + check
                        };
                        Ok(
                            StatementV {
                                sql,
                                values: at.values + conflict_values + check_values,
                                checked: check.len() > 0,
                            },
                        )
                    },
                },
            }
        },
    }
}

/// The statement that inserts one row: its columns with what the permission
/// presets over them, what to do about a row that is already there, and the
/// check the written row has to pass. Parameters are numbered in the order in
/// which these are written.
pub fn insert_statement(
    ws: WriteSources<'_>,
    table: &Table,
    schema_name: &str,
    table_name: &str,
    columns: &mut Vec<(String, Json)>,
    on_conflict: Option<&Json>,
    conflict_path: &str,
) -> (r: Result<Statement, Error>)
    ensures
        statement_outcome(r) == insert_of(
            ws,
            *table,
            schema_name@,
            table_name@,
            entries_view(old(columns)@),
            json_ref(on_conflict),
            conflict_path@,
        ),
        entries_view(final(columns)@) == (match preset_columns(
            ws.caller.ruled(schema_name@, table_name@, Verb::Insert),
            entries_view(old(columns)@),
        ) {
            Ok(columns) => columns,
            Err(_) => entries_view(old(columns)@),
        }),
{
    let rule = ws.caller.rule(schema_name, table_name, Verb::Insert);
    match &rule.presets {
        Err(fault) => return Err(fault.to_error()),
        Ok(presets) => put_entries(columns, presets),
    }
    let types = crate::projection::column_types_of(table);
    let start: usize = number_after(1, columns.len());
    let (conflict, conflict_values) = match conflict_sql(
        ws,
        table,
        schema_name,
        table_name,
        &types,
        on_conflict,
        conflict_path,
        start,
    ) {
        Ok(clause) => clause,
        Err(e) => return Err(e),
    };
    let typename = find_typename(ws.type_names, schema_name, table_name);
    let scope = WhereScope::for_alias(
        schema_name,
        table_name,
        WRITTEN_ROW,
        typename,
        ws.src.cache,
        ws.src.relationships,
        ws.src.names,
        ws.src.words,
    );
    let check_start: usize = number_after(start, conflict_values.len());
    let (check, check_values) = match permission_check_sql(rule, &scope, check_start) {
        Ok(clause) => clause,
        Err(e) => return Err(e),
    };
    let row = escape_ident(WRITTEN_ROW);
    let target = cat4("INSERT INTO ", &escape_ident2(schema_name, table_name), " AS ", &row);
    let answer = row_json(&row, &types);
    let mut names = no_texts();
    let mut parts = no_texts();
    let mut values: Vec<Json> = Vec::new();
    write_row(columns, &types, &mut names, &mut parts, &mut values);
    let sql = if columns.len() == 0 {
        cat6(&target, " DEFAULT VALUES", &conflict, " RETURNING ", &answer, &check)
    } else {
        cat10(
            &target,
            " (",
            &join(&names, ", "),
            ") VALUES (",
            &join(&parts, ", "),
            ")",
            &conflict,
            " RETURNING ",
            &answer,
            &check,
        )
    };
    append_jsons(&mut values, conflict_values);
    append_jsons(&mut values, check_values);
    Ok(Statement { sql, values, checked: !check.as_str().is_empty() })
}

// ---------------------------------------------------------------------------
// Deletes
// ---------------------------------------------------------------------------

/// The clause that names the rows a delete removes. One that would remove
/// every row is refused.
pub open spec fn deleted_rows(
    ws: WriteSources<'_>,
    schema: Seq<char>,
    table: Seq<char>,
    typename: Seq<char>,
    filter: Option<JsonV>,
) -> Result<(Seq<char>, Seq<JsonV>), ErrorV> {
    match where_clause(filter, 1, write_scope(ws, schema, table, typename)) {
        Err(e) => Err(e),
        Ok((sql, values)) => if sql.len() == 0 {
            Err(unbounded_refusal("delete"@, table))
        } else {
            Ok((sql, values))
        },
    }
}

/// The clause that names the rows a delete removes.
pub fn delete_where(
    ws: WriteSources<'_>,
    schema_name: &str,
    table_name: &str,
    typename: &str,
    filter: Option<&Json>,
) -> (r: Result<(String, Vec<Json>), Error>)
    ensures
        crate::condition::clause_outcome(r) == deleted_rows(
            ws,
            schema_name@,
            table_name@,
            typename@,
            json_ref(filter),
        ),
{
    let scope = scope_of_write(ws, schema_name, table_name, typename);
    match build_where_clause(filter, 1, &scope) {
        Err(e) => Err(e),
        Ok((sql, values)) => if sql.as_str().is_empty() {
            Err(refuse_unbounded("delete", table_name))
        } else {
            Ok((sql, values))
        },
    }
}

} // verus!
