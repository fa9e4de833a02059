//! What is answered: fields, mutations, live queries and refusals.

use crate::answer::answered;
use crate::error::{state_code, violation_heading, ErrorV};
use crate::generated::QueryField;
use crate::insert::{mutation_answer, rows_of, with_inserted};
use crate::json::{lemma_entry_of, JsonV, NumberV};
use crate::json_path::{bracket_step, part_of, path_steps, place_of_char, steps_from, PathStepV};
use crate::live::{channel, channels_from, rows_answer, turn_of, LiveV, TurnV};
use crate::schema_def::Source;
use crate::text::{has_prefix, has_text, natural_of};
use vstd::prelude::*;

verus! {

// ---------------------------------------------------------------------------
// Fields
// ---------------------------------------------------------------------------

/// What a row or a number holds under a name, unless it is null.
pub open spec fn held(parent: JsonV, name: Seq<char>) -> Option<JsonV> {
    if parent.get(name) == Some(JsonV::Null) {
        None
    } else {
        parent.get(name)
    }
}

/// The list that stands under a name, or an empty one.
pub open spec fn listed(parent: JsonV, name: Seq<char>) -> JsonV {
    if parent.get(name) is Some && parent.get(name)->0 is Array {
        parent.get(name)->0
    } else {
        JsonV::Array(Seq::empty())
    }
}

/// A field is answered with what its row holds under its name. A null is no
/// answer where there may be none, a list that is missing is an empty one, a
/// count that is missing is nought, and a count is found under the name that it
/// was asked for.
pub proof fn law_fields_are_answered_from_their_rows(
    name: Seq<char>,
    alias: Option<Seq<char>>,
    path: Option<Seq<char>>,
    parent: JsonV,
)
    ensures
        ({
            let own = parent.get(name);
            let nought = JsonV::Number(NumberV::Int(0));
            let counted = if alias is Some {
                parent.get(alias->0)
            } else {
                parent.get("count"@)
            };
            &&& answered(Source::Column { path: false }, name, alias, path, parent) == Ok::<
                Option<JsonV>,
                ErrorV,
            >(held(parent, name))
            &&& answered(Source::Column { path: true }, name, alias, None, parent) == Ok::<
                Option<JsonV>,
                ErrorV,
            >(held(parent, name))
            &&& answered(Source::Related { list: false }, name, alias, path, parent) == Ok::<
                Option<JsonV>,
                ErrorV,
            >(held(parent, name))
            &&& answered(Source::Related { list: true }, name, alias, path, parent) == Ok::<
                Option<JsonV>,
                ErrorV,
            >(own)
            &&& answered(Source::RelatedNumbers, name, alias, path, parent) == Ok::<
                Option<JsonV>,
                ErrorV,
            >(
                Some(
                    if own is Some {
                        own->0
                    } else {
                        JsonV::Null
                    },
                ),
            )
            &&& answered(Source::AffectedRows, name, alias, path, parent) == Ok::<
                Option<JsonV>,
                ErrorV,
            >(
                Some(
                    if own is Some {
                        own->0
                    } else {
                        nought
                    },
                ),
            )
            &&& answered(Source::Returning, name, alias, path, parent) == Ok::<
                Option<JsonV>,
                ErrorV,
            >(Some(listed(parent, name)))
            &&& answered(Source::Nodes, name, alias, path, parent) == Ok::<Option<JsonV>, ErrorV>(
                Some(listed(parent, name)),
            )
            &&& answered(Source::Numbers, name, alias, path, parent) == Ok::<
                Option<JsonV>,
                ErrorV,
            >(held(parent, name))
            &&& answered(Source::FunctionNumbers, name, alias, path, parent) == Ok::<
                Option<JsonV>,
                ErrorV,
            >(held(parent, name))
            &&& answered(Source::ColumnNumber, name, alias, path, parent) == Ok::<
                Option<JsonV>,
                ErrorV,
            >(own)
            &&& answered(Source::Count, name, alias, path, parent) == Ok::<
                Option<JsonV>,
                ErrorV,
            >(
                Some(
                    if counted is Some {
                        counted->0
                    } else {
                        nought
                    },
                ),
            )
        }),
{
}

/// A path into a document answers with the part it leads to, unless that is
/// null, and a path that is none is refused.
pub proof fn law_paths_lead_into_documents(
    name: Seq<char>,
    alias: Option<Seq<char>>,
    path: Seq<char>,
    parent: JsonV,
)
    requires
        held(parent, name) is Some,
    ensures
        answered(Source::Column { path: true }, name, alias, Some(path), parent) == (match part_of(
            held(parent, name)->0,
            path,
        ) {
            Err(e) => Err(e),
            Ok(part) => Ok(
                if part is Null {
                    None
                } else {
                    Some(part)
                },
            ),
        }),
{
}

/// A bracket holds a number, which is the place in a list, or else a key. A key
/// may stand in quotes of either kind, whatever it holds but those.
pub proof fn law_brackets_hold_places_and_keys(inner: Seq<char>, quote: char)
    requires
        !inner.contains(']'),
        inner.len() > 0,
        inner[0] != '\'' && inner[0] != '"',
        quote == '\'' || quote == '"',
    ensures
        path_steps(seq!['['] + inner + seq![']']) == Some(
            seq![
                if natural_of(inner) is Some && natural_of(inner)->0 <= usize::MAX {
                    PathStepV::Index(natural_of(inner)->0 as usize)
                } else {
                    PathStepV::Key(inner)
                },
            ],
        ),
        !inner.contains(quote) ==> path_steps(
            seq!['[', quote] + inner + seq![quote, ']'],
        ) == Some(seq![PathStepV::Key(inner)]),
{
    let none = Seq::<PathStepV>::empty();
    let s = seq!['['] + inner + seq![']'];
    lemma_place(s, ']', 1, inner.len() + 1);
    assert(s.subrange(1, (inner.len() + 1) as int) =~= inner);
    let step = crate::json_path::bracketed(inner);
    assert(bracket_step(s, 1) == Some((step, inner.len() + 2)));
    let one = none.push(step);
    assert(steps_from(s, inner.len() + 2, one) == Some(one));
    assert(steps_from(s, 0, none) == Some(one));
    assert(one =~= seq![step]);
    if !inner.contains(quote) {
        let t = seq!['[', quote] + inner + seq![quote, ']'];
        lemma_place(t, quote, 2, inner.len() + 2);
        assert(t.subrange(2, (inner.len() + 2) as int) =~= inner);
        assert(t[1] == quote);
        assert(t[(inner.len() + 3) as int] == ']');
        let key = PathStepV::Key(inner);
        assert(bracket_step(t, 1) == Some((key, inner.len() + 4)));
        let other = none.push(key);
        assert(steps_from(t, inner.len() + 4, other) == Some(other));
        assert(steps_from(t, 0, none) == Some(other));
        assert(other =~= seq![key]);
    }
}

proof fn lemma_place(s: Seq<char>, c: char, i: nat, k: nat)
    requires
        i <= k < s.len(),
        s[k as int] == c,
        forall|j: int| i <= j < k ==> s[j] != c,
    ensures
        place_of_char(s, c, i) == k,
    decreases k - i,
{
    if i < k {
        assert(s[i as int] != c);
        lemma_place(s, c, i + 1, k);
    }
}

// ---------------------------------------------------------------------------
// Mutations
// ---------------------------------------------------------------------------

/// A mutation of one row is answered with that row, or with nothing where there
/// was none. One of many is answered with how many rows it changed, and those
/// rows.
pub proof fn law_mutations_answer_their_rows(rows: Seq<JsonV>, affected: usize)
    ensures
        mutation_answer(rows, affected, true) == (if rows.len() == 0 {
            None
        } else {
            Some(rows[0])
        }),
        mutation_answer(rows, affected, false) is Some,
        (mutation_answer(rows, affected, false)->0).get("affected_rows"@) == Some(
            JsonV::Number(NumberV::Int(affected as int)),
        ),
        (mutation_answer(rows, affected, false)->0).get("returning"@) == Some(JsonV::Array(rows)),
{
    reveal_strlit("affected_rows");
    reveal_strlit("returning");
    assert("affected_rows"@.len() == 13 && "returning"@.len() == 9);
    let entries = (mutation_answer(rows, affected, false)->0)->Object_0;
    lemma_entry_of(entries, "affected_rows"@, 0);
    lemma_entry_of(entries, "returning"@, 1);
}

/// The rows to insert are those of a list, which may not be empty, or one row
/// alone.
pub proof fn law_rows_to_insert_are_listed(objects: JsonV)
    ensures
        objects is Array && objects->Array_0.len() > 0 ==> rows_of(objects) == Ok::<
            Seq<JsonV>,
            ErrorV,
        >(objects->Array_0),
        objects is Array && objects->Array_0.len() == 0 ==> rows_of(objects) is Err,
        objects is Object ==> rows_of(objects) == Ok::<Seq<JsonV>, ErrorV>(seq![objects]),
        !(objects is Array) && !(objects is Object) ==> rows_of(objects) is Err,
{
}

/// A row that was inserted is among those that are answered, after the rest, and
/// one that was not is none of them.
pub proof fn law_inserted_rows_are_kept(inserted: Seq<JsonV>, row: JsonV)
    ensures
        row is Null ==> with_inserted(inserted, row) == inserted,
        !(row is Null) ==> with_inserted(inserted, row) == inserted + seq![row],
{
    assert(inserted.push(row) =~= inserted + seq![row]);
}

// ---------------------------------------------------------------------------
// Live queries
// ---------------------------------------------------------------------------

/// A query by key is answered with its row, where there is one, and any other
/// with every row it read.
pub proof fn law_queries_answer_their_rows(rows: Seq<JsonV>)
    ensures
        rows_answer(rows, false) == Some(JsonV::Array(rows)),
        rows.len() > 0 ==> rows_answer(rows, true) == Some(rows[0]),
        rows.len() == 0 ==> rows_answer(rows, true) is None,
{
}

/// A live query ends where reading it failed, saying why. What it read first it
/// sends.
pub proof fn law_live_queries_end_with_their_fault(state: LiveV, e: ErrorV, value: JsonV)
    ensures
        turn_of(state, Err(e)) == (state, TurnV::End(e)),
        state.sent is None ==> turn_of(state, Ok((value, Some(value)))).1 == TurnV::Send(value),
        state.sent is None ==> turn_of(state, Ok((value, None))).1 == TurnV::Send(JsonV::Null),
{
}

/// The changes of a table are told on a channel that is named after it.
pub proof fn law_tables_have_channels(schema: Seq<char>, table: Seq<char>)
    ensures
        channel(schema, table) == "postrust_"@ + schema + "_"@ + table,
{
}

proof fn lemma_channels(
    fields: Seq<QueryField>,
    i: nat,
    found: Seq<Seq<char>>,
    name: Seq<char>,
)
    ensures
        has_text(channels_from(fields, i, found), name) <==> has_text(found, name) || exists|k: int|
            i <= k < fields.len() && #[trigger] channel(
                fields[k].schema_name@,
                fields[k].table_name@,
            ) == name,
    decreases fields.len() - i,
{
    if i < fields.len() {
        let here = channel(fields[i as int].schema_name@, fields[i as int].table_name@);
        let next = if has_text(found, here) {
            found
        } else {
            found.push(here)
        };
        lemma_channels(fields, i + 1, next, name);
        assert(has_text(next, name) <==> has_text(found, name) || here == name) by {
            if !has_text(found, here) {
                assert(next[found.len() as int] == here);
                if has_text(found, name) {
                    let k = choose|k: int| 0 <= k < found.len() && found[k] == name;
                    assert(next[k] == name);
                }
            }
        }
        if here == name {
            let k = i as int;
            assert(channel(fields[k].schema_name@, fields[k].table_name@) == name);
        }
    }
}

/// The channels that are watched are those of the tables that can be read, and
/// no others.
pub proof fn law_what_is_read_is_watched(fields: Seq<QueryField>, name: Seq<char>)
    ensures
        has_text(channels_from(fields, 0, Seq::empty()), name) <==> exists|k: int|
            0 <= k < fields.len() && #[trigger] channel(
                fields[k].schema_name@,
                fields[k].table_name@,
            ) == name,
{
    lemma_channels(fields, 0, Seq::empty(), name);
}

// ---------------------------------------------------------------------------
// Refusals
// ---------------------------------------------------------------------------

/// What a client is told of a constraint that was violated, by the database's
/// own code for it; and the kind of fault that each class of codes is.
pub proof fn law_violations_are_told(state: Seq<char>)
    ensures
        violation_heading(Some("23505"@)) == "Uniqueness violation. "@,
        violation_heading(Some("23502"@)) == "Not-NULL violation. "@,
        violation_heading(Some("23503"@)) == "Foreign key violation. "@,
        violation_heading(Some("23514"@)) == "Check constraint violation. "@,
        violation_heading(None) == ""@,
        state != "23505"@ && state != "23502"@ && state != "23503"@ && state != "23514"@
            ==> violation_heading(Some(state)) == ""@,
        state_code(None) is None,
        has_prefix(state, "23"@) ==> state_code(Some(state)) == Some("constraint-violation"@),
        state_code(Some("22025"@)) == Some("bad-request"@),
        has_prefix(state, "22"@) && state != "22025"@ ==> state_code(Some(state)) == Some(
            "data-exception"@,
        ),
        !has_prefix(state, "23"@) && !has_prefix(state, "22"@) ==> state_code(Some(state)) is None,
{
    reveal_strlit("23505");
    reveal_strlit("23502");
    reveal_strlit("23503");
    reveal_strlit("23514");
    reveal_strlit("22025");
    reveal_strlit("23");
    reveal_strlit("22");
    assert("23505"@[4] != "23502"@[4]);
    assert("23505"@[4] != "23503"@[4]);
    assert("23502"@[4] != "23503"@[4]);
    assert("23514"@[3] != "23505"@[3]);
    assert("23514"@[3] != "23502"@[3]);
    assert("23514"@[3] != "23503"@[3]);
    assert("22025"@.subrange(0, 2)[1] == '2');
    assert("22025"@.subrange(0, 2) =~= "22"@);
    assert("22"@[1] != "23"@[1]);
    assert(!has_prefix("22025"@, "23"@));
    if has_prefix(state, "22"@) {
        assert(state.subrange(0, 2)[1] == '2');
        assert(!has_prefix(state, "23"@));
    }
}

} // verus!
