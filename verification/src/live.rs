//! Live queries: the answer now, and the answer again each time it changes.

use crate::error::{Error, ErrorV};
use crate::generated::{GeneratedSchema, QueryField};
use crate::json::{json_opt, jsons, law_same_as_itself, lemma_array_view, same_json, Json, JsonV};
use crate::text::{cat4, contains_text, has_text, no_texts, push_text, texts};
use vstd::prelude::*;

verus! {

/// What a field answers with rows: one or none of a by-key field, and a list
/// of any other.
pub open spec fn rows_answer(rows: Seq<JsonV>, is_by_pk: bool) -> Option<JsonV> {
    if is_by_pk {
        if rows.len() == 0 {
            None
        } else {
            Some(rows[0])
        }
    } else {
        Some(JsonV::Array(rows))
    }
}

/// The rows a field answers with, in the shape its type says. A list is empty
/// where nothing matched rather than null.
pub fn rows_as_field_value(rows: Vec<Json>, is_by_pk: bool) -> (r: Option<Json>)
    ensures
        json_opt(r) == rows_answer(jsons(rows@), is_by_pk),
{
    if is_by_pk {
        if rows.len() == 0 {
            return None;
        }
        assert(jsons(rows@)[0] == rows@[0]@);
        return Some(rows[0].copy());
    }
    proof {
        lemma_array_view(rows);
    }
    Some(Json::Array(rows))
}

/// The channel that writes to a table are told on.
pub open spec fn channel(schema: Seq<char>, table: Seq<char>) -> Seq<char> {
    "postrust_"@ + schema + "_"@ + table
}

/// The channel that writes to a table are told on.
pub fn table_channel_name(schema: &str, table: &str) -> (r: String)
    ensures
        r@ == channel(schema@, table@),
{
    cat4("postrust_", schema, "_", table)
}

/// The channels of the tables that root fields read, from the `i`th on, each
/// once, after those in `found`.
pub open spec fn channels_from(
    fields: Seq<QueryField>,
    i: nat,
    found: Seq<Seq<char>>,
) -> Seq<Seq<char>>
    decreases fields.len() - i,
{
    if i >= fields.len() {
        found
    } else {
        let name = channel(fields[i as int].schema_name@, fields[i as int].table_name@);
        channels_from(
            fields,
            i + 1,
            if has_text(found, name) {
                found
            } else {
                found.push(name)
            },
        )
    }
}

/// The channels that live queries listen on: one for each table that a root
/// field reads, and none where live queries are not offered.
pub fn watched_channels(generated: &GeneratedSchema, subscriptions: bool) -> (r: Vec<String>)
    ensures
        texts(r@) == (if subscriptions {
            channels_from(generated.query_fields@, 0, Seq::empty())
        } else {
            Seq::empty()
        }),
{
    let mut found = no_texts();
    if !subscriptions {
        return found;
    }
    let mut i: usize = 0;
    while i < generated.query_fields.len()
        invariant
            i <= generated.query_fields.len(),
            channels_from(generated.query_fields@, 0, Seq::empty()) == channels_from(
                generated.query_fields@,
                i as nat,
                texts(found@),
            ),
        decreases generated.query_fields.len() - i,
    {
        let field = &generated.query_fields[i];
        let name = table_channel_name(&field.schema_name, &field.table_name);
        if !contains_text(&found, &name) {
            push_text(&mut found, name);
        }
        i += 1;
    }
    found
}

/// What one reading of a live query gave: what to compare it by, and what to
/// send.
pub struct Reading {
    pub seen: Json,
    pub value: Option<Json>,
}

/// The reading of a field that answers with rows.
pub fn read_rows(rows: Vec<Json>, is_by_pk: bool) -> (r: Reading)
    ensures
        r.seen@ == JsonV::Array(jsons(rows@)),
        json_opt(r.value) == rows_answer(jsons(rows@), is_by_pk),
{
    let copied = crate::read::copy_jsons(&rows);
    proof {
        lemma_array_view(copied);
    }
    Reading { seen: Json::Array(copied), value: rows_as_field_value(rows, is_by_pk) }
}

/// The reading of a field that answers with numbers.
pub fn read_numbers(value: Json) -> (r: Reading)
    ensures
        r.seen@ == value@,
        json_opt(r.value) == Some(value@),
{
    Reading { seen: value.copy(), value: Some(value) }
}

/// A live query under way: what was sent last, and whether it was read at all.
pub struct Live {
    pub sent: Option<Json>,
    pub started: bool,
}

/// What a [`Live`] holds.
#[verifier::ext_equal]
pub struct LiveV {
    pub sent: Option<JsonV>,
    pub started: bool,
}

impl View for Live {
    type V = LiveV;

    open spec fn view(&self) -> LiveV {
        LiveV { sent: json_opt(self.sent), started: self.started }
    }
}

/// What has to happen next.
pub enum Turn {
    /// Nothing changed: wait to be woken and read again.
    Wait,
    /// Send this.
    Send(Json),
    /// End: what was asked cannot be answered.
    End(Error),
}

/// What a [`Turn`] holds.
#[verifier::ext_equal]
pub enum TurnV {
    Wait,
    Send(JsonV),
    End(ErrorV),
}

impl View for Turn {
    type V = TurnV;

    open spec fn view(&self) -> TurnV {
        match *self {
            Turn::Wait => TurnV::Wait,
            Turn::Send(value) => TurnV::Send(value@),
            Turn::End(e) => TurnV::End(e@),
        }
    }
}

/// Whether a reading holds the same as the last one sent.
pub open spec fn was_sent(state: LiveV, seen: JsonV) -> bool {
    match state.sent {
        Some(sent) => same_json(sent, seen),
        None => false,
    }
}

/// What is done about a reading: sent where it is not what was sent last. An
/// error ends the query, since it would only be repeated.
pub open spec fn turn_of(
    state: LiveV,
    reading: Result<(JsonV, Option<JsonV>), ErrorV>,
) -> (LiveV, TurnV) {
    match reading {
        Err(e) => (state, TurnV::End(e)),
        Ok((seen, value)) => if was_sent(state, seen) {
            (state, TurnV::Wait)
        } else {
            (
                LiveV { sent: Some(seen), ..state },
                TurnV::Send(
                    match value {
                        Some(value) => value,
                        None => JsonV::Null,
                    },
                ),
            )
        },
    }
}

/// What a reading is.
pub open spec fn reading_view(r: Result<Reading, Error>) -> Result<(JsonV, Option<JsonV>), ErrorV> {
    match r {
        Ok(reading) => Ok((reading.seen@, json_opt(reading.value))),
        Err(e) => Err(e@),
    }
}

impl Live {
    /// A live query that was not read yet.
    pub fn new() -> (r: Live)
        ensures
            r@ == (LiveV { sent: None, started: false }),
    {
        Live { sent: None, started: false }
    }

    /// Whether to wait to be woken before reading. The first answer is sent as
    /// soon as the client subscribes, so there is no time at which it knows
    /// nothing.
    pub fn waits(&mut self) -> (r: bool)
        ensures
            r == old(self).started,
            final(self)@ == (LiveV { started: true, ..old(self)@ }),
    {
        let started = self.started;
        self.started = true;
        started
    }

    /// What to do about a reading.
    pub fn observe(&mut self, reading: Result<Reading, Error>) -> (r: Turn)
        ensures
            (final(self)@, r@) == turn_of(old(self)@, reading_view(reading)),
    {
        let reading = match reading {
            Ok(reading) => reading,
            Err(e) => return Turn::End(e),
        };
        let unchanged = match &self.sent {
            Some(sent) => sent.same_as(&reading.seen),
            None => false,
        };
        if unchanged {
            return Turn::Wait;
        }
        self.sent = Some(reading.seen);
        match reading.value {
            Some(value) => Turn::Send(value),
            None => Turn::Send(Json::Null),
        }
    }
}

/// A live query never sends the same answer twice in a row: a reading that was
/// just sent, read again, is waited on.
pub proof fn law_no_answer_twice(state: LiveV, seen: JsonV, value: Option<JsonV>)
    ensures
        ({
            let (after, _) = turn_of(state, Ok((seen, value)));
            turn_of(after, Ok((seen, value))) == (after, TurnV::Wait)
        }),
{
    law_same_as_itself(seen);
}

/// A live query sends every change: a reading unlike the last one sent is
/// sent, and so is the first.
pub proof fn law_every_change_sent(state: LiveV, seen: JsonV, value: JsonV)
    requires
        !was_sent(state, seen),
    ensures
        turn_of(state, Ok((seen, Some(value)))).1 == TurnV::Send(value),
        turn_of(state, Ok((seen, Some(value)))).0.sent == Some(seen),
{
}

} // verus!
