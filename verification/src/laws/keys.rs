//! What is a map stays one: no document the library makes has a key twice
//! where those it is made of have not.

use crate::entity::{groups_of, keyed_rows, types_seen, EntityLookupV};
use crate::json::{well_keyed, JsonV};
use crate::lookup::once;
use crate::role::{both, Rule};
use crate::statement::{law_put_all_keeps_keys_once, law_put_keeps_keys_once, preset_columns, put};
use crate::text::has_text;
use crate::value::{argument_entries, argument_json, kept_number, passed, plain, value_json, Value};
use vstd::prelude::*;

verus! {

/// Whether two lists have the same keys, in the same places.
spec fn keys_alike(xs: Seq<(Seq<char>, JsonV)>, ys: Seq<(Seq<char>, JsonV)>) -> bool {
    xs.len() == ys.len() && forall|i: int| 0 <= i < xs.len() ==> (#[trigger] xs[i]).0 == ys[i].0
}

proof fn lemma_alike_once(xs: Seq<(Seq<char>, JsonV)>, ys: Seq<(Seq<char>, JsonV)>)
    requires
        once(xs),
        keys_alike(xs, ys),
    ensures
        once(ys),
{
    assert forall|i: int, j: int| 0 <= i < j < ys.len() implies (#[trigger] ys[i]).0 != (
    #[trigger] ys[j]).0 by {
        assert(xs[i].0 == ys[i].0 && xs[j].0 == ys[j].0);
    }
}

/// A document that is handed on as a value has no key twice that it had not.
pub proof fn law_passed_documents_are_maps(j: JsonV)
    requires
        well_keyed(j),
    ensures
        well_keyed(passed(j)),
    decreases j,
{
    match j {
        JsonV::Array(items) => {
            let out = passed(j)->Array_0;
            assert forall|i: int| 0 <= i < out.len() implies well_keyed(#[trigger] out[i]) by {
                assert(well_keyed(items[i]));
                law_passed_documents_are_maps(items[i]);
            }
        },
        JsonV::Object(entries) => {
            let out = passed(j)->Object_0;
            lemma_alike_once(entries, out);
            assert forall|i: int| 0 <= i < out.len() implies well_keyed((#[trigger] out[i]).1) by {
                assert(well_keyed(entries[i].1));
                law_passed_documents_are_maps(entries[i].1);
            }
        },
        _ => {},
    }
}

/// A document whose numbers kept as text are made numbers has no key twice that
/// it had not.
pub proof fn law_plain_documents_are_maps(j: JsonV)
    requires
        well_keyed(j),
    ensures
        well_keyed(plain(j)),
    decreases j,
{
    match j {
        JsonV::Array(items) => {
            let out = plain(j)->Array_0;
            assert forall|i: int| 0 <= i < out.len() implies well_keyed(#[trigger] out[i]) by {
                assert(well_keyed(items[i]));
                law_plain_documents_are_maps(items[i]);
            }
        },
        JsonV::Object(entries) => {
            if kept_number(entries) is None {
                let out = plain(j)->Object_0;
                lemma_alike_once(entries, out);
                assert forall|i: int| 0 <= i < out.len() implies well_keyed(
                    (#[trigger] out[i]).1,
                ) by {
                    assert(well_keyed(entries[i].1));
                    law_plain_documents_are_maps(entries[i].1);
                }
            }
        },
        _ => {},
    }
}

/// An argument as a document has no key twice that the value it came as has
/// not.
pub proof fn law_arguments_are_maps(v: Value)
    requires
        well_keyed(value_json(v)),
    ensures
        well_keyed(argument_json(v)),
    decreases v,
{
    match v {
        Value::List(items) => {
            let out = argument_json(v)->Array_0;
            let came = value_json(v)->Array_0;
            assert forall|i: int| 0 <= i < out.len() implies well_keyed(#[trigger] out[i]) by {
                assert(well_keyed(came[i]));
                assert(decreases_to!(items => items@[i]));
                law_arguments_are_maps(items@[i]);
            }
        },
        Value::Object(entries) => {
            let out = argument_entries(entries@);
            let came = value_json(v)->Object_0;
            if kept_number(out) is None {
                assert(keys_alike(came, out));
                lemma_alike_once(came, out);
                assert forall|i: int| 0 <= i < out.len() implies well_keyed(
                    (#[trigger] out[i]).1,
                ) by {
                    assert(well_keyed(came[i].1));
                    assert(decreases_to!(entries => entries@[i]));
                    law_arguments_are_maps(entries@[i].1);
                }
            }
        },
        _ => {},
    }
}

/// What a permission presets leaves a row writing a column once.
pub proof fn law_presets_write_columns_once(rule: Rule, columns: Seq<(Seq<char>, JsonV)>)
    requires
        once(columns),
    ensures
        preset_columns(rule, columns) is Ok ==> once(preset_columns(rule, columns)->Ok_0),
{
    match rule.presets {
        Ok(presets) => law_put_all_keeps_keys_once(
            columns,
            crate::json::entries_view(presets@),
            0,
        ),
        Err(_) => {},
    }
}

/// Two predicates that both have to hold are a map where each is one.
pub proof fn law_both_are_a_map(a: Option<JsonV>, b: Option<JsonV>)
    requires
        a is Some ==> well_keyed(a->0),
        b is Some ==> well_keyed(b->0),
    ensures
        both(a, b) is Some ==> well_keyed(both(a, b)->0),
{
    if a is Some && b is Some {
        let items = seq![a->0, b->0];
        assert forall|i: int| 0 <= i < items.len() implies well_keyed(#[trigger] items[i]) by {}
        assert(well_keyed(JsonV::Array(items)));
        let entries = seq![("_and"@, JsonV::Array(items))];
        assert forall|i: int| 0 <= i < entries.len() implies well_keyed(
            (#[trigger] entries[i]).1,
        ) by {}
        assert(well_keyed(JsonV::Object(entries)));
    }
}

/// The rows of entities are found under a key each.
pub proof fn law_rows_stand_under_one_key(
    lookup: EntityLookupV,
    rows: Seq<JsonV>,
    i: nat,
    found: Seq<(Seq<char>, JsonV)>,
)
    requires
        once(found),
    ensures
        keyed_rows(lookup, rows, i, found) is Ok ==> once(keyed_rows(lookup, rows, i, found)->Ok_0),
    decreases rows.len() - i,
{
    if i < rows.len() {
        match rows[i as int] {
            JsonV::Object(_) => {
                match crate::entity::entity_key(
                    rows[i as int],
                    lookup.key_columns,
                    lookup.typename,
                ) {
                    Err(_) => {},
                    Ok((key, _)) => {
                        law_put_keeps_keys_once(found, key, rows[i as int]);
                        law_rows_stand_under_one_key(
                            lookup,
                            rows,
                            i + 1,
                            put(found, key, rows[i as int]),
                        );
                    },
                }
            },
            _ => law_rows_stand_under_one_key(lookup, rows, i + 1, found),
        }
    }
}

/// The representations of a type are one group.
pub proof fn law_a_type_is_one_group(list: Seq<JsonV>, types: Seq<Seq<char>>)
    ensures
        once(groups_of(list, types)),
{
    lemma_types_once(types, types.len());
    let seen = types_seen(types, types.len());
    let groups = groups_of(list, types);
    assert forall|i: int, j: int| 0 <= i < j < groups.len() implies (#[trigger] groups[i]).0 != (
    #[trigger] groups[j]).0 by {
        assert(groups[i].0 == seen[i] && groups[j].0 == seen[j]);
    }
}

proof fn lemma_types_once(types: Seq<Seq<char>>, n: nat)
    ensures
        forall|i: int, j: int|
            0 <= i < j < types_seen(types, n).len() ==> #[trigger] types_seen(types, n)[i]
                != #[trigger] types_seen(types, n)[j],
    decreases n,
{
    if n > 0 {
        let before = types_seen(types, (n - 1) as nat);
        lemma_types_once(types, (n - 1) as nat);
        if !has_text(before, types[n - 1]) {
            let after = types_seen(types, n);
            assert forall|i: int, j: int| 0 <= i < j < after.len() implies #[trigger] after[i]
                != #[trigger] after[j] by {
                assert(after[i] == before[i]);
                if j < before.len() {
                    assert(after[j] == before[j]);
                }
            }
        }
    }
}

} // verus!
