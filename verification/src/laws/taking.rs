//! How values are taken, and what definitions follow from a table.

use crate::catalog::NameOverrides;
use crate::entity::nearest_double;
use crate::generated::{GeneratedSchema, TableObjectType};
use crate::json::{number_text, JsonV, NumberV};
use crate::lookup::named;
use crate::schema::{
    boolean_columns, constraint_enum, is_counted, on_conflict_input, predicate_enum,
    predicate_inputs, put_pair_of, target_type_from, update_column_enum, with_predicate_enums,
    with_predicates, with_upsert_enums, with_upsert_inputs,
};
use crate::schema_def::{EnumDefV, InputDefV};
use crate::text::{decimal_int, integer_of};
use crate::value::{
    argument_json, base64_text, kept_number, number_literal, number_of, passed, plain, value_json,
    Value,
};
use vstd::prelude::*;

verus! {

// ---------------------------------------------------------------------------
// Values
// ---------------------------------------------------------------------------

/// What a number is taken as: itself where it is a whole one of sixty-four bits,
/// and the nearest there is otherwise, where there is one.
pub open spec fn taken(n: NumberV) -> JsonV {
    match n.as_i64() {
        Some(i) => JsonV::Number(NumberV::Int(i)),
        None => match nearest_double(number_text(n)) {
            Some(text) => JsonV::Number(NumberV::Other(text)),
            None => JsonV::Null,
        },
    }
}

/// A value is taken as the document it stands for: a word as its text, bytes as
/// their base64 text, and lists and objects part by part.
pub proof fn law_values_are_taken_as_documents(
    b: bool,
    s: String,
    bytes: Vec<u8>,
    n: crate::json::Number,
    items: Vec<Value>,
    entries: Vec<(String, Value)>,
)
    ensures
        value_json(Value::Null) == JsonV::Null,
        value_json(Value::Boolean(b)) == JsonV::Bool(b),
        value_json(Value::String(s)) == JsonV::String(s@),
        value_json(Value::Enum(s)) == JsonV::String(s@),
        value_json(Value::Binary(bytes)) == JsonV::String(base64_text(bytes@)),
        value_json(Value::Number(n)) == taken(n@),
        value_json(Value::List(items)) == JsonV::Array(
            Seq::new(items@.len(), |i: int| value_json(items@[i])),
        ),
        value_json(Value::Object(entries)) == JsonV::Object(
            Seq::new(entries@.len(), |i: int| (entries@[i].0@, value_json(entries@[i].1))),
        ),
{
    assert(value_json(Value::List(items))->Array_0 =~= Seq::new(
        items@.len(),
        |i: int| value_json(items@[i]),
    ));
    assert(value_json(Value::Object(entries))->Object_0 =~= Seq::new(
        entries@.len(),
        |i: int| (entries@[i].0@, value_json(entries@[i].1)),
    ));
}

/// An argument is taken the same way, but bytes, which are none, and an object
/// that stands for a number, which is the number.
pub proof fn law_arguments_are_taken_as_documents(
    b: bool,
    s: String,
    bytes: Vec<u8>,
    n: crate::json::Number,
    items: Vec<Value>,
    entries: Vec<(String, Value)>,
)
    ensures
        argument_json(Value::Null) == JsonV::Null,
        argument_json(Value::Boolean(b)) == JsonV::Bool(b),
        argument_json(Value::String(s)) == JsonV::String(s@),
        argument_json(Value::Enum(s)) == JsonV::String(s@),
        argument_json(Value::Binary(bytes)) == JsonV::Null,
        argument_json(Value::Number(n)) == taken(n@),
        argument_json(Value::List(items)) == JsonV::Array(
            Seq::new(items@.len(), |i: int| argument_json(items@[i])),
        ),
        ({
            let list = Seq::new(
                entries@.len(),
                |i: int| (entries@[i].0@, argument_json(entries@[i].1)),
            );
            argument_json(Value::Object(entries)) == (match kept_number(list) {
                Some(number) => number,
                None => JsonV::Object(list),
            })
        }),
{
    assert(argument_json(Value::List(items))->Array_0 =~= Seq::new(
        items@.len(),
        |i: int| argument_json(items@[i]),
    ));
    assert(crate::value::argument_entries(entries@) =~= Seq::new(
        entries@.len(),
        |i: int| (entries@[i].0@, argument_json(entries@[i].1)),
    ));
}

/// An object stands for a number where it holds nothing but the text of one,
/// under the key that is kept for it.
pub proof fn law_numbers_are_kept_as_text(
    entries: Seq<(Seq<char>, JsonV)>,
    key: Seq<char>,
    text: Seq<char>,
)
    ensures
        entries.len() != 1 ==> kept_number(entries) is None,
        key != "$serde_json::private::Number"@ ==> kept_number(
            seq![(key, JsonV::String(text))],
        ) is None,
        kept_number(seq![("$serde_json::private::Number"@, JsonV::String(text))]) == (
        match number_literal(text) {
            Some(digits) => Some(JsonV::Number(number_of(digits))),
            None => None,
        }),
        kept_number(seq![("$serde_json::private::Number"@, JsonV::Null)]) is None,
{
    let other = seq![(key, JsonV::String(text))];
    let kept = seq![("$serde_json::private::Number"@, JsonV::String(text))];
    let null = seq![("$serde_json::private::Number"@, JsonV::Null)];
    assert(other[0] == (key, JsonV::String(text)));
    assert(kept[0] == ("$serde_json::private::Number"@, JsonV::String(text)));
    assert(null[0] == ("$serde_json::private::Number"@, JsonV::Null));
}

/// A number's text is the number it spells where that fits sixty-four bits and
/// spells the same, and is kept as it is otherwise.
pub proof fn law_texts_are_numbers(text: Seq<char>)
    ensures
        number_of(text) == (match integer_of(text) {
            Some(n) => if -9223372036854775808 <= n <= 18446744073709551615 && decimal_int(n)
                == text {
                NumberV::Int(n)
            } else {
                NumberV::Other(text)
            },
            None => NumberV::Other(text),
        }),
{
}

/// A document is passed on with every number taken, and all else as it is.
pub proof fn law_documents_pass_part_by_part(
    b: bool,
    s: Seq<char>,
    n: NumberV,
    items: Seq<JsonV>,
    entries: Seq<(Seq<char>, JsonV)>,
)
    ensures
        passed(JsonV::Null) == JsonV::Null,
        passed(JsonV::Bool(b)) == JsonV::Bool(b),
        passed(JsonV::String(s)) == JsonV::String(s),
        passed(JsonV::Number(n)) == taken(n),
        passed(JsonV::Array(items)) == JsonV::Array(
            Seq::new(items.len(), |i: int| passed(items[i])),
        ),
        passed(JsonV::Object(entries)) == JsonV::Object(
            Seq::new(entries.len(), |i: int| (entries[i].0, passed(entries[i].1))),
        ),
{
    assert(passed(JsonV::Array(items))->Array_0 =~= Seq::new(
        items.len(),
        |i: int| passed(items[i]),
    ));
    assert(passed(JsonV::Object(entries))->Object_0 =~= Seq::new(
        entries.len(),
        |i: int| (entries[i].0, passed(entries[i].1)),
    ));
}

/// A document's kept numbers are made plain wherever they stand.
pub proof fn law_kept_numbers_are_made_plain(
    b: bool,
    s: Seq<char>,
    n: NumberV,
    items: Seq<JsonV>,
    entries: Seq<(Seq<char>, JsonV)>,
)
    ensures
        plain(JsonV::Null) == JsonV::Null,
        plain(JsonV::Bool(b)) == JsonV::Bool(b),
        plain(JsonV::String(s)) == JsonV::String(s),
        plain(JsonV::Number(n)) == JsonV::Number(n),
        plain(JsonV::Array(items)) == JsonV::Array(
            Seq::new(items.len(), |i: int| plain(items[i])),
        ),
        kept_number(entries) matches Some(number) ==> plain(JsonV::Object(entries)) == number,
        kept_number(entries) is None ==> plain(JsonV::Object(entries)) == JsonV::Object(
            Seq::new(entries.len(), |i: int| (entries[i].0, plain(entries[i].1))),
        ),
{
    assert(plain(JsonV::Array(items))->Array_0 =~= Seq::new(
        items.len(),
        |i: int| plain(items[i]),
    ));
    if kept_number(entries) is None {
        assert(plain(JsonV::Object(entries))->Object_0 =~= Seq::new(
            entries.len(),
            |i: int| (entries[i].0, plain(entries[i].1)),
        ));
    }
}

// ---------------------------------------------------------------------------
// Definitions
// ---------------------------------------------------------------------------

proof fn lemma_put_pair(
    s: Seq<(Seq<char>, Seq<char>)>,
    key: Seq<char>,
    value: Seq<char>,
    i: nat,
    k: nat,
)
    requires
        i <= k <= s.len(),
        k < s.len() ==> s[k as int].0 == key,
        forall|j: int| i <= j < k ==> (#[trigger] s[j]).0 != key,
    ensures
        put_pair_of(s, key, value, i) == (if k < s.len() {
            s.update(k as int, (key, value))
        } else {
            s.push((key, value))
        }),
    decreases s.len() - i,
{
    if i < k {
        assert(s[i as int].0 != key);
        lemma_put_pair(s, key, value, i + 1, k);
    }
}

/// A pair takes the place of the first of its key, and comes last where there is
/// none.
pub proof fn law_pairs_stand_under_their_keys(
    s: Seq<(Seq<char>, Seq<char>)>,
    key: Seq<char>,
    value: Seq<char>,
    k: nat,
)
    requires
        k <= s.len(),
        k < s.len() ==> s[k as int].0 == key,
        forall|j: int| 0 <= j < k ==> (#[trigger] s[j]).0 != key,
    ensures
        put_pair_of(s, key, value, 0) == (if k < s.len() {
            s.update(k as int, (key, value))
        } else {
            s.push((key, value))
        }),
{
    lemma_put_pair(s, key, value, 0, k);
}

/// A table with a uniqueness has what an upsert needs: its input, the names of
/// its constraints and the columns it may write. One without has none of them.
pub proof fn law_unique_tables_can_be_upserted(
    generated: GeneratedSchema,
    names: NameOverrides,
    object: TableObjectType,
    inputs: Seq<InputDefV>,
    enums: Seq<EnumDefV>,
)
    requires
        generated.object_types@ == seq![object],
    ensures
        ({
            let unique = object.table.unique_constraints@.len() > 0;
            &&& with_upsert_inputs(generated, 0, inputs) == (if unique {
                inputs + seq![on_conflict_input(object)]
            } else {
                inputs
            })
            &&& with_upsert_enums(generated, names, 0, enums) == (if unique {
                enums + seq![constraint_enum(object), update_column_enum(object, names)]
            } else {
                enums
            })
        }),
{
    assert(generated.object_types@[0] == object);
    let a = inputs.push(on_conflict_input(object));
    let b = enums.push(constraint_enum(object)).push(update_column_enum(object, names));
    assert(with_upsert_inputs(generated, 1, inputs) == inputs);
    assert(with_upsert_inputs(generated, 1, a) == a);
    assert(with_upsert_enums(generated, names, 1, enums) == enums);
    assert(with_upsert_enums(generated, names, 1, b) == b);
    assert(a =~= inputs + seq![on_conflict_input(object)]);
    assert(b =~= enums + seq![constraint_enum(object), update_column_enum(object, names)]);
}

/// A type that may be asked about has the inputs for it, and where it has columns
/// of truths the names of those for each way to fold them.
pub proof fn law_asked_types_have_questions(
    generated: GeneratedSchema,
    target: Seq<char>,
    inputs: Seq<InputDefV>,
    enums: Seq<EnumDefV>,
)
    ensures
        match named(
            generated.object_types@,
            target_type_from(generated, 0, target, Seq::empty()),
        ) {
            None => {
                &&& with_predicates(generated, seq![target], 0, inputs) == inputs
                &&& with_predicate_enums(generated, seq![target], 0, enums) == enums
            },
            Some(object) => {
                let columns = boolean_columns(object, 0, Seq::empty());
                &&& with_predicates(generated, seq![target], 0, inputs) == inputs
                    + predicate_inputs(target, columns.len() > 0)
                &&& with_predicate_enums(generated, seq![target], 0, enums) == (if columns.len()
                    > 0 {
                    enums + seq![
                        predicate_enum(target, "bool_and"@, columns),
                        predicate_enum(target, "bool_or"@, columns),
                    ]
                } else {
                    enums
                })
            },
        },
{
    let one = seq![target];
    assert(one[0] == target);
    let typename = target_type_from(generated, 0, target, Seq::empty());
    assert(with_predicates(generated, one, 1, inputs) == inputs);
    assert(with_predicate_enums(generated, one, 1, enums) == enums);
    match named(generated.object_types@, typename) {
        None => {},
        Some(object) => {
            let columns = boolean_columns(object, 0, Seq::empty());
            let more = inputs + predicate_inputs(target, columns.len() > 0);
            assert(with_predicates(generated, one, 1, more) == more);
            let both = enums.push(predicate_enum(target, "bool_and"@, columns)).push(
                predicate_enum(target, "bool_or"@, columns),
            );
            assert(with_predicate_enums(generated, one, 1, both) == both);
            assert(both =~= enums + seq![
                predicate_enum(target, "bool_and"@, columns),
                predicate_enum(target, "bool_or"@, columns),
            ]);
        },
    }
}

/// A type is counted where a field that reads many of its rows offers numbers.
pub proof fn law_counted_types_are_read_in_numbers(
    generated: GeneratedSchema,
    typename: Seq<char>,
    i: int,
)
    requires
        0 <= i < generated.query_fields@.len(),
    ensures
        generated.query_fields@[i].typename@ == typename && generated.query_fields@[i].aggregates
            && !generated.query_fields@[i].is_by_pk ==> is_counted(generated, typename),
        (forall|k: int|
            0 <= k < generated.query_fields@.len() ==> (
            #[trigger] generated.query_fields@[k]).typename@ != typename
                || !generated.query_fields@[k].aggregates || generated.query_fields@[k].is_by_pk)
            ==> !is_counted(generated, typename),
{
    if generated.query_fields@[i].typename@ == typename && generated.query_fields@[i].aggregates
        && !generated.query_fields@[i].is_by_pk {
        assert(generated.query_fields@[i].aggregates);
    }
}

} // verus!
