//! What holds of names, numbers, documents and paths.

use crate::catalog::{column_behind, NameOverrides};
use crate::entity::{bounds_of, names_text, normal_id, uuid_text};
use crate::generated::response_type;
use crate::json::{number_text, JsonV, NumberV};
use crate::json_path::{
    bracket_step, key_end, path_steps, place_of_char, step_in, steps_from, walked, PathStepV,
};
use crate::lookup::{keyed_by, paired, Named};
use crate::text::{
    decimal, decimal_int, digit, digit_value, digits_value, ident, integer_of, lowered, replaced,
    stripped_suffix,
};
use crate::value::{
    kept_number, number_of, passed, plain, plain_value, value_json, value_view, Value,
};
use vstd::prelude::*;

verus! {

// ---------------------------------------------------------------------------
// Quoted names
// ---------------------------------------------------------------------------

proof fn lemma_doubled(a: Seq<char>, b: Seq<char>)
    requires
        replaced(a, '"', "\"\""@) == replaced(b, '"', "\"\""@),
    ensures
        a == b,
    decreases a.len() + b.len(),
{
    let two = "\"\""@;
    reveal_strlit("\"\"");
    assert(two.len() == 2 && two[0] == '"' && two[1] == '"');
    let left = replaced(a, '"', two);
    let right = replaced(b, '"', two);
    if a.len() == 0 || b.len() == 0 {
        if a.len() > 0 {
            assert(left.len() > 0);
        }
        if b.len() > 0 {
            assert(right.len() > 0);
        }
        assert(a =~= b);
    } else {
        let la = replaced(a.drop_last(), '"', two);
        let lb = replaced(b.drop_last(), '"', two);
        assert(left.last() == a.last());
        assert(right.last() == b.last());
        if a.last() == '"' {
            assert(left =~= la + two);
            assert(right =~= lb + two);
            assert(la =~= left.take(left.len() - 2));
            assert(lb =~= right.take(right.len() - 2));
        } else {
            assert(la =~= left.drop_last());
            assert(lb =~= right.drop_last());
        }
        lemma_doubled(a.drop_last(), b.drop_last());
        assert(a =~= a.drop_last().push(a.last()));
        assert(b =~= b.drop_last().push(b.last()));
    }
}

/// Two names are quoted alike only where they are the same name, whatever
/// characters they hold.
pub proof fn law_quoted_names_differ(a: Seq<char>, b: Seq<char>)
    ensures
        ident(a) == ident(b) ==> a == b,
{
    if ident(a) == ident(b) {
        reveal_strlit("\"");
        let left = replaced(a, '"', "\"\""@);
        let right = replaced(b, '"', "\"\""@);
        assert("\""@.len() == 1);
        assert(left =~= ident(a).subrange(1, ident(a).len() - 1));
        assert(right =~= ident(b).subrange(1, ident(b).len() - 1));
        lemma_doubled(a, b);
    }
}

/// A response type's name gives back the name it was made from.
pub proof fn law_response_types_name_their_base(base: Seq<char>)
    ensures
        stripped_suffix(response_type(base), "_mutation_response"@) == Some(base),
{
    let name = response_type(base);
    assert(name.subrange(0, base.len() as int) =~= base);
    assert(name.subrange(base.len() as int, name.len() as int) =~= "_mutation_response"@);
    assert(name.take(base.len() as int) =~= base);
    assert(name.skip(base.len() as int) =~= "_mutation_response"@);
}

// ---------------------------------------------------------------------------
// Renamed columns
// ---------------------------------------------------------------------------

/// Whether the fields of renamed columns can be told apart: no two columns
/// share a field, and none is listed twice.
pub open spec fn told_apart(pairs: Seq<(String, String)>) -> bool {
    forall|i: int, j: int|
        0 <= i < j < pairs.len() ==> (#[trigger] pairs[i]).0@ != (#[trigger] pairs[j]).0@
            && pairs[i].1@ != pairs[j].1@
}

proof fn lemma_told_apart(pairs: Seq<(String, String)>, column: Seq<char>)
    requires
        told_apart(pairs),
    ensures
        paired(pairs, column) is Some ==> keyed_by(pairs, paired(pairs, column)->0) == Some(
            column,
        ),
    decreases pairs.len(),
{
    if pairs.len() > 0 {
        let rest = pairs.drop_first();
        assert forall|i: int, j: int| 0 <= i < j < rest.len() implies (#[trigger] rest[i]).0@ != (
        #[trigger] rest[j]).0@ && rest[i].1@ != rest[j].1@ by {
            assert(rest[i] == pairs[i + 1]);
            assert(rest[j] == pairs[j + 1]);
        }
        lemma_told_apart(rest, column);
        assert(pairs[0].called() == pairs[0].0@);
        if pairs[0].0@ != column && paired(rest, column) is Some {
            lemma_pair_there(rest, column);
            let k = choose|k: int|
                0 <= k < rest.len() && (#[trigger] rest[k]).0@ == column && rest[k].1@ == paired(
                    rest,
                    column,
                )->0;
            assert(rest[k] == pairs[k + 1]);
            assert(pairs[0].1@ != pairs[k + 1].1@);
        }
    }
}

proof fn lemma_pair_there(pairs: Seq<(String, String)>, column: Seq<char>)
    requires
        paired(pairs, column) is Some,
    ensures
        exists|k: int|
            0 <= k < pairs.len() && (#[trigger] pairs[k]).0@ == column && pairs[k].1@ == paired(
                pairs,
                column,
            )->0,
    decreases pairs.len(),
{
    if pairs[0].0@ == column {
        assert(pairs[0].called() == column);
    } else {
        let rest = pairs.drop_first();
        lemma_pair_there(rest, column);
        let k = choose|k: int|
            0 <= k < rest.len() && (#[trigger] rest[k]).0@ == column && rest[k].1@ == paired(
                rest,
                column,
            )->0;
        assert(pairs[k + 1] == rest[k]);
    }
}

/// A renamed column is reached by the name it is exposed under.
pub proof fn law_renamed_columns_are_reached(
    names: NameOverrides,
    schema: Seq<char>,
    table: Seq<char>,
    column: Seq<char>,
)
    requires
        names.of(schema, table) is Some,
        told_apart(names.of(schema, table)->0.columns@),
        names.exposed(schema, table, column) is Some,
    ensures
        column_behind(names, schema, table, names.exposed(schema, table, column)->0) == column,
{
    lemma_told_apart(names.of(schema, table)->0.columns@, column);
}

// ---------------------------------------------------------------------------
// Numbers
// ---------------------------------------------------------------------------

proof fn lemma_decimal(n: nat)
    ensures
        decimal(n).len() > 0,
        digits_value(decimal(n)) == Some(n),
        digit_value(decimal(n)[0]) is Some,
    decreases n,
{
    if n < 10 {
        assert(digit_value(digit(n)) == Some(n));
    } else {
        lemma_decimal(n / 10);
        let d = n % 10;
        assert(digit_value(digit(d)) == Some(d));
        let s = decimal(n);
        assert(s.drop_last() =~= decimal(n / 10));
        assert(s[0] == decimal(n / 10)[0]);
    }
}

/// An integer is read back from its decimal text.
pub proof fn law_decimal_text_reads_back(n: int)
    ensures
        integer_of(decimal_int(n)) == Some(n),
{
    if n < 0 {
        let digits = decimal((-n) as nat);
        lemma_decimal((-n) as nat);
        reveal_strlit("-");
        let s = decimal_int(n);
        assert(s[0] == '-');
        assert(s.drop_first() =~= digits);
    } else {
        lemma_decimal(n as nat);
        assert(digit_value('-') is None);
        assert(digit_value('+') is None);
    }
}

/// An integer and its text are one `ID`: whichever a service sends, a key has
/// one form.
pub proof fn law_ids_have_one_form(n: int, pg_type: Seq<char>)
    requires
        i64::MIN <= n <= u64::MAX,
        bounds_of(pg_type) is Some || (names_text(pg_type) && lowered(pg_type) != "uuid"@),
    ensures
        normal_id(JsonV::Number(NumberV::Int(n)), pg_type) == normal_id(
            JsonV::String(decimal_int(n)),
            pg_type,
        ),
{
    law_decimal_text_reads_back(n);
}

/// Putting an `ID` in its one form twice is putting it so once. That the text
/// of a UUID is its own canonical text is what `normalize_graphql_id` has of
/// every one it gives.
pub proof fn law_id_forms_are_settled(value: JsonV, pg_type: Seq<char>)
    requires
        normal_id(value, pg_type) is Some,
        lowered(pg_type) == "uuid"@ && value is String && uuid_text(value->String_0) is Some
            ==> uuid_text(uuid_text(value->String_0)->0) == uuid_text(value->String_0),
    ensures
        normal_id(normal_id(value, pg_type)->0, pg_type) == normal_id(value, pg_type),
{
}

/// A number keeps the text it came as, and is the integer that the text spells
/// where it is one.
pub proof fn law_numbers_keep_their_text(text: Seq<char>)
    ensures
        number_text(number_of(text)) == text,
        number_of(text).spelled() == integer_of(text),
{
}

/// An integer of sixty-four bits is the number of its decimal text.
pub proof fn law_integers_are_numbers(n: int)
    requires
        i64::MIN <= n <= u64::MAX,
    ensures
        number_of(decimal_int(n)) == NumberV::Int(n),
{
    law_decimal_text_reads_back(n);
}

// ---------------------------------------------------------------------------
// Documents and values
// ---------------------------------------------------------------------------

/// Whether every number of a document is an integer of sixty-four signed bits.
pub open spec fn whole(j: JsonV) -> bool
    decreases j,
{
    match j {
        JsonV::Number(NumberV::Int(n)) => i64::MIN <= n <= i64::MAX,
        JsonV::Number(NumberV::Other(_)) => false,
        JsonV::Array(items) => forall|i: int| 0 <= i < items.len() ==> whole(#[trigger] items[i]),
        JsonV::Object(entries) => forall|i: int|
            0 <= i < entries.len() ==> whole((#[trigger] entries[i]).1),
        _ => true,
    }
}

/// A document of whole numbers is handed on as it is.
pub proof fn law_whole_documents_pass(j: JsonV)
    requires
        whole(j),
    ensures
        passed(j) == j,
    decreases j,
{
    match j {
        JsonV::Array(items) => {
            assert forall|i: int| 0 <= i < items.len() implies passed(j)->Array_0[i] == items[i] by {
                law_whole_documents_pass(items[i]);
            }
            assert(passed(j)->Array_0 =~= items);
        },
        JsonV::Object(entries) => {
            assert forall|i: int| 0 <= i < entries.len() implies passed(j)->Object_0[i]
                == entries[i] by {
                law_whole_documents_pass(entries[i].1);
            }
            assert(passed(j)->Object_0 =~= entries);
        },
        _ => {},
    }
}

/// A value that came from a document of whole numbers gives the document back.
pub proof fn law_values_give_documents_back(v: Value)
    requires
        plain_value(v),
        whole(value_view(v)),
    ensures
        value_json(v) == value_view(v),
    decreases v,
{
    match v {
        Value::List(items) => {
            let seen = value_view(v)->Array_0;
            assert forall|i: int| 0 <= i < items@.len() implies value_json(v)->Array_0[i]
                == seen[i] by {
                assert(whole(seen[i]));
                assert(plain_value(items@[i]));
                law_values_give_documents_back(items@[i]);
            }
            assert(value_json(v)->Array_0 =~= seen);
        },
        Value::Object(entries) => {
            let seen = value_view(v)->Object_0;
            assert forall|i: int| 0 <= i < entries@.len() implies value_json(v)->Object_0[i]
                == seen[i] by {
                assert(whole(seen[i].1));
                assert(plain_value(entries@[i].1));
                law_values_give_documents_back(entries@[i].1);
            }
            assert(value_json(v)->Object_0 =~= seen);
        },
        _ => {},
    }
}

/// A document whose kept numbers have been made numbers keeps none.
pub proof fn law_plain_numbers_are_settled(j: JsonV)
    ensures
        plain(plain(j)) == plain(j),
    decreases j,
{
    match j {
        JsonV::Array(items) => {
            let once = plain(j)->Array_0;
            assert forall|i: int| 0 <= i < items.len() implies plain(plain(j))->Array_0[i]
                == once[i] by {
                law_plain_numbers_are_settled(items[i]);
            }
            assert(plain(plain(j))->Array_0 =~= once);
        },
        JsonV::Object(entries) => {
            if kept_number(entries) is None {
                let once = plain(j)->Object_0;
                assert forall|i: int| 0 <= i < entries.len() implies plain(once[i].1)
                    == once[i].1 by {
                    law_plain_numbers_are_settled(entries[i].1);
                }
                if entries.len() == 1 {
                    assert(once[0].0 == entries[0].0);
                    assert(once[0].1 == plain(entries[0].1));
                }
                assert(kept_number(once) is None);
                assert(plain(plain(j))->Object_0 =~= once);
            }
        },
        _ => {},
    }
}

// ---------------------------------------------------------------------------
// Paths
// ---------------------------------------------------------------------------

/// A dot carries no step of its own, wherever it stands between steps: before
/// a bracket, before a key, or at the end.
pub proof fn law_a_dot_carries_no_step(s: Seq<char>, i: nat, found: Seq<PathStepV>)
    requires
        i < s.len(),
        s[i as int] == '.',
    ensures
        steps_from(s, i, found) == steps_from(s, i + 1, found),
{
}

proof fn lemma_place_shift(front: Seq<char>, s: Seq<char>, c: char, i: nat)
    requires
        i <= s.len(),
    ensures
        place_of_char(front + s, c, front.len() + i) == front.len() + place_of_char(s, c, i),
        i <= place_of_char(s, c, i) <= s.len(),
    decreases s.len() - i,
{
    if i < s.len() {
        assert((front + s)[(front.len() + i) as int] == s[i as int]);
        if s[i as int] != c {
            lemma_place_shift(front, s, c, i + 1);
        }
    }
}

proof fn lemma_end_shift(front: Seq<char>, s: Seq<char>, i: nat)
    requires
        i <= s.len(),
    ensures
        key_end(front + s, front.len() + i) == front.len() + key_end(s, i),
        i <= key_end(s, i) <= s.len(),
    decreases s.len() - i,
{
    if i < s.len() {
        assert((front + s)[(front.len() + i) as int] == s[i as int]);
        if s[i as int] != '.' && s[i as int] != '[' {
            lemma_end_shift(front, s, i + 1);
        }
    }
}

proof fn lemma_bracket_shift(front: Seq<char>, s: Seq<char>, i: nat)
    requires
        i <= s.len(),
    ensures
        bracket_step(front + s, front.len() + i) == (match bracket_step(s, i) {
            Some((step, next)) => Some((step, front.len() + next)),
            None => None,
        }),
        bracket_step(s, i) is Some ==> i < (bracket_step(s, i)->0).1 <= s.len(),
{
    let all = front + s;
    let n = front.len();
    if i < s.len() {
        assert(all[(n + i) as int] == s[i as int]);
    }
    if i < s.len() && (s[i as int] == '\'' || s[i as int] == '"') {
        let quote = s[i as int];
        lemma_place_shift(front, s, quote, i + 1);
        let k = place_of_char(s, quote, i + 1);
        assert(n + i + 1 == n + (i + 1));
        if k + 1 < s.len() {
            assert(all[(n + k + 1) as int] == s[(k + 1) as int]);
            assert(all.subrange((n + i + 1) as int, (n + k) as int) =~= s.subrange(
                (i + 1) as int,
                k as int,
            ));
        }
    } else {
        lemma_place_shift(front, s, ']', i);
        let k = place_of_char(s, ']', i);
        assert(all.subrange((n + i) as int, (n + k) as int) =~= s.subrange(i as int, k as int));
    }
}

proof fn lemma_steps_shift(front: Seq<char>, s: Seq<char>, i: nat, found: Seq<PathStepV>)
    requires
        i <= s.len(),
    ensures
        steps_from(front + s, front.len() + i, found) == steps_from(s, i, found),
    decreases s.len() - i,
{
    let all = front + s;
    let n = front.len();
    if i < s.len() {
        assert(all[(n + i) as int] == s[i as int]);
        if s[i as int] == '.' {
            assert(n + i + 1 == n + (i + 1));
            lemma_steps_shift(front, s, i + 1, found);
        } else if s[i as int] == '[' {
            assert(n + i + 1 == n + (i + 1));
            lemma_bracket_shift(front, s, i + 1);
            match bracket_step(s, i + 1) {
                None => {},
                Some((step, next)) => {
                    lemma_steps_shift(front, s, next, found.push(step));
                },
            }
        } else {
            lemma_end_shift(front, s, i);
            let k = key_end(s, i);
            lemma_end_shift(front, s, i + 1);
            assert(k == key_end(s, i + 1));
            assert(all.subrange((n + i) as int, (n + k) as int) =~= s.subrange(
                i as int,
                k as int,
            ));
            lemma_steps_shift(
                front,
                s,
                k,
                found.push(PathStepV::Key(s.subrange(i as int, k as int))),
            );
        }
    }
}

/// A path may begin by naming the document itself, and is the same path.
pub proof fn law_the_document_itself_has_no_steps(path: Seq<char>)
    requires
        path.len() == 0 || path[0] != '$',
    ensures
        path_steps(seq!['$'] + path) == path_steps(path),
{
    lemma_steps_shift(seq!['$'], path, 0, Seq::empty());
}

proof fn lemma_key_end_of(key: Seq<char>, rest: Seq<char>, i: nat)
    requires
        i <= key.len(),
        forall|j: int| 0 <= j < key.len() ==> #[trigger] key[j] != '.' && key[j] != '[',
        rest.len() == 0 || rest[0] == '.' || rest[0] == '[',
    ensures
        key_end(key + rest, i) == key.len(),
    decreases key.len() - i,
{
    let all = key + rest;
    if i < key.len() {
        assert(all[i as int] == key[i as int]);
        lemma_key_end_of(key, rest, i + 1);
    } else if rest.len() > 0 {
        assert(all[i as int] == rest[0]);
    }
}

/// A bare key is one step, and what follows it is read as though it stood
/// alone.
pub proof fn law_a_bare_key_is_one_step(key: Seq<char>, rest: Seq<char>)
    requires
        key.len() > 0,
        key[0] != '$',
        forall|j: int| 0 <= j < key.len() ==> #[trigger] key[j] != '.' && key[j] != '[',
        rest.len() == 0 || rest[0] == '.' || rest[0] == '[',
    ensures
        path_steps(key + rest) == steps_from(rest, 0, seq![PathStepV::Key(key)]),
{
    let all = key + rest;
    assert(all[0] == key[0]);
    lemma_key_end_of(key, rest, 0);
    assert(all.subrange(0, key.len() as int) =~= key);
    assert(Seq::<PathStepV>::empty().push(PathStepV::Key(key)) =~= seq![PathStepV::Key(key)]);
    lemma_steps_shift(key, rest, 0, seq![PathStepV::Key(key)]);
}

/// A dot before a bracket changes nothing.
pub proof fn law_a_dot_before_a_bracket_changes_nothing(key: Seq<char>, rest: Seq<char>)
    requires
        key.len() > 0,
        key[0] != '$',
        forall|j: int| 0 <= j < key.len() ==> #[trigger] key[j] != '.' && key[j] != '[',
        rest.len() > 0,
        rest[0] == '[',
    ensures
        path_steps(key + (seq!['.'] + rest)) == path_steps(key + rest),
{
    let dotted = seq!['.'] + rest;
    law_a_bare_key_is_one_step(key, rest);
    law_a_bare_key_is_one_step(key, dotted);
    assert(dotted[0] == '.');
    lemma_steps_shift(seq!['.'], rest, 0, seq![PathStepV::Key(key)]);
}

/// A step that the document does not have reads null, however many follow.
pub proof fn law_a_missing_step_reads_null(value: JsonV, steps: Seq<PathStepV>, i: nat)
    requires
        i < steps.len(),
        step_in(value, steps[i as int]) is None,
    ensures
        walked(value, steps, i) == JsonV::Null,
{
}

} // verus!
