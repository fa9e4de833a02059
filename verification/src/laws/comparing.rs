//! What the words of a filter mean: the SQL each comparison is.

use crate::binds::BindsV;
use crate::comparison::{
    array_of, comparison, comparisons_from, item_placeholders, members_from, Vocabulary,
};
use crate::condition::{column_operator, operators_from, CursorV};
use crate::error::ErrorV;
use crate::json::JsonV;
use crate::lookup::{named, paired};
use crate::scope::ScopeV;
use crate::text::{decimal, has_suffix, joined};
use vstd::prelude::*;

verus! {

// ---------------------------------------------------------------------------
// The words
// ---------------------------------------------------------------------------

/// The words that compare a column with one value, and the operator that each
/// is.
pub open spec fn value_words() -> Seq<(Seq<char>, Seq<char>)> {
    seq![
        ("_eq"@, "="@),
        ("_neq"@, "<>"@),
        ("_gt"@, ">"@),
        ("_gte"@, ">="@),
        ("_lt"@, "<"@),
        ("_lte"@, "<="@),
        ("_like"@, "LIKE"@),
        ("_nlike"@, "NOT LIKE"@),
        ("_ilike"@, "ILIKE"@),
        ("_nilike"@, "NOT ILIKE"@),
        ("_similar"@, "SIMILAR TO"@),
        ("_nsimilar"@, "NOT SIMILAR TO"@),
        ("_regex"@, "~"@),
        ("_nregex"@, "!~"@),
        ("_iregex"@, "~*"@),
        ("_niregex"@, "!~*"@),
    ]
}

/// The words that compare one column with another, and the operator that each
/// is.
pub open spec fn column_words() -> Seq<(Seq<char>, Seq<char>)> {
    seq![
        ("_ceq"@, "="@),
        ("_cne"@, "<>"@),
        ("_cgt"@, ">"@),
        ("_cgte"@, ">="@),
        ("_clt"@, "<"@),
        ("_clte"@, "<="@),
    ]
}

/// Whether a word is left to the library: neither a spatial comparison nor one
/// of label trees is called so.
pub open spec fn is_own_word(words: Vocabulary, word: Seq<char>) -> bool {
    paired(words.spatial@, word) is None && named(words.trees@, word) is None
}

/// Where the numbering goes on after one value more was bound.
pub open spec fn after_one(at: BindsV, value: JsonV) -> BindsV {
    BindsV { next: (at.next + 1) as usize, values: at.values.push(value) }
}

/// The type a bound value is taken as: a text and a null say nothing of their
/// own, so they are taken as the column's.
pub open spec fn taken_as(value: JsonV, column_type: Option<Seq<char>>) -> Seq<char> {
    if column_type is Some && (value is Null || value is String) {
        "::"@ + column_type->0
    } else {
        Seq::empty()
    }
}

proof fn lemma_words()
    ensures
        "_eq"@.len() == 3,
        "_eq"@[0] == '_',
        "_eq"@[1] == 'e',
        "_eq"@[2] == 'q',
        "_neq"@.len() == 4,
        "_neq"@[0] == '_',
        "_neq"@[1] == 'n',
        "_neq"@[2] == 'e',
        "_neq"@[3] == 'q',
        "_gt"@.len() == 3,
        "_gt"@[0] == '_',
        "_gt"@[1] == 'g',
        "_gt"@[2] == 't',
        "_gte"@.len() == 4,
        "_gte"@[0] == '_',
        "_gte"@[1] == 'g',
        "_gte"@[2] == 't',
        "_gte"@[3] == 'e',
        "_lt"@.len() == 3,
        "_lt"@[0] == '_',
        "_lt"@[1] == 'l',
        "_lt"@[2] == 't',
        "_lte"@.len() == 4,
        "_lte"@[0] == '_',
        "_lte"@[1] == 'l',
        "_lte"@[2] == 't',
        "_lte"@[3] == 'e',
        "_like"@.len() == 5,
        "_like"@[0] == '_',
        "_like"@[1] == 'l',
        "_like"@[2] == 'i',
        "_like"@[3] == 'k',
        "_like"@[4] == 'e',
        "_nlike"@.len() == 6,
        "_nlike"@[0] == '_',
        "_nlike"@[1] == 'n',
        "_nlike"@[2] == 'l',
        "_nlike"@[3] == 'i',
        "_nlike"@[4] == 'k',
        "_nlike"@[5] == 'e',
        "_ilike"@.len() == 6,
        "_ilike"@[0] == '_',
        "_ilike"@[1] == 'i',
        "_ilike"@[2] == 'l',
        "_ilike"@[3] == 'i',
        "_ilike"@[4] == 'k',
        "_ilike"@[5] == 'e',
        "_nilike"@.len() == 7,
        "_nilike"@[0] == '_',
        "_nilike"@[1] == 'n',
        "_nilike"@[2] == 'i',
        "_nilike"@[3] == 'l',
        "_nilike"@[4] == 'i',
        "_nilike"@[5] == 'k',
        "_nilike"@[6] == 'e',
        "_similar"@.len() == 8,
        "_similar"@[0] == '_',
        "_similar"@[1] == 's',
        "_similar"@[2] == 'i',
        "_similar"@[3] == 'm',
        "_similar"@[4] == 'i',
        "_similar"@[5] == 'l',
        "_similar"@[6] == 'a',
        "_similar"@[7] == 'r',
        "_nsimilar"@.len() == 9,
        "_nsimilar"@[0] == '_',
        "_nsimilar"@[1] == 'n',
        "_nsimilar"@[2] == 's',
        "_nsimilar"@[3] == 'i',
        "_nsimilar"@[4] == 'm',
        "_nsimilar"@[5] == 'i',
        "_nsimilar"@[6] == 'l',
        "_nsimilar"@[7] == 'a',
        "_nsimilar"@[8] == 'r',
        "_regex"@.len() == 6,
        "_regex"@[0] == '_',
        "_regex"@[1] == 'r',
        "_regex"@[2] == 'e',
        "_regex"@[3] == 'g',
        "_regex"@[4] == 'e',
        "_regex"@[5] == 'x',
        "_nregex"@.len() == 7,
        "_nregex"@[0] == '_',
        "_nregex"@[1] == 'n',
        "_nregex"@[2] == 'r',
        "_nregex"@[3] == 'e',
        "_nregex"@[4] == 'g',
        "_nregex"@[5] == 'e',
        "_nregex"@[6] == 'x',
        "_iregex"@.len() == 7,
        "_iregex"@[0] == '_',
        "_iregex"@[1] == 'i',
        "_iregex"@[2] == 'r',
        "_iregex"@[3] == 'e',
        "_iregex"@[4] == 'g',
        "_iregex"@[5] == 'e',
        "_iregex"@[6] == 'x',
        "_niregex"@.len() == 8,
        "_niregex"@[0] == '_',
        "_niregex"@[1] == 'n',
        "_niregex"@[2] == 'i',
        "_niregex"@[3] == 'r',
        "_niregex"@[4] == 'e',
        "_niregex"@[5] == 'g',
        "_niregex"@[6] == 'e',
        "_niregex"@[7] == 'x',
        "_contains"@.len() == 9,
        "_contains"@[0] == '_',
        "_contains"@[1] == 'c',
        "_contains"@[2] == 'o',
        "_contains"@[3] == 'n',
        "_contains"@[4] == 't',
        "_contains"@[5] == 'a',
        "_contains"@[6] == 'i',
        "_contains"@[7] == 'n',
        "_contains"@[8] == 's',
        "_contained_in"@.len() == 13,
        "_contained_in"@[0] == '_',
        "_contained_in"@[1] == 'c',
        "_contained_in"@[2] == 'o',
        "_contained_in"@[3] == 'n',
        "_contained_in"@[4] == 't',
        "_contained_in"@[5] == 'a',
        "_contained_in"@[6] == 'i',
        "_contained_in"@[7] == 'n',
        "_contained_in"@[8] == 'e',
        "_contained_in"@[9] == 'd',
        "_contained_in"@[10] == '_',
        "_contained_in"@[11] == 'i',
        "_contained_in"@[12] == 'n',
        "_has_key"@.len() == 8,
        "_has_key"@[0] == '_',
        "_has_key"@[1] == 'h',
        "_has_key"@[2] == 'a',
        "_has_key"@[3] == 's',
        "_has_key"@[4] == '_',
        "_has_key"@[5] == 'k',
        "_has_key"@[6] == 'e',
        "_has_key"@[7] == 'y',
        "_ceq"@.len() == 4,
        "_ceq"@[0] == '_',
        "_ceq"@[1] == 'c',
        "_ceq"@[2] == 'e',
        "_ceq"@[3] == 'q',
        "_cne"@.len() == 4,
        "_cne"@[0] == '_',
        "_cne"@[1] == 'c',
        "_cne"@[2] == 'n',
        "_cne"@[3] == 'e',
        "_cgt"@.len() == 4,
        "_cgt"@[0] == '_',
        "_cgt"@[1] == 'c',
        "_cgt"@[2] == 'g',
        "_cgt"@[3] == 't',
        "_cgte"@.len() == 5,
        "_cgte"@[0] == '_',
        "_cgte"@[1] == 'c',
        "_cgte"@[2] == 'g',
        "_cgte"@[3] == 't',
        "_cgte"@[4] == 'e',
        "_clt"@.len() == 4,
        "_clt"@[0] == '_',
        "_clt"@[1] == 'c',
        "_clt"@[2] == 'l',
        "_clt"@[3] == 't',
        "_clte"@.len() == 5,
        "_clte"@[0] == '_',
        "_clte"@[1] == 'c',
        "_clte"@[2] == 'l',
        "_clte"@[3] == 't',
        "_clte"@[4] == 'e',
        "_jsonb_path_exists"@.len() == 18,
        "_jsonb_path_exists"@[0] == '_',
        "_jsonb_path_exists"@[1] == 'j',
        "_jsonb_path_exists"@[2] == 's',
        "_jsonb_path_exists"@[3] == 'o',
        "_jsonb_path_exists"@[4] == 'n',
        "_jsonb_path_exists"@[5] == 'b',
        "_jsonb_path_exists"@[6] == '_',
        "_jsonb_path_exists"@[7] == 'p',
        "_jsonb_path_exists"@[8] == 'a',
        "_jsonb_path_exists"@[9] == 't',
        "_jsonb_path_exists"@[10] == 'h',
        "_jsonb_path_exists"@[11] == '_',
        "_jsonb_path_exists"@[12] == 'e',
        "_jsonb_path_exists"@[13] == 'x',
        "_jsonb_path_exists"@[14] == 'i',
        "_jsonb_path_exists"@[15] == 's',
        "_jsonb_path_exists"@[16] == 't',
        "_jsonb_path_exists"@[17] == 's',
        "_jsonb_path_match"@.len() == 17,
        "_jsonb_path_match"@[0] == '_',
        "_jsonb_path_match"@[1] == 'j',
        "_jsonb_path_match"@[2] == 's',
        "_jsonb_path_match"@[3] == 'o',
        "_jsonb_path_match"@[4] == 'n',
        "_jsonb_path_match"@[5] == 'b',
        "_jsonb_path_match"@[6] == '_',
        "_jsonb_path_match"@[7] == 'p',
        "_jsonb_path_match"@[8] == 'a',
        "_jsonb_path_match"@[9] == 't',
        "_jsonb_path_match"@[10] == 'h',
        "_jsonb_path_match"@[11] == '_',
        "_jsonb_path_match"@[12] == 'm',
        "_jsonb_path_match"@[13] == 'a',
        "_jsonb_path_match"@[14] == 't',
        "_jsonb_path_match"@[15] == 'c',
        "_jsonb_path_match"@[16] == 'h',
        "_is_null"@.len() == 8,
        "_is_null"@[0] == '_',
        "_is_null"@[1] == 'i',
        "_is_null"@[2] == 's',
        "_is_null"@[3] == '_',
        "_is_null"@[4] == 'n',
        "_is_null"@[5] == 'u',
        "_is_null"@[6] == 'l',
        "_is_null"@[7] == 'l',
        "_in"@.len() == 3,
        "_in"@[0] == '_',
        "_in"@[1] == 'i',
        "_in"@[2] == 'n',
        "_nin"@.len() == 4,
        "_nin"@[0] == '_',
        "_nin"@[1] == 'n',
        "_nin"@[2] == 'i',
        "_nin"@[3] == 'n',
        "_has_keys_any"@.len() == 13,
        "_has_keys_any"@[0] == '_',
        "_has_keys_any"@[1] == 'h',
        "_has_keys_any"@[2] == 'a',
        "_has_keys_any"@[3] == 's',
        "_has_keys_any"@[4] == '_',
        "_has_keys_any"@[5] == 'k',
        "_has_keys_any"@[6] == 'e',
        "_has_keys_any"@[7] == 'y',
        "_has_keys_any"@[8] == 's',
        "_has_keys_any"@[9] == '_',
        "_has_keys_any"@[10] == 'a',
        "_has_keys_any"@[11] == 'n',
        "_has_keys_any"@[12] == 'y',
        "_has_keys_all"@.len() == 13,
        "_has_keys_all"@[0] == '_',
        "_has_keys_all"@[1] == 'h',
        "_has_keys_all"@[2] == 'a',
        "_has_keys_all"@[3] == 's',
        "_has_keys_all"@[4] == '_',
        "_has_keys_all"@[5] == 'k',
        "_has_keys_all"@[6] == 'e',
        "_has_keys_all"@[7] == 'y',
        "_has_keys_all"@[8] == 's',
        "_has_keys_all"@[9] == '_',
        "_has_keys_all"@[10] == 'a',
        "_has_keys_all"@[11] == 'l',
        "_has_keys_all"@[12] == 'l',
        "_cast"@.len() == 5,
        "_cast"@[0] == '_',
        "_cast"@[1] == 'c',
        "_cast"@[2] == 'a',
        "_cast"@[3] == 's',
        "_cast"@[4] == 't',
{
    reveal_strlit("_eq");
    reveal_strlit("_neq");
    reveal_strlit("_gt");
    reveal_strlit("_gte");
    reveal_strlit("_lt");
    reveal_strlit("_lte");
    reveal_strlit("_like");
    reveal_strlit("_nlike");
    reveal_strlit("_ilike");
    reveal_strlit("_nilike");
    reveal_strlit("_similar");
    reveal_strlit("_nsimilar");
    reveal_strlit("_regex");
    reveal_strlit("_nregex");
    reveal_strlit("_iregex");
    reveal_strlit("_niregex");
    reveal_strlit("_contains");
    reveal_strlit("_contained_in");
    reveal_strlit("_has_key");
    reveal_strlit("_ceq");
    reveal_strlit("_cne");
    reveal_strlit("_cgt");
    reveal_strlit("_cgte");
    reveal_strlit("_clt");
    reveal_strlit("_clte");
    reveal_strlit("_jsonb_path_exists");
    reveal_strlit("_jsonb_path_match");
    reveal_strlit("_is_null");
    reveal_strlit("_in");
    reveal_strlit("_nin");
    reveal_strlit("_has_keys_any");
    reveal_strlit("_has_keys_all");
    reveal_strlit("_cast");
}

proof fn lemma_operators()
    ensures
        "="@.len() == 1,
        "="@[0] == '=',
        "<>"@.len() == 2,
        "<>"@[0] == '<',
        "<>"@[1] == '>',
        ">"@.len() == 1,
        ">"@[0] == '>',
        ">="@.len() == 2,
        ">="@[0] == '>',
        ">="@[1] == '=',
        "<"@.len() == 1,
        "<"@[0] == '<',
        "<="@.len() == 2,
        "<="@[0] == '<',
        "<="@[1] == '=',
        "LIKE"@.len() == 4,
        "LIKE"@[0] == 'L',
        "LIKE"@[1] == 'I',
        "LIKE"@[2] == 'K',
        "LIKE"@[3] == 'E',
        "NOT LIKE"@.len() == 8,
        "NOT LIKE"@[0] == 'N',
        "NOT LIKE"@[1] == 'O',
        "NOT LIKE"@[2] == 'T',
        "NOT LIKE"@[3] == ' ',
        "NOT LIKE"@[4] == 'L',
        "NOT LIKE"@[5] == 'I',
        "NOT LIKE"@[6] == 'K',
        "NOT LIKE"@[7] == 'E',
        "ILIKE"@.len() == 5,
        "ILIKE"@[0] == 'I',
        "ILIKE"@[1] == 'L',
        "ILIKE"@[2] == 'I',
        "ILIKE"@[3] == 'K',
        "ILIKE"@[4] == 'E',
        "NOT ILIKE"@.len() == 9,
        "NOT ILIKE"@[0] == 'N',
        "NOT ILIKE"@[1] == 'O',
        "NOT ILIKE"@[2] == 'T',
        "NOT ILIKE"@[3] == ' ',
        "NOT ILIKE"@[4] == 'I',
        "NOT ILIKE"@[5] == 'L',
        "NOT ILIKE"@[6] == 'I',
        "NOT ILIKE"@[7] == 'K',
        "NOT ILIKE"@[8] == 'E',
        "SIMILAR TO"@.len() == 10,
        "SIMILAR TO"@[0] == 'S',
        "SIMILAR TO"@[1] == 'I',
        "SIMILAR TO"@[2] == 'M',
        "SIMILAR TO"@[3] == 'I',
        "SIMILAR TO"@[4] == 'L',
        "SIMILAR TO"@[5] == 'A',
        "SIMILAR TO"@[6] == 'R',
        "SIMILAR TO"@[7] == ' ',
        "SIMILAR TO"@[8] == 'T',
        "SIMILAR TO"@[9] == 'O',
        "NOT SIMILAR TO"@.len() == 14,
        "NOT SIMILAR TO"@[0] == 'N',
        "NOT SIMILAR TO"@[1] == 'O',
        "NOT SIMILAR TO"@[2] == 'T',
        "NOT SIMILAR TO"@[3] == ' ',
        "NOT SIMILAR TO"@[4] == 'S',
        "NOT SIMILAR TO"@[5] == 'I',
        "NOT SIMILAR TO"@[6] == 'M',
        "NOT SIMILAR TO"@[7] == 'I',
        "NOT SIMILAR TO"@[8] == 'L',
        "NOT SIMILAR TO"@[9] == 'A',
        "NOT SIMILAR TO"@[10] == 'R',
        "NOT SIMILAR TO"@[11] == ' ',
        "NOT SIMILAR TO"@[12] == 'T',
        "NOT SIMILAR TO"@[13] == 'O',
        "~"@.len() == 1,
        "~"@[0] == '~',
        "!~"@.len() == 2,
        "!~"@[0] == '!',
        "!~"@[1] == '~',
        "~*"@.len() == 2,
        "~*"@[0] == '~',
        "~*"@[1] == '*',
        "!~*"@.len() == 3,
        "!~*"@[0] == '!',
        "!~*"@[1] == '~',
        "!~*"@[2] == '*',
{
    reveal_strlit("!~");
    reveal_strlit("!~*");
    reveal_strlit("<");
    reveal_strlit("<=");
    reveal_strlit("<>");
    reveal_strlit("=");
    reveal_strlit(">");
    reveal_strlit(">=");
    reveal_strlit("ILIKE");
    reveal_strlit("LIKE");
    reveal_strlit("NOT ILIKE");
    reveal_strlit("NOT LIKE");
    reveal_strlit("NOT SIMILAR TO");
    reveal_strlit("SIMILAR TO");
    reveal_strlit("~");
    reveal_strlit("~*");
}

/// No two words that compare a column with a value are the same operator, nor
/// are two that compare it with a column.
pub proof fn law_each_word_has_its_own_operator(i: int, j: int)
    ensures
        0 <= i < j < value_words().len() ==> value_words()[i].1 != value_words()[j].1,
        0 <= i < j < column_words().len() ==> column_words()[i].1 != column_words()[j].1,
        0 <= i < j < value_words().len() ==> value_words()[i].0 != value_words()[j].0,
        0 <= i < j < column_words().len() ==> column_words()[i].0 != column_words()[j].0,
{
    lemma_words();
    lemma_operators();
}

/// A column compared with a value is the column, the operator of the word, and
/// a placeholder for the value, which is bound as it was given.
pub proof fn law_each_word_is_its_operator(
    words: Vocabulary,
    quoted: Seq<char>,
    column: Seq<char>,
    column_type: Option<Seq<char>>,
    k: int,
    value: JsonV,
    at: BindsV,
)
    requires
        0 <= k < value_words().len(),
        is_own_word(words, value_words()[k].0),
        at.next < usize::MAX,
    ensures
        comparison(words, quoted, column, column_type, value_words()[k].0, value, at) == Ok::<
            (Seq<char>, BindsV),
            (ErrorV, BindsV),
        >(
            (
                quoted + " "@ + value_words()[k].1 + " "@ + "$"@ + decimal(at.next as nat)
                    + taken_as(value, column_type),
                after_one(at, value),
            ),
        ),
{
    lemma_words();
    reveal_strlit("");
    let text = quoted + " "@ + value_words()[k].1 + " "@ + "$"@ + decimal(at.next as nat)
        + taken_as(value, column_type);
    let r = comparison(words, quoted, column, column_type, value_words()[k].0, value, at);
    assert(""@ =~= Seq::<char>::empty());
    assert(r is Ok && (r->Ok_0).1 == after_one(at, value));
    assert((r->Ok_0).0 =~= text);
}

/// Whether a value stands for itself in a document: it is a text, a number or a
/// truth, and is bound as the text it has there.
pub open spec fn in_a_document(value: JsonV) -> JsonV {
    if value is String || value is Number || value is Bool {
        JsonV::String(crate::json::json_text(value))
    } else {
        value
    }
}

/// A document compared with another holds it, or is held by it; and one
/// compared with a key has that key.
pub proof fn law_documents_are_compared(
    words: Vocabulary,
    quoted: Seq<char>,
    column: Seq<char>,
    column_type: Option<Seq<char>>,
    value: JsonV,
    at: BindsV,
)
    requires
        is_own_word(words, "_contains"@),
        is_own_word(words, "_contained_in"@),
        is_own_word(words, "_has_key"@),
        at.next < usize::MAX,
    ensures
        comparison(words, quoted, column, column_type, "_contains"@, value, at) == Ok::<
            (Seq<char>, BindsV),
            (ErrorV, BindsV),
        >(
            (
                quoted + " "@ + "@>"@ + " "@ + "$"@ + decimal(at.next as nat) + "::jsonb"@,
                after_one(at, in_a_document(value)),
            ),
        ),
        comparison(words, quoted, column, column_type, "_contained_in"@, value, at) == Ok::<
            (Seq<char>, BindsV),
            (ErrorV, BindsV),
        >(
            (
                quoted + " "@ + "<@"@ + " "@ + "$"@ + decimal(at.next as nat) + "::jsonb"@,
                after_one(at, in_a_document(value)),
            ),
        ),
        comparison(words, quoted, column, column_type, "_has_key"@, value, at) == Ok::<
            (Seq<char>, BindsV),
            (ErrorV, BindsV),
        >(
            (
                quoted + " "@ + "?"@ + " "@ + "$"@ + decimal(at.next as nat) + "::text"@,
                after_one(at, value),
            ),
        ),
{
    lemma_words();
    let dollar = "$"@ + decimal(at.next as nat);
    assert(quoted + " "@ + "@>"@ + " "@ + dollar + "::jsonb"@ =~= quoted + " "@ + "@>"@ + " "@
        + "$"@ + decimal(at.next as nat) + "::jsonb"@);
    assert(quoted + " "@ + "<@"@ + " "@ + dollar + "::jsonb"@ =~= quoted + " "@ + "<@"@ + " "@
        + "$"@ + decimal(at.next as nat) + "::jsonb"@);
    assert(quoted + " "@ + "?"@ + " "@ + dollar + "::text"@ =~= quoted + " "@ + "?"@ + " "@ + "$"@
        + decimal(at.next as nat) + "::text"@);
}

/// A document that is asked by a path is asked of the function that is called
/// as the word is.
pub proof fn law_documents_are_asked_by_path(
    words: Vocabulary,
    quoted: Seq<char>,
    column: Seq<char>,
    column_type: Option<Seq<char>>,
    value: JsonV,
    at: BindsV,
)
    requires
        is_own_word(words, "_jsonb_path_exists"@),
        is_own_word(words, "_jsonb_path_match"@),
        at.next < usize::MAX,
    ensures
        comparison(words, quoted, column, column_type, "_jsonb_path_exists"@, value, at) == Ok::<
            (Seq<char>, BindsV),
            (ErrorV, BindsV),
        >(
            (
                "jsonb_path_exists"@ + "("@ + quoted + ", "@ + "$"@ + decimal(at.next as nat)
                    + "::jsonpath)"@,
                after_one(at, value),
            ),
        ),
        comparison(words, quoted, column, column_type, "_jsonb_path_match"@, value, at) == Ok::<
            (Seq<char>, BindsV),
            (ErrorV, BindsV),
        >(
            (
                "jsonb_path_match"@ + "("@ + quoted + ", "@ + "$"@ + decimal(at.next as nat)
                    + "::jsonpath)"@,
                after_one(at, value),
            ),
        ),
{
    lemma_words();
    let dollar = "$"@ + decimal(at.next as nat);
    assert("jsonb_path_exists"@ + "("@ + quoted + ", "@ + dollar + "::jsonpath)"@
        =~= "jsonb_path_exists"@ + "("@ + quoted + ", "@ + "$"@ + decimal(at.next as nat)
        + "::jsonpath)"@);
    assert("jsonb_path_match"@ + "("@ + quoted + ", "@ + dollar + "::jsonpath)"@
        =~= "jsonb_path_match"@ + "("@ + quoted + ", "@ + "$"@ + decimal(at.next as nat)
        + "::jsonpath)"@);
}

/// A column is null, or it is not: nothing is bound.
pub proof fn law_null_is_asked_for(
    words: Vocabulary,
    quoted: Seq<char>,
    column: Seq<char>,
    column_type: Option<Seq<char>>,
    value: JsonV,
    at: BindsV,
)
    requires
        is_own_word(words, "_is_null"@),
    ensures
        comparison(words, quoted, column, column_type, "_is_null"@, value, at) == Ok::<
            (Seq<char>, BindsV),
            (ErrorV, BindsV),
        >(
            (
                quoted + (if value == JsonV::Bool(true) {
                    " IS NULL"@
                } else {
                    " IS NOT NULL"@
                }),
                at,
            ),
        ),
{
    lemma_words();
}

// ---------------------------------------------------------------------------
// Lists
// ---------------------------------------------------------------------------

/// The placeholder of the `i`th value that is bound from here on, and the type
/// it is taken as.
pub open spec fn nth_member(
    items: Seq<JsonV>,
    column_type: Option<Seq<char>>,
    first: nat,
    i: int,
) -> Seq<char> {
    "$"@ + decimal((first + i) as nat) + taken_as(items[i], column_type)
}

/// Where the numbering goes on after a list was bound.
pub open spec fn after_list(at: BindsV, items: Seq<JsonV>) -> BindsV {
    BindsV { next: (at.next + items.len()) as usize, values: at.values + items }
}

proof fn lemma_members(
    items: Seq<JsonV>,
    column_type: Option<Seq<char>>,
    i: nat,
    parts: Seq<Seq<char>>,
    at: BindsV,
    first: usize,
    before: Seq<JsonV>,
)
    requires
        i <= items.len(),
        first + items.len() < usize::MAX,
        at.next == first + i,
        at.values == before + items.take(i as int),
        parts == Seq::new(i, |k: int| nth_member(items, column_type, first as nat, k)),
    ensures
        members_from(items, column_type, i, parts, at) == (
            Seq::new(items.len(), |k: int| nth_member(items, column_type, first as nat, k)),
            BindsV { next: (first + items.len()) as usize, values: before + items },
        ),
    decreases items.len() - i,
{
    reveal_strlit("");
    assert(""@ =~= Seq::<char>::empty());
    if i < items.len() {
        let item = items[i as int];
        let part = nth_member(items, column_type, first as nat, i as int);
        assert(crate::binds::placeholder(at) + crate::comparison::inferred_cast(item, column_type)
            =~= part);
        let more = parts.push(part);
        assert(more =~= Seq::new(
            i + 1,
            |k: int| nth_member(items, column_type, first as nat, k),
        ));
        let next = crate::binds::bound(at, item);
        assert(next.values =~= before + items.take((i + 1) as int));
        lemma_members(items, column_type, i + 1, more, next, first, before);
    } else {
        assert(items.take(i as int) =~= items);
    }
}

/// A column is among the values of a list, or it is not: each is bound, in
/// order, and an empty list holds nothing.
pub proof fn law_lists_are_searched(
    words: Vocabulary,
    quoted: Seq<char>,
    column: Seq<char>,
    column_type: Option<Seq<char>>,
    items: Seq<JsonV>,
    at: BindsV,
)
    requires
        is_own_word(words, "_in"@),
        is_own_word(words, "_nin"@),
        at.next + items.len() < usize::MAX,
    ensures
        ({
            let list = "("@ + joined(
                Seq::new(
                    items.len(),
                    |k: int| nth_member(items, column_type, at.next as nat, k),
                ),
                ", "@,
            ) + ")"@;
            let value = JsonV::Array(items);
            &&& comparison(words, quoted, column, column_type, "_in"@, value, at) == Ok::<
                (Seq<char>, BindsV),
                (ErrorV, BindsV),
            >(
                (
                    if items.len() == 0 {
                        "false"@
                    } else {
                        quoted + " IN "@ + list
                    },
                    after_list(at, items),
                ),
            )
            &&& comparison(words, quoted, column, column_type, "_nin"@, value, at) == Ok::<
                (Seq<char>, BindsV),
                (ErrorV, BindsV),
            >(
                (
                    if items.len() == 0 {
                        "true"@
                    } else {
                        quoted + " NOT IN "@ + list
                    },
                    after_list(at, items),
                ),
            )
        }),
{
    lemma_words();
    reveal_strlit(" ");
    reveal_strlit("IN");
    reveal_strlit("NOT IN");
    reveal_strlit(" IN ");
    reveal_strlit(" NOT IN ");
    reveal_strlit(" (");
    reveal_strlit("(");
    let parts = Seq::new(
        items.len(),
        |k: int| nth_member(items, column_type, at.next as nat, k),
    );
    let list = "("@ + joined(parts, ", "@) + ")"@;
    assert(at.values + items.take(0) =~= at.values);
    assert(Seq::<Seq<char>>::empty() =~= Seq::new(
        0,
        |k: int| nth_member(items, column_type, at.next as nat, k),
    ));
    lemma_members(items, column_type, 0, Seq::empty(), at, at.next, at.values);
    if items.len() == 0 {
        assert(at.values + items =~= at.values);
    } else {
        assert(quoted + " "@ + "IN"@ + " ("@ + joined(parts, ", "@) + ")"@ =~= quoted + " IN "@
            + list);
        assert(quoted + " "@ + "NOT IN"@ + " ("@ + joined(parts, ", "@) + ")"@ =~= quoted
            + " NOT IN "@ + list);
    }
}

/// Whatever is not a list is refused where a list is searched, and nothing is
/// bound.
pub proof fn law_only_lists_are_searched(
    words: Vocabulary,
    quoted: Seq<char>,
    column: Seq<char>,
    column_type: Option<Seq<char>>,
    value: JsonV,
    at: BindsV,
)
    requires
        is_own_word(words, "_in"@),
        is_own_word(words, "_nin"@),
        is_own_word(words, "_has_keys_any"@),
        is_own_word(words, "_has_keys_all"@),
        !(value is Array),
    ensures
        comparison(words, quoted, column, column_type, "_in"@, value, at) matches Err((e, end))
            && end == at,
        comparison(words, quoted, column, column_type, "_nin"@, value, at) matches Err((e, end))
            && end == at,
        comparison(words, quoted, column, column_type, "_has_keys_any"@, value, at) matches Err(
            (e, end),
        ) && end == at,
        comparison(words, quoted, column, column_type, "_has_keys_all"@, value, at) matches Err(
            (e, end),
        ) && end == at,
{
    lemma_words();
}

/// The placeholder of the `i`th value that is bound from here on.
pub open spec fn nth_item(first: nat, i: int) -> Seq<char> {
    "$"@ + decimal((first + i) as nat)
}

proof fn lemma_items(
    items: Seq<JsonV>,
    i: nat,
    parts: Seq<Seq<char>>,
    at: BindsV,
    first: usize,
    before: Seq<JsonV>,
)
    requires
        i <= items.len(),
        first + items.len() < usize::MAX,
        at.next == first + i,
        at.values == before + items.take(i as int),
        parts == Seq::new(i, |k: int| nth_item(first as nat, k)),
    ensures
        item_placeholders(items, i, parts, at) == (
            Seq::new(items.len(), |k: int| nth_item(first as nat, k)),
            BindsV { next: (first + items.len()) as usize, values: before + items },
        ),
    decreases items.len() - i,
{
    if i < items.len() {
        let more = parts.push(nth_item(first as nat, i as int));
        assert(more =~= Seq::new(i + 1, |k: int| nth_item(first as nat, k)));
        let next = crate::binds::bound(at, items[i as int]);
        assert(next.values =~= before + items.take((i + 1) as int));
        lemma_items(items, i + 1, more, next, first, before);
    } else {
        assert(items.take(i as int) =~= items);
    }
}

/// An array is its members in order, each bound, and the type it is of.
pub proof fn law_arrays_hold_their_members(items: Seq<JsonV>, cast: Seq<char>, at: BindsV)
    requires
        at.next + items.len() < usize::MAX,
    ensures
        array_of(items, cast, at) == (
            "ARRAY["@ + joined(
                Seq::new(items.len(), |k: int| nth_item(at.next as nat, k)),
                ", "@,
            ) + "]::"@ + cast,
            after_list(at, items),
        ),
{
    assert(at.values + items.take(0) =~= at.values);
    let none = Seq::<Seq<char>>::empty();
    assert(none =~= Seq::new(0, |k: int| nth_item(at.next as nat, k)));
    if items.len() == 0 {
        reveal_strlit("ARRAY[]::");
        reveal_strlit("ARRAY[");
        reveal_strlit("]::");
        assert(Seq::new(items.len(), |k: int| nth_item(at.next as nat, k)) =~= none);
        assert(joined(none, ", "@) =~= Seq::<char>::empty());
        assert("ARRAY[]::"@ + cast =~= "ARRAY["@ + joined(none, ", "@) + "]::"@ + cast);
        assert(at.values + items =~= at.values);
    } else {
        lemma_items(items, 0, none, at, at.next, at.values);
    }
}

/// A document has one of several keys, or all of them.
pub proof fn law_keys_are_searched(
    words: Vocabulary,
    quoted: Seq<char>,
    column: Seq<char>,
    column_type: Option<Seq<char>>,
    items: Seq<JsonV>,
    at: BindsV,
)
    requires
        is_own_word(words, "_has_keys_any"@),
        is_own_word(words, "_has_keys_all"@),
        at.next + items.len() < usize::MAX,
    ensures
        ({
            let list = "ARRAY["@ + joined(
                Seq::new(items.len(), |k: int| nth_item(at.next as nat, k)),
                ", "@,
            ) + "]::"@ + "text[]"@;
            let value = JsonV::Array(items);
            &&& comparison(words, quoted, column, column_type, "_has_keys_any"@, value, at) == Ok::<
                (Seq<char>, BindsV),
                (ErrorV, BindsV),
            >((quoted + " "@ + "?|"@ + " "@ + list, after_list(at, items)))
            &&& comparison(words, quoted, column, column_type, "_has_keys_all"@, value, at) == Ok::<
                (Seq<char>, BindsV),
                (ErrorV, BindsV),
            >((quoted + " "@ + "?&"@ + " "@ + list, after_list(at, items)))
        }),
{
    lemma_words();
    law_arrays_hold_their_members(items, "text[]"@, at);
}

// ---------------------------------------------------------------------------
// Shapes and trees
// ---------------------------------------------------------------------------

/// A column of label trees is compared by the operator its word is given, with
/// a value of the type it is given.
pub proof fn law_trees_are_compared(
    words: Vocabulary,
    quoted: Seq<char>,
    column: Seq<char>,
    column_type: Option<Seq<char>>,
    op: Seq<char>,
    value: JsonV,
    at: BindsV,
)
    requires
        op != "_cast"@,
        paired(words.spatial@, op) is None,
        named(words.trees@, op) is Some,
        at.next < usize::MAX,
        value is Array ==> at.next + value->Array_0.len() < usize::MAX,
    ensures
        ({
            let tree = named(words.trees@, op)->0;
            let r = comparison(words, quoted, column, column_type, op, value, at);
            if !has_suffix(tree.cast@, "[]"@) {
                r == Ok::<(Seq<char>, BindsV), (ErrorV, BindsV)>(
                    (
                        quoted + " "@ + tree.operator@ + " "@ + "$"@ + decimal(at.next as nat)
                            + "::"@ + tree.cast@,
                        after_one(at, value),
                    ),
                )
            } else if value is Array {
                r == Ok::<(Seq<char>, BindsV), (ErrorV, BindsV)>(
                    (
                        quoted + " "@ + tree.operator@ + " "@ + ("ARRAY["@ + joined(
                            Seq::new(
                                value->Array_0.len(),
                                |k: int| nth_item(at.next as nat, k),
                            ),
                            ", "@,
                        ) + "]::"@ + tree.cast@),
                        after_list(at, value->Array_0),
                    ),
                )
            } else {
                r matches Err((e, end)) && end == at
            }
        }),
{
    let tree = named(words.trees@, op)->0;
    if value is Array {
        law_arrays_hold_their_members(value->Array_0, tree.cast@, at);
    }
    let dollar = "$"@ + decimal(at.next as nat);
    assert(quoted + " "@ + tree.operator@ + " "@ + dollar + "::"@ + tree.cast@ =~= quoted + " "@
        + tree.operator@ + " "@ + "$"@ + decimal(at.next as nat) + "::"@ + tree.cast@);
}

/// The shape that a placeholder stands for.
pub open spec fn shape_of(column_type: Option<Seq<char>>, n: nat) -> Seq<char> {
    if column_type == Some("geography"@) {
        "ST_GeomFromGeoJSON($"@ + decimal(n) + ")::geography"@
    } else {
        "ST_GeomFromGeoJSON($"@ + decimal(n) + ")"@
    }
}

proof fn lemma_shape(column_type: Option<Seq<char>>, at: BindsV)
    ensures
        crate::comparison::shape_sql(column_type == Some("geography"@), at) == shape_of(
            column_type,
            at.next as nat,
        ),
{
    reveal_strlit("ST_GeomFromGeoJSON(");
    reveal_strlit("ST_GeomFromGeoJSON($");
    reveal_strlit("$");
    assert(crate::comparison::shape_sql(column_type == Some("geography"@), at) =~= shape_of(
        column_type,
        at.next as nat,
    ));
}

/// A column is compared with a shape by calling the function its word is given
/// on the column and the shape.
pub proof fn law_shapes_are_compared(
    words: Vocabulary,
    quoted: Seq<char>,
    column: Seq<char>,
    column_type: Option<Seq<char>>,
    op: Seq<char>,
    value: JsonV,
    at: BindsV,
)
    requires
        op != "_cast"@,
        paired(words.spatial@, op) is Some,
        op != "_st_d_within"@,
        op != "_st_3d_d_within"@,
        op != "_st_intersects_rast"@,
        op != "_st_intersects_geom_nband"@,
        op != "_st_intersects_nband_geom"@,
        at.next < usize::MAX,
    ensures
        comparison(words, quoted, column, column_type, op, value, at) == Ok::<
            (Seq<char>, BindsV),
            (ErrorV, BindsV),
        >(
            (
                paired(words.spatial@, op)->0 + "("@ + quoted + ", "@ + shape_of(
                    column_type,
                    at.next as nat,
                ) + ")"@,
                after_one(at, value),
            ),
        ),
{
    lemma_shape(column_type, at);
}

/// Whether a shape is within a distance of another: the shape to measure from
/// is bound first and the distance after it, and on a globe whether to measure
/// along it.
pub proof fn law_distances_are_measured(
    words: Vocabulary,
    quoted: Seq<char>,
    column: Seq<char>,
    column_type: Option<Seq<char>>,
    op: Seq<char>,
    value: JsonV,
    at: BindsV,
)
    requires
        op == "_st_d_within"@ || op == "_st_3d_d_within"@,
        paired(words.spatial@, op) is Some,
        at.next + 3 < usize::MAX,
    ensures
        ({
            let r = comparison(words, quoted, column, column_type, op, value, at);
            let shape = value.get("from"@);
            let far = value.get("distance"@);
            let along = value.get("use_spheroid"@);
            let function = paired(words.spatial@, op)->0;
            let n = at.next as nat;
            let start = function + "("@ + quoted + ", "@ + shape_of(column_type, n) + ", "@ + ("$"@
                + decimal(n + 1)) + "::float8"@;
            if !(value is Object) || shape is None || far is None {
                r matches Err((e, end)) && end == at
            } else if column_type == Some("geography"@) && along is Some && !(along->0 is Null) {
                r == Ok::<(Seq<char>, BindsV), (ErrorV, BindsV)>(
                    (
                        start + (", "@ + ("$"@ + decimal(n + 2)) + "::boolean"@) + ")"@,
                        after_one(after_one(after_one(at, shape->0), far->0), along->0),
                    ),
                )
            } else {
                r == Ok::<(Seq<char>, BindsV), (ErrorV, BindsV)>(
                    (start + ")"@, after_one(after_one(at, shape->0), far->0)),
                )
            }
        }),
{
    reveal_strlit("_cast");
    reveal_strlit("_st_d_within");
    reveal_strlit("_st_3d_d_within");
    reveal_strlit("");
    lemma_shape(column_type, at);
    let function = paired(words.spatial@, op)->0;
    let n = at.next as nat;
    let start = function + "("@ + quoted + ", "@ + shape_of(column_type, n) + ", "@ + ("$"@
        + decimal(n + 1)) + "::float8"@;
    assert(start + ""@ + ")"@ =~= start + ")"@);
}

// ---------------------------------------------------------------------------
// Other types
// ---------------------------------------------------------------------------

/// A column compared as another type is the column cast to it, compared as a
/// column of that type.
pub proof fn law_casts_compare_as_another_type(
    words: Vocabulary,
    quoted: Seq<char>,
    column: Seq<char>,
    column_type: Option<Seq<char>>,
    target: Seq<char>,
    op: Seq<char>,
    value: JsonV,
    at: BindsV,
)
    requires
        target == "geometry"@ || target == "geography"@ || target == "String"@,
    ensures
        ({
            let t = if target == "String"@ {
                "text"@
            } else {
                target
            };
            let ops = JsonV::Object(seq![(op, value)]);
            comparison(
                words,
                quoted,
                column,
                column_type,
                "_cast"@,
                JsonV::Object(seq![(target, ops)]),
                at,
            ) == comparison(words, quoted + "::"@ + t, column, Some(t), op, value, at)
        }),
{
    reveal_strlit("geometry");
    reveal_strlit("geography");
    reveal_strlit("String");
    let t = if target == "String"@ {
        "text"@
    } else {
        target
    };
    let pairs = seq![(op, value)];
    let ops = JsonV::Object(pairs);
    let casts = seq![(target, ops)];
    let none = Seq::<Seq<char>>::empty();
    let cast = quoted + "::"@ + t;
    assert(pairs[0] == (op, value));
    assert(casts[0] == (target, ops));
    assert(crate::comparison::cast_type(target) == Some(t));
    match comparison(words, cast, column, Some(t), op, value, at) {
        Ok((sql, mid)) => {
            let one = none.push(sql);
            assert(comparisons_from(words, cast, column, Some(t), pairs, 1, one, mid) == Ok::<
                (Seq<Seq<char>>, BindsV),
                (ErrorV, Seq<Seq<char>>, BindsV),
            >((one, mid)));
            assert(comparisons_from(words, cast, column, Some(t), pairs, 0, none, at) == Ok::<
                (Seq<Seq<char>>, BindsV),
                (ErrorV, Seq<Seq<char>>, BindsV),
            >((one, mid)));
            assert(crate::comparison::casts_from(words, quoted, column, casts, 1, one, mid) == Ok::<
                (Seq<Seq<char>>, BindsV),
                (ErrorV, Seq<Seq<char>>, BindsV),
            >((one, mid)));
            assert(crate::comparison::casts_from(words, quoted, column, casts, 0, none, at) == Ok::<
                (Seq<Seq<char>>, BindsV),
                (ErrorV, Seq<Seq<char>>, BindsV),
            >((one, mid)));
        },
        Err((e, mid)) => {
            assert(comparisons_from(words, cast, column, Some(t), pairs, 0, none, at) == Err::<
                (Seq<Seq<char>>, BindsV),
                (ErrorV, Seq<Seq<char>>, BindsV),
            >((e, none, mid)));
            assert(crate::comparison::casts_from(words, quoted, column, casts, 0, none, at) == Err::<
                (Seq<Seq<char>>, BindsV),
                (ErrorV, Seq<Seq<char>>, BindsV),
            >((e, none, mid)));
        },
    }
}

// ---------------------------------------------------------------------------
// Columns
// ---------------------------------------------------------------------------

/// A column compared with another is the one, the operator of the word, and the
/// other: nothing is bound, and what follows is compared after it.
pub proof fn law_columns_are_compared_with_columns(
    scope: ScopeV,
    key: Seq<char>,
    k: int,
    other: Seq<char>,
    parts: Seq<Seq<char>>,
    at: CursorV,
)
    requires
        0 <= k < column_words().len(),
    ensures
        operators_from(
            seq![(column_words()[k].0, JsonV::String(other))],
            0,
            key,
            scope,
            parts,
            at,
        ) == Ok::<(Seq<Seq<char>>, CursorV), (ErrorV, CursorV)>(
            (
                parts.push(
                    scope.column(key) + " "@ + column_words()[k].1 + " "@ + (scope.sql_ref + "."@
                        + crate::text::ident(scope.column_name(other))),
                ),
                at,
            ),
        ),
{
    lemma_words();
    let ops = seq![(column_words()[k].0, JsonV::String(other))];
    assert(ops[0] == (column_words()[k].0, JsonV::String(other)));
    assert(column_operator(column_words()[k].0) == Some(column_words()[k].1));
    let sql = scope.column(key) + " "@ + column_words()[k].1 + " "@ + (scope.sql_ref + "."@
        + crate::text::ident(scope.column_name(other)));
    assert(operators_from(ops, 1, key, scope, parts.push(sql), at) == Ok::<
        (Seq<Seq<char>>, CursorV),
        (ErrorV, CursorV),
    >((parts.push(sql), at)));
}

} // verus!
