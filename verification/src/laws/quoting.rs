//! What holds of quoted names, escaped texts, lists and numbers as SQL writes
//! them.

use crate::embed::literal;
use crate::text::{decimal, decimal_int, digit, ident, ident2, joined, replaced};
use vstd::prelude::*;

verus! {

// ---------------------------------------------------------------------------
// Names and texts
// ---------------------------------------------------------------------------

/// Replacing a character in a text is replacing it in each part of the text.
pub proof fn law_replacing_is_part_by_part(
    a: Seq<char>,
    b: Seq<char>,
    from: char,
    to: Seq<char>,
)
    ensures
        replaced(a + b, from, to) == replaced(a, from, to) + replaced(b, from, to),
    decreases b.len(),
{
    if b.len() == 0 {
        assert(a + b =~= a);
        assert(replaced(a, from, to) + replaced(b, from, to) =~= replaced(a, from, to));
    } else {
        law_replacing_is_part_by_part(a, b.drop_last(), from, to);
        assert((a + b).drop_last() =~= a + b.drop_last());
        assert((a + b).last() == b.last());
        assert(replaced(a + b, from, to) =~= replaced(a, from, to) + replaced(b, from, to));
    }
}

proof fn lemma_replaced_one(c: char, from: char, to: Seq<char>)
    ensures
        replaced(seq![c], from, to) == (if c == from {
            to
        } else {
            seq![c]
        }),
{
    assert(seq![c].drop_last() =~= Seq::<char>::empty());
    assert(replaced(Seq::<char>::empty(), from, to) =~= Seq::<char>::empty());
    assert(replaced(seq![c], from, to) =~= (if c == from {
        to
    } else {
        seq![c]
    }));
}

/// A character that a text does not hold is replaced nowhere in it.
pub proof fn law_nothing_else_is_replaced(s: Seq<char>, from: char, to: Seq<char>)
    requires
        !s.contains(from),
    ensures
        replaced(s, from, to) == s,
    decreases s.len(),
{
    if s.len() > 0 {
        assert(s[s.len() - 1] != from);
        assert forall|i: int| 0 <= i < s.drop_last().len() implies s.drop_last()[i] != from by {
            assert(s[i] != from);
        }
        law_nothing_else_is_replaced(s.drop_last(), from, to);
        assert(s =~= s.drop_last() + seq![s.last()]);
    } else {
        assert(replaced(s, from, to) =~= s);
    }
}

/// A name is written between double quotes, and where it holds none itself it
/// is written there as it is. A double quote within it is written twice, and
/// what stands around it does not change how a part of a name is written.
pub proof fn law_names_are_quoted(a: Seq<char>, b: Seq<char>)
    ensures
        ident(a).len() >= 2,
        ident(a)[0] == '"',
        ident(a).last() == '"',
        !a.contains('"') ==> ident(a) == seq!['"'] + a + seq!['"'],
        ident(seq!['"']) == seq!['"', '"', '"', '"'],
        ident(a + b) == ident(a).drop_last() + ident(b).drop_first(),
{
    reveal_strlit("\"");
    reveal_strlit("\"\"");
    let two = "\"\""@;
    assert("\""@ =~= seq!['"']);
    assert(two =~= seq!['"', '"']);
    if !a.contains('"') {
        law_nothing_else_is_replaced(a, '"', two);
    }
    lemma_replaced_one('"', '"', two);
    assert(ident(seq!['"']) =~= seq!['"', '"', '"', '"']);
    law_replacing_is_part_by_part(a, b, '"', two);
    assert(ident(a + b) =~= ident(a).drop_last() + ident(b).drop_first());
}

/// A table is named by its schema and its own name, each quoted, with a dot
/// between.
pub proof fn law_tables_are_named_by_schema(schema: Seq<char>, name: Seq<char>)
    ensures
        ident2(schema, name) == ident(schema) + seq!['.'] + ident(name),
{
    reveal_strlit(".");
    assert("."@ =~= seq!['.']);
}

/// A text inside single quotes is written as it is where it holds none itself,
/// and each that it holds is written twice.
pub proof fn law_texts_are_escaped(a: Seq<char>, b: Seq<char>)
    ensures
        !a.contains('\'') ==> literal(a) == a,
        literal(seq!['\'']) == seq!['\'', '\''],
        literal(a + b) == literal(a) + literal(b),
{
    reveal_strlit("''");
    let two = "''"@;
    assert(two =~= seq!['\'', '\'']);
    if !a.contains('\'') {
        law_nothing_else_is_replaced(a, '\'', two);
    }
    lemma_replaced_one('\'', '\'', two);
    law_replacing_is_part_by_part(a, b, '\'', two);
}

// ---------------------------------------------------------------------------
// Lists
// ---------------------------------------------------------------------------

/// A list of texts is written one after another with the separator between two
/// of them, and nowhere else.
pub proof fn law_lists_are_separated(a: Seq<Seq<char>>, b: Seq<Seq<char>>, sep: Seq<char>)
    ensures
        joined(Seq::empty(), sep).len() == 0,
        a.len() == 1 ==> joined(a, sep) == a[0],
        a.len() > 0 && b.len() > 0 ==> joined(a + b, sep) == joined(a, sep) + sep + joined(b, sep),
    decreases b.len(),
{
    if a.len() > 0 && b.len() > 0 {
        let whole = a + b;
        assert(whole.drop_last() =~= a + b.drop_last());
        assert(whole.last() == b.last());
        if b.len() == 1 {
            assert(a + b.drop_last() =~= a);
        } else {
            law_lists_are_separated(a, b.drop_last(), sep);
            assert(joined(whole, sep) =~= joined(a, sep) + sep + joined(b, sep));
        }
    }
}

// ---------------------------------------------------------------------------
// Numbers
// ---------------------------------------------------------------------------

/// A number is written in base ten: a digit below ten is the character that far
/// after `0`, and each further digit follows those before it. A number below
/// zero is written after a minus.
pub proof fn law_numbers_are_decimal(n: nat, d: nat)
    requires
        d < 10,
    ensures
        decimal(d).len() == 1,
        decimal(d)[0] as u32 == '0' as u32 + d,
        n > 0 ==> decimal(10 * n + d) == decimal(n) + decimal(d),
        decimal_int(n as int) == decimal(n),
        n > 0 ==> decimal_int(-(n as int)) == seq!['-'] + decimal(n),
{
    reveal_strlit("-");
    assert("-"@ =~= seq!['-']);
    assert(decimal(d) =~= seq![digit(d)]);
    if n > 0 {
        let m = 10 * n + d;
        assert(m / 10 == n);
        assert(m % 10 == d);
        assert(decimal(m) =~= decimal(n) + decimal(d));
    }
}

} // verus!
