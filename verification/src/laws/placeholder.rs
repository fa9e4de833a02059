//! What an expression is compared with never stands in its SQL: the text is a
//! template with holes, and the hole of a bound value is filled by the
//! placeholder that stands for it.

use crate::binds::{advanced, bound, following, placeholder, BindsV};
use crate::catalog::{EmbedPlan, RelationshipField};
use crate::comparison::{
    all_of, array_of, array_sql, as_document, binary_sql, cast_type, casts_from, comparison,
    comparisons_from, direct_comparison, inferred_cast, item_placeholders, membership_sql,
    shape_sql, spatial_sql, within_band, within_distance, PartsV, SqlV, Vocabulary,
};
use crate::condition::{
    aggregate_condition, aggregate_of, aggregate_predicate, aggregated, aggregates_from, alias_of,
    child_of, column_operator, condition, correlation_of, entries_from, entry_condition,
    is_correlated, members_from, operators_from, or_true, place_of, rank, related_exists, source_of,
    table_exists, with_bracketed, ConditionV, ConditionsV, CursorV, TermV,
};
use crate::json::{entry_of, JsonV};
use crate::laws::binding::{grown, law_condition_binds};
use crate::role::{exists_table, Verb, PERMISSION};
use crate::scope::ScopeV;
use crate::text::{decimal, ident, ident2, joined};
use vstd::prelude::*;

verus! {

// ---------------------------------------------------------------------------
// Templates
// ---------------------------------------------------------------------------

/// A piece of SQL: a text of its own, or the hole of the `k`th value bound
/// after a given state.
pub enum Piece {
    Text(Seq<char>),
    Hole(nat),
}

/// A piece as it is written after a state: a hole is filled by the placeholder
/// under which its value is bound.
pub open spec fn piece_text(piece: Piece, from: BindsV) -> Seq<char> {
    match piece {
        Piece::Text(text) => text,
        Piece::Hole(k) => "$"@ + decimal(advanced(from.next, k) as nat),
    }
}

/// A template as it is written after a state.
pub open spec fn rendered(template: Seq<Piece>, from: BindsV) -> Seq<char>
    decreases template.len(),
{
    if template.len() == 0 {
        Seq::empty()
    } else {
        rendered(template.drop_last(), from) + piece_text(template.last(), from)
    }
}

/// Whether a template has no hole from the `hi`th on, and each from the `lo`th
/// up to it.
pub open spec fn holes(template: Seq<Piece>, lo: nat, hi: nat) -> bool {
    &&& forall|i: int|
        0 <= i < template.len() && (#[trigger] template[i]) is Hole ==> template[i]->Hole_0 < hi
    &&& forall|k: nat| lo <= k < hi ==> #[trigger] template.contains(Piece::Hole(k))
}

/// Whether two texts are one template, written after two states.
pub open spec fn reads(
    template: Seq<Piece>,
    a: Seq<char>,
    b: Seq<char>,
    p: BindsV,
    q: BindsV,
    lo: nat,
    hi: nat,
) -> bool {
    &&& a == rendered(template, p)
    &&& b == rendered(template, q)
    &&& holes(template, lo, hi)
}

/// Whether two texts come of one template, written after two states.
pub open spec fn matched(
    a: Seq<char>,
    b: Seq<char>,
    p: BindsV,
    q: BindsV,
    lo: nat,
    hi: nat,
) -> bool {
    exists|template: Seq<Piece>| #[trigger] reads(template, a, b, p, q, lo, hi)
}

/// How many values were bound since a state.
pub open spec fn count(from: BindsV, at: BindsV) -> nat {
    (at.values.len() - from.values.len()) as nat
}

/// Whether two states came of two others by binding as many values.
pub open spec fn in_step(p: BindsV, q: BindsV, at: BindsV, bt: BindsV) -> bool {
    &&& p.values.len() <= at.values.len()
    &&& q.values.len() <= bt.values.len()
    &&& count(p, at) == count(q, bt)
    &&& at.next == advanced(p.next, count(p, at))
    &&& bt.next == advanced(q.next, count(p, at))
}

proof fn lemma_rendered_add(s: Seq<Piece>, t: Seq<Piece>, from: BindsV)
    ensures
        rendered(s + t, from) == rendered(s, from) + rendered(t, from),
    decreases t.len(),
{
    if t.len() == 0 {
        assert(s + t =~= s);
        assert(rendered(s, from) + rendered(t, from) =~= rendered(s, from));
    } else {
        assert((s + t).drop_last() =~= s + t.drop_last());
        lemma_rendered_add(s, t.drop_last(), from);
        assert(rendered(s + t, from) =~= rendered(s, from) + rendered(t, from));
    }
}

/// Two templates, one after the other.
proof fn lemma_then(
    a: Seq<char>,
    b: Seq<char>,
    c: Seq<char>,
    d: Seq<char>,
    p: BindsV,
    q: BindsV,
    first: (nat, nat),
    second: (nat, nat),
    lo: nat,
    hi: nat,
)
    requires
        matched(a, b, p, q, first.0, first.1),
        matched(c, d, p, q, second.0, second.1),
        first.1 <= hi,
        second.1 <= hi,
        forall|k: nat|
            lo <= k < hi ==> first.0 <= k < first.1 || #[trigger] within(second.0, k, second.1),
    ensures
        matched(a + c, b + d, p, q, lo, hi),
{
    let s = choose|s: Seq<Piece>| #[trigger] reads(s, a, b, p, q, first.0, first.1);
    let t = choose|t: Seq<Piece>| #[trigger] reads(t, c, d, p, q, second.0, second.1);
    let whole = s + t;
    lemma_rendered_add(s, t, p);
    lemma_rendered_add(s, t, q);
    assert forall|k: nat| lo <= k < hi implies #[trigger] whole.contains(Piece::Hole(k)) by {
        assert(first.0 <= k < first.1 || within(second.0, k, second.1));
        if first.0 <= k < first.1 {
            assert(s.contains(Piece::Hole(k)));
            let i = choose|i: int| 0 <= i < s.len() && s[i] == Piece::Hole(k);
            assert(whole[i] == Piece::Hole(k));
        } else {
            assert(t.contains(Piece::Hole(k)));
            let i = choose|i: int| 0 <= i < t.len() && t[i] == Piece::Hole(k);
            assert(whole[s.len() + i] == Piece::Hole(k));
        }
    }
    assert(reads(whole, a + c, b + d, p, q, lo, hi));
}

/// Whether a number lies in a range.
pub open spec fn within(lo: nat, k: nat, hi: nat) -> bool {
    lo <= k < hi
}

proof fn lemma_text(text: Seq<char>, p: BindsV, q: BindsV, n: nat)
    ensures
        matched(text, text, p, q, n, n),
{
    let template = seq![Piece::Text(text)];
    lemma_single(Piece::Text(text), p);
    lemma_single(Piece::Text(text), q);
    assert(reads(template, text, text, p, q, n, n));
}

proof fn lemma_single(piece: Piece, from: BindsV)
    ensures
        rendered(seq![piece], from) == piece_text(piece, from),
{
    assert(seq![piece].drop_last() =~= Seq::<Piece>::empty());
    assert(rendered(Seq::<Piece>::empty(), from) =~= Seq::<char>::empty());
    assert(rendered(seq![piece], from) =~= piece_text(piece, from));
}

/// A hole is filled by the placeholder of the value bound for it.
proof fn lemma_hole(p: BindsV, q: BindsV, at: BindsV, bt: BindsV, x: JsonV, y: JsonV)
    requires
        in_step(p, q, at, bt),
    ensures
        in_step(p, q, bound(at, x), bound(bt, y)),
        count(p, bound(at, x)) == count(p, at) + 1,
        matched(placeholder(at), placeholder(bt), p, q, count(p, at), count(p, at) + 1),
{
    let n = count(p, at);
    let hole = Piece::Hole(n);
    lemma_single(hole, p);
    lemma_single(hole, q);
    assert forall|k: nat| n <= k < n + 1 implies #[trigger] seq![hole].contains(
        Piece::Hole(k),
    ) by {
        assert(seq![hole][0] == Piece::Hole(k));
    }
    assert(reads(seq![hole], placeholder(at), placeholder(bt), p, q, n, n + 1));
}

proof fn lemma_weaken(
    a: Seq<char>,
    b: Seq<char>,
    p: BindsV,
    q: BindsV,
    lo: nat,
    hi: nat,
    top: nat,
)
    requires
        matched(a, b, p, q, lo, hi),
        hi <= top,
    ensures
        matched(a, b, p, q, top, top),
{
    let t = choose|t: Seq<Piece>| #[trigger] reads(t, a, b, p, q, lo, hi);
    assert(reads(t, a, b, p, q, top, top));
}

/// A template between two texts.
proof fn lemma_between(
    before: Seq<char>,
    a: Seq<char>,
    b: Seq<char>,
    behind: Seq<char>,
    p: BindsV,
    q: BindsV,
    lo: nat,
    hi: nat,
)
    requires
        matched(a, b, p, q, lo, hi),
    ensures
        matched(before + a + behind, before + b + behind, p, q, lo, hi),
{
    lemma_text(before, p, q, hi);
    lemma_text(behind, p, q, hi);
    assert forall|k: nat| lo <= k < hi implies hi <= k < hi || #[trigger] within(lo, k, hi) by {}
    lemma_then(before, before, a, b, p, q, (hi, hi), (lo, hi), lo, hi);
    lemma_then(before + a, before + b, behind, behind, p, q, (lo, hi), (hi, hi), lo, hi);
}

/// A column's template and an operand's, with texts around them.
proof fn lemma_compared(
    first: Seq<char>,
    x: Seq<char>,
    y: Seq<char>,
    second: Seq<char>,
    a: Seq<char>,
    b: Seq<char>,
    third: Seq<char>,
    p: BindsV,
    q: BindsV,
    n: nat,
    lo: nat,
    hi: nat,
)
    requires
        matched(x, y, p, q, n, n),
        n <= hi,
        matched(a, b, p, q, lo, hi),
    ensures
        matched(
            first + x + second + a + third,
            first + y + second + b + third,
            p,
            q,
            lo,
            hi,
        ),
{
    lemma_between(first, x, y, second, p, q, n, n);
    assert forall|k: nat| lo <= k < hi implies n <= k < n || #[trigger] within(lo, k, hi) by {}
    lemma_then(first + x + second, first + y + second, a, b, p, q, (n, n), (lo, hi), lo, hi);
    lemma_text(third, p, q, hi);
    lemma_then(
        first + x + second + a,
        first + y + second + b,
        third,
        third,
        p,
        q,
        (lo, hi),
        (hi, hi),
        lo,
        hi,
    );
}

// ---------------------------------------------------------------------------
// Lists of templates
// ---------------------------------------------------------------------------

/// Whether two lists of texts come of one list of templates, whose holes
/// follow one another.
pub open spec fn listed(
    xs: Seq<Seq<char>>,
    ys: Seq<Seq<char>>,
    p: BindsV,
    q: BindsV,
    lo: nat,
    hi: nat,
) -> bool
    decreases xs.len(),
{
    if xs.len() == 0 {
        ys.len() == 0 && lo == hi
    } else {
        &&& xs.len() == ys.len()
        &&& exists|mid: nat|
            lo <= mid <= hi && listed(xs.drop_last(), ys.drop_last(), p, q, lo, mid)
                && #[trigger] matched(xs.last(), ys.last(), p, q, mid, hi)
    }
}

/// Whether two lists of texts come of one list of templates.
pub open spec fn drawn(
    xs: Seq<Seq<char>>,
    ys: Seq<Seq<char>>,
    p: BindsV,
    q: BindsV,
    hi: nat,
) -> bool {
    &&& xs.len() == ys.len()
    &&& forall|i: int| 0 <= i < xs.len() ==> #[trigger] matched(xs[i], ys[i], p, q, hi, hi)
}

proof fn lemma_listed_push(
    xs: Seq<Seq<char>>,
    ys: Seq<Seq<char>>,
    a: Seq<char>,
    b: Seq<char>,
    p: BindsV,
    q: BindsV,
    lo: nat,
    mid: nat,
    hi: nat,
)
    requires
        listed(xs, ys, p, q, lo, mid),
        matched(a, b, p, q, mid, hi),
        mid <= hi,
    ensures
        listed(xs.push(a), ys.push(b), p, q, lo, hi),
{
    assert(xs.push(a).drop_last() =~= xs);
    assert(ys.push(b).drop_last() =~= ys);
    lemma_listed_order(xs, ys, p, q, lo, mid);
    assert(matched(xs.push(a).last(), ys.push(b).last(), p, q, mid, hi));
}

proof fn lemma_listed_order(
    xs: Seq<Seq<char>>,
    ys: Seq<Seq<char>>,
    p: BindsV,
    q: BindsV,
    lo: nat,
    hi: nat,
)
    requires
        listed(xs, ys, p, q, lo, hi),
    ensures
        lo <= hi,
        xs.len() == ys.len(),
{
}

proof fn lemma_listed_drawn(
    xs: Seq<Seq<char>>,
    ys: Seq<Seq<char>>,
    p: BindsV,
    q: BindsV,
    lo: nat,
    hi: nat,
    top: nat,
)
    requires
        listed(xs, ys, p, q, lo, hi),
        hi <= top,
    ensures
        drawn(xs, ys, p, q, top),
    decreases xs.len(),
{
    if xs.len() > 0 {
        let mid = choose|mid: nat|
            lo <= mid <= hi && listed(xs.drop_last(), ys.drop_last(), p, q, lo, mid)
                && #[trigger] matched(xs.last(), ys.last(), p, q, mid, hi);
        lemma_listed_drawn(xs.drop_last(), ys.drop_last(), p, q, lo, mid, top);
        lemma_weaken(xs.last(), ys.last(), p, q, mid, hi, top);
        assert forall|i: int| 0 <= i < xs.len() implies #[trigger] matched(
            xs[i],
            ys[i],
            p,
            q,
            top,
            top,
        ) by {
            if i < xs.len() - 1 {
                assert(matched(xs.drop_last()[i], ys.drop_last()[i], p, q, top, top));
            }
        }
    }
}

proof fn lemma_drawn_listed(
    xs: Seq<Seq<char>>,
    ys: Seq<Seq<char>>,
    p: BindsV,
    q: BindsV,
    hi: nat,
)
    requires
        drawn(xs, ys, p, q, hi),
    ensures
        listed(xs, ys, p, q, hi, hi),
    decreases xs.len(),
{
    if xs.len() > 0 {
        assert forall|i: int| 0 <= i < xs.len() - 1 implies #[trigger] matched(
            xs.drop_last()[i],
            ys.drop_last()[i],
            p,
            q,
            hi,
            hi,
        ) by {
            assert(matched(xs[i], ys[i], p, q, hi, hi));
        }
        lemma_drawn_listed(xs.drop_last(), ys.drop_last(), p, q, hi);
        assert(matched(xs[xs.len() - 1], ys[xs.len() - 1], p, q, hi, hi));
        assert(matched(xs.last(), ys.last(), p, q, hi, hi));
    }
}

proof fn lemma_drawn_more(
    xs: Seq<Seq<char>>,
    ys: Seq<Seq<char>>,
    p: BindsV,
    q: BindsV,
    hi: nat,
    top: nat,
)
    requires
        drawn(xs, ys, p, q, hi),
        hi <= top,
    ensures
        drawn(xs, ys, p, q, top),
{
    assert forall|i: int| 0 <= i < xs.len() implies #[trigger] matched(
        xs[i],
        ys[i],
        p,
        q,
        top,
        top,
    ) by {
        assert(matched(xs[i], ys[i], p, q, hi, hi));
        lemma_weaken(xs[i], ys[i], p, q, hi, hi, top);
    }
}

proof fn lemma_drawn_push(
    xs: Seq<Seq<char>>,
    ys: Seq<Seq<char>>,
    a: Seq<char>,
    b: Seq<char>,
    p: BindsV,
    q: BindsV,
    before: nat,
    hi: nat,
)
    requires
        drawn(xs, ys, p, q, before),
        before <= hi,
        matched(a, b, p, q, hi, hi),
    ensures
        drawn(xs.push(a), ys.push(b), p, q, hi),
{
    lemma_drawn_more(xs, ys, p, q, before, hi);
    assert forall|i: int| 0 <= i < xs.push(a).len() implies #[trigger] matched(
        xs.push(a)[i],
        ys.push(b)[i],
        p,
        q,
        hi,
        hi,
    ) by {
        if i < xs.len() {
            assert(matched(xs[i], ys[i], p, q, hi, hi));
        }
    }
}

proof fn lemma_drawn_texts(xs: Seq<Seq<char>>, p: BindsV, q: BindsV, hi: nat)
    ensures
        drawn(xs, xs, p, q, hi),
{
    assert forall|i: int| 0 <= i < xs.len() implies #[trigger] matched(
        xs[i],
        xs[i],
        p,
        q,
        hi,
        hi,
    ) by {
        lemma_text(xs[i], p, q, hi);
    }
}

/// A list of templates, with a text between each two.
proof fn lemma_joined(
    xs: Seq<Seq<char>>,
    ys: Seq<Seq<char>>,
    sep: Seq<char>,
    p: BindsV,
    q: BindsV,
    lo: nat,
    hi: nat,
)
    requires
        listed(xs, ys, p, q, lo, hi),
    ensures
        matched(joined(xs, sep), joined(ys, sep), p, q, lo, hi),
    decreases xs.len(),
{
    if xs.len() == 0 {
        lemma_text(Seq::empty(), p, q, hi);
    } else {
        let mid = choose|mid: nat|
            lo <= mid <= hi && listed(xs.drop_last(), ys.drop_last(), p, q, lo, mid)
                && #[trigger] matched(xs.last(), ys.last(), p, q, mid, hi);
        if xs.len() == 1 {
            assert(xs.drop_last().len() == 0);
            assert(lo == mid);
            assert(xs[0] == xs.last() && ys[0] == ys.last());
        } else {
            lemma_joined(xs.drop_last(), ys.drop_last(), sep, p, q, lo, mid);
            lemma_text(sep, p, q, mid);
            lemma_then(
                joined(xs.drop_last(), sep),
                joined(ys.drop_last(), sep),
                sep,
                sep,
                p,
                q,
                (lo, mid),
                (mid, mid),
                lo,
                mid,
            );
            assert forall|k: nat| lo <= k < hi implies lo <= k < mid || #[trigger] within(
                mid,
                k,
                hi,
            ) by {}
            lemma_then(
                joined(xs.drop_last(), sep) + sep,
                joined(ys.drop_last(), sep) + sep,
                xs.last(),
                ys.last(),
                p,
                q,
                (lo, mid),
                (mid, hi),
                lo,
                hi,
            );
        }
    }
}

proof fn lemma_drawn_joined(
    xs: Seq<Seq<char>>,
    ys: Seq<Seq<char>>,
    sep: Seq<char>,
    p: BindsV,
    q: BindsV,
    hi: nat,
)
    requires
        drawn(xs, ys, p, q, hi),
    ensures
        matched(joined(xs, sep), joined(ys, sep), p, q, hi, hi),
{
    lemma_drawn_listed(xs, ys, p, q, hi);
    lemma_joined(xs, ys, sep, p, q, hi, hi);
}

// ---------------------------------------------------------------------------
// Expressions that differ in their operands
// ---------------------------------------------------------------------------

/// Whether what stands under a key names something of the schema or shapes the
/// SQL, rather than being compared with: a column or a table, whether a value
/// is null, the columns an aggregate is over and whether it counts each once.
pub open spec fn decisive(key: Seq<char>, value: JsonV) -> bool {
    ||| key == "_is_null"@
    ||| key == "_table"@
    ||| column_operator(key) is Some
    ||| (key == "arguments"@ || key == "distinct"@) && !(value is Object)
}

/// Whether two documents differ at most in what is compared with: they have
/// the same keys and lists of the same lengths, values of the same kinds stand
/// in the same places, and those that are decisive are the same.
pub open spec fn alike(a: JsonV, b: JsonV) -> bool
    decreases a,
{
    match (a, b) {
        (JsonV::Null, JsonV::Null) => true,
        (JsonV::Bool(_), JsonV::Bool(_)) => true,
        (JsonV::Number(_), JsonV::Number(_)) => true,
        (JsonV::String(_), JsonV::String(_)) => true,
        (JsonV::Array(xs), JsonV::Array(ys)) => {
            &&& xs.len() == ys.len()
            &&& forall|i: int| 0 <= i < xs.len() ==> alike(#[trigger] xs[i], ys[i])
        },
        (JsonV::Object(xs), JsonV::Object(ys)) => {
            &&& xs.len() == ys.len()
            &&& forall|i: int|
                0 <= i < xs.len() ==> (#[trigger] xs[i]).0 == ys[i].0 && (decisive(
                    xs[i].0,
                    xs[i].1,
                ) ==> xs[i].1 == ys[i].1) && alike(xs[i].1, ys[i].1)
        },
        _ => false,
    }
}

/// The entries of two such objects.
pub open spec fn alike_entries(
    xs: Seq<(Seq<char>, JsonV)>,
    ys: Seq<(Seq<char>, JsonV)>,
) -> bool {
    alike(JsonV::Object(xs), JsonV::Object(ys))
}

/// A document is alike to itself.
pub proof fn law_alike_to_itself(a: JsonV)
    ensures
        alike(a, a),
    decreases a,
{
    match a {
        JsonV::Array(xs) => {
            assert forall|i: int| 0 <= i < xs.len() implies alike(#[trigger] xs[i], xs[i]) by {
                law_alike_to_itself(xs[i]);
            }
        },
        JsonV::Object(xs) => {
            assert forall|i: int| 0 <= i < xs.len() implies (#[trigger] xs[i]).0 == xs[i].0
                && alike(xs[i].1, xs[i].1) by {
                law_alike_to_itself(xs[i].1);
            }
        },
        _ => {},
    }
}

/// Two such objects hold the same keys, with values that are alike.
proof fn lemma_alike_get(xs: Seq<(Seq<char>, JsonV)>, ys: Seq<(Seq<char>, JsonV)>, key: Seq<char>)
    requires
        alike_entries(xs, ys),
    ensures
        match (entry_of(xs, key), entry_of(ys, key)) {
            (Some(x), Some(y)) => alike(x, y) && (decisive(key, x) ==> x == y),
            (None, None) => true,
            _ => false,
        },
    decreases xs.len(),
{
    if xs.len() > 0 {
        assert(xs[0].0 == ys[0].0);
        let xs1 = xs.drop_first();
        let ys1 = ys.drop_first();
        assert forall|i: int| 0 <= i < xs1.len() implies (#[trigger] xs1[i]).0 == ys1[i].0 && (
        decisive(xs1[i].0, xs1[i].1) ==> xs1[i].1 == ys1[i].1) && alike(xs1[i].1, ys1[i].1) by {
            assert(xs1[i] == xs[i + 1]);
            assert(ys1[i] == ys[i + 1]);
        }
        lemma_alike_get(xs1, ys1, key);
    }
}

/// Two such documents have the same kind of value under a key.
proof fn lemma_alike_under(a: JsonV, b: JsonV, key: Seq<char>)
    requires
        alike(a, b),
    ensures
        match (a.get(key), b.get(key)) {
            (Some(x), Some(y)) => alike(x, y) && (decisive(key, x) ==> x == y),
            (None, None) => true,
            _ => false,
        },
        match (a.present(key), b.present(key)) {
            (Some(x), Some(y)) => alike(x, y) && (decisive(key, x) ==> x == y),
            (None, None) => true,
            _ => false,
        },
{
    match (a, b) {
        (JsonV::Object(xs), JsonV::Object(ys)) => lemma_alike_get(xs, ys, key),
        _ => {},
    }
}

proof fn lemma_alike_place(
    xs: Seq<(Seq<char>, JsonV)>,
    ys: Seq<(Seq<char>, JsonV)>,
    key: Seq<char>,
    i: nat,
)
    requires
        alike_entries(xs, ys),
    ensures
        place_of(xs, key, i) == place_of(ys, key, i),
    decreases xs.len() - i,
{
    if i < xs.len() {
        assert(xs[i as int].0 == ys[i as int].0);
        lemma_alike_place(xs, ys, key, i + 1);
    }
}

// ---------------------------------------------------------------------------
// Comparisons
// ---------------------------------------------------------------------------

/// Whether two comparisons come of one template that holds every value they
/// bind, or are refused alike.
pub open spec fn same_sql(r: SqlV, s: SqlV, p: BindsV, q: BindsV, lo: nat) -> bool {
    match (r, s) {
        (Ok((a, end)), Ok((b, fin))) => {
            &&& in_step(p, q, end, fin)
            &&& lo <= count(p, end)
            &&& matched(a, b, p, q, lo, count(p, end))
        },
        (Err((e, end)), Err((f, fin))) => e == f && in_step(p, q, end, fin),
        _ => false,
    }
}

/// The same of lists of comparisons.
pub open spec fn same_parts(r: PartsV, s: PartsV, p: BindsV, q: BindsV, lo: nat) -> bool {
    match (r, s) {
        (Ok((xs, end)), Ok((ys, fin))) => {
            &&& in_step(p, q, end, fin)
            &&& listed(xs, ys, p, q, lo, count(p, end))
        },
        (Err((e, _, end)), Err((f, _, fin))) => e == f && in_step(p, q, end, fin),
        _ => false,
    }
}

proof fn lemma_items(
    items: Seq<JsonV>,
    others: Seq<JsonV>,
    i: nat,
    xs: Seq<Seq<char>>,
    ys: Seq<Seq<char>>,
    p: BindsV,
    q: BindsV,
    at: BindsV,
    bt: BindsV,
    lo: nat,
)
    requires
        items.len() == others.len(),
        in_step(p, q, at, bt),
        listed(xs, ys, p, q, lo, count(p, at)),
    ensures
        ({
            let (x, end) = item_placeholders(items, i, xs, at);
            let (y, fin) = item_placeholders(others, i, ys, bt);
            in_step(p, q, end, fin) && listed(x, y, p, q, lo, count(p, end))
        }),
    decreases items.len() - i,
{
    if i < items.len() {
        let (x, y) = (items[i as int], others[i as int]);
        let n = count(p, at);
        lemma_hole(p, q, at, bt, x, y);
        lemma_listed_push(xs, ys, placeholder(at), placeholder(bt), p, q, lo, n, n + 1);
        lemma_items(
            items,
            others,
            i + 1,
            xs.push(placeholder(at)),
            ys.push(placeholder(bt)),
            p,
            q,
            bound(at, x),
            bound(bt, y),
            lo,
        );
    }
}

proof fn lemma_array(
    items: Seq<JsonV>,
    others: Seq<JsonV>,
    cast: Seq<char>,
    p: BindsV,
    q: BindsV,
    at: BindsV,
    bt: BindsV,
)
    requires
        items.len() == others.len(),
        in_step(p, q, at, bt),
    ensures
        same_sql(
            Ok(array_of(items, cast, at)),
            Ok(array_of(others, cast, bt)),
            p,
            q,
            count(p, at),
        ),
{
    let n = count(p, at);
    if items.len() == 0 {
        lemma_text("ARRAY[]::"@ + cast, p, q, n);
    } else {
        lemma_items(items, others, 0, Seq::empty(), Seq::empty(), p, q, at, bt, n);
        let (x, end) = item_placeholders(items, 0, Seq::empty(), at);
        let (y, fin) = item_placeholders(others, 0, Seq::empty(), bt);
        let hi = count(p, end);
        lemma_listed_order(x, y, p, q, n, hi);
        lemma_joined(x, y, ", "@, p, q, n, hi);
        let (a, b) = (joined(x, ", "@), joined(y, ", "@));
        lemma_between("ARRAY["@, a, b, "]::"@ + cast, p, q, n, hi);
        assert("ARRAY["@ + a + "]::"@ + cast =~= "ARRAY["@ + a + ("]::"@ + cast));
        assert("ARRAY["@ + b + "]::"@ + cast =~= "ARRAY["@ + b + ("]::"@ + cast));
    }
}

proof fn lemma_list(
    items: Seq<JsonV>,
    others: Seq<JsonV>,
    column_type: Option<Seq<char>>,
    i: nat,
    xs: Seq<Seq<char>>,
    ys: Seq<Seq<char>>,
    p: BindsV,
    q: BindsV,
    at: BindsV,
    bt: BindsV,
    lo: nat,
)
    requires
        alike(JsonV::Array(items), JsonV::Array(others)),
        in_step(p, q, at, bt),
        listed(xs, ys, p, q, lo, count(p, at)),
    ensures
        ({
            let (x, end) = crate::comparison::members_from(items, column_type, i, xs, at);
            let (y, fin) = crate::comparison::members_from(others, column_type, i, ys, bt);
            in_step(p, q, end, fin) && listed(x, y, p, q, lo, count(p, end))
        }),
    decreases items.len() - i,
{
    if i < items.len() {
        let (x, y) = (items[i as int], others[i as int]);
        assert(alike(x, y));
        let n = count(p, at);
        lemma_hole(p, q, at, bt, x, y);
        let cast = inferred_cast(x, column_type);
        assert(cast == inferred_cast(y, column_type));
        lemma_text(cast, p, q, n + 1);
        lemma_then(
            placeholder(at),
            placeholder(bt),
            cast,
            cast,
            p,
            q,
            (n, n + 1),
            (n + 1, n + 1),
            n,
            n + 1,
        );
        let (a, b) = (placeholder(at) + cast, placeholder(bt) + cast);
        lemma_listed_push(xs, ys, a, b, p, q, lo, n, n + 1);
        lemma_list(
            items,
            others,
            column_type,
            i + 1,
            xs.push(a),
            ys.push(b),
            p,
            q,
            bound(at, x),
            bound(bt, y),
            lo,
        );
    }
}

proof fn lemma_shape(
    geography: bool,
    x: JsonV,
    y: JsonV,
    p: BindsV,
    q: BindsV,
    at: BindsV,
    bt: BindsV,
)
    requires
        in_step(p, q, at, bt),
    ensures
        in_step(p, q, bound(at, x), bound(bt, y)),
        count(p, bound(at, x)) == count(p, at) + 1,
        matched(
            shape_sql(geography, at),
            shape_sql(geography, bt),
            p,
            q,
            count(p, at),
            count(p, at) + 1,
        ),
{
    let n = count(p, at);
    lemma_hole(p, q, at, bt, x, y);
    if geography {
        lemma_between(
            "ST_GeomFromGeoJSON("@,
            placeholder(at),
            placeholder(bt),
            ")::geography"@,
            p,
            q,
            n,
            n + 1,
        );
    } else {
        lemma_between(
            "ST_GeomFromGeoJSON("@,
            placeholder(at),
            placeholder(bt),
            ")"@,
            p,
            q,
            n,
            n + 1,
        );
    }
}

proof fn lemma_distance(
    c: Seq<char>,
    d: Seq<char>,
    geography: bool,
    function: Seq<char>,
    op: Seq<char>,
    x: JsonV,
    y: JsonV,
    p: BindsV,
    q: BindsV,
    at: BindsV,
    bt: BindsV,
)
    requires
        alike(x, y),
        in_step(p, q, at, bt),
        matched(c, d, p, q, count(p, at), count(p, at)),
    ensures
        same_sql(
            within_distance(c, geography, function, op, x, at),
            within_distance(d, geography, function, op, y, bt),
            p,
            q,
            count(p, at),
        ),
{
    lemma_alike_under(x, y, "from"@);
    lemma_alike_under(x, y, "distance"@);
    lemma_alike_under(x, y, "use_spheroid"@);
    if x is Object && x.get("from"@) is Some && x.get("distance"@) is Some {
        let n = count(p, at);
        let (s, t) = (bound(at, x.get("from"@)->0), bound(bt, y.get("from"@)->0));
        let (u, v) = (bound(s, x.get("distance"@)->0), bound(t, y.get("distance"@)->0));
        lemma_shape(geography, x.get("from"@)->0, y.get("from"@)->0, p, q, at, bt);
        lemma_hole(p, q, s, t, x.get("distance"@)->0, y.get("distance"@)->0);
        let open = function + "("@;
        lemma_compared(
            open,
            c,
            d,
            ", "@,
            shape_sql(geography, at),
            shape_sql(geography, bt),
            ", "@,
            p,
            q,
            n,
            n,
            n + 1,
        );
        let a = open + c + ", "@ + shape_sql(geography, at) + ", "@;
        let b = open + d + ", "@ + shape_sql(geography, bt) + ", "@;
        lemma_then(
            a,
            b,
            placeholder(s),
            placeholder(t),
            p,
            q,
            (n, n + 1),
            (n + 1, n + 2),
            n,
            n + 2,
        );
        let (a1, b1) = (a + placeholder(s), b + placeholder(t));
        lemma_text("::float8"@, p, q, n + 2);
        lemma_then(
            a1,
            b1,
            "::float8"@,
            "::float8"@,
            p,
            q,
            (n, n + 2),
            (n + 2, n + 2),
            n,
            n + 2,
        );
        let (a2, b2) = (a1 + "::float8"@, b1 + "::float8"@);
        if geography && x.present("use_spheroid"@) is Some {
            lemma_hole(p, q, u, v, x.present("use_spheroid"@)->0, y.present("use_spheroid"@)->0);
            lemma_between(
                ", "@,
                placeholder(u),
                placeholder(v),
                "::boolean"@,
                p,
                q,
                n + 2,
                n + 3,
            );
            let (e, f) = (
                ", "@ + placeholder(u) + "::boolean"@,
                ", "@ + placeholder(v) + "::boolean"@,
            );
            lemma_then(a2, b2, e, f, p, q, (n, n + 2), (n + 2, n + 3), n, n + 3);
            lemma_text(")"@, p, q, n + 3);
            lemma_then(
                a2 + e,
                b2 + f,
                ")"@,
                ")"@,
                p,
                q,
                (n, n + 3),
                (n + 3, n + 3),
                n,
                n + 3,
            );
        } else {
            lemma_text(""@, p, q, n + 2);
            lemma_then(a2, b2, ""@, ""@, p, q, (n, n + 2), (n + 2, n + 2), n, n + 2);
            lemma_text(")"@, p, q, n + 2);
            lemma_then(
                a2 + ""@,
                b2 + ""@,
                ")"@,
                ")"@,
                p,
                q,
                (n, n + 2),
                (n + 2, n + 2),
                n,
                n + 2,
            );
        }
    }
}

proof fn lemma_band(
    c: Seq<char>,
    d: Seq<char>,
    geography: bool,
    function: Seq<char>,
    op: Seq<char>,
    x: JsonV,
    y: JsonV,
    p: BindsV,
    q: BindsV,
    at: BindsV,
    bt: BindsV,
)
    requires
        alike(x, y),
        in_step(p, q, at, bt),
        matched(c, d, p, q, count(p, at), count(p, at)),
    ensures
        same_sql(
            within_band(c, geography, function, op, x, at),
            within_band(d, geography, function, op, y, bt),
            p,
            q,
            count(p, at),
        ),
{
    lemma_alike_under(x, y, "geommin"@);
    lemma_alike_under(x, y, "nband"@);
    if x is Object && x.get("geommin"@) is Some {
        let n = count(p, at);
        let (s, t) = (bound(at, x.get("geommin"@)->0), bound(bt, y.get("geommin"@)->0));
        lemma_shape(geography, x.get("geommin"@)->0, y.get("geommin"@)->0, p, q, at, bt);
        let open = function + "("@;
        let (e, f) = (shape_sql(geography, at), shape_sql(geography, bt));
        match x.present("nband"@) {
            None => {
                lemma_compared(open, c, d, ", "@, e, f, ")"@, p, q, n, n, n + 1);
            },
            Some(band) => {
                lemma_hole(p, q, s, t, band, y.present("nband"@)->0);
                lemma_compared(
                    open,
                    c,
                    d,
                    ", "@,
                    placeholder(s),
                    placeholder(t),
                    "::int, "@,
                    p,
                    q,
                    n,
                    n + 1,
                    n + 2,
                );
                let a = open + c + ", "@ + placeholder(s) + "::int, "@;
                let b = open + d + ", "@ + placeholder(t) + "::int, "@;
                lemma_then(a, b, e, f, p, q, (n + 1, n + 2), (n, n + 1), n, n + 2);
                lemma_text(")"@, p, q, n + 2);
                lemma_then(
                    a + e,
                    b + f,
                    ")"@,
                    ")"@,
                    p,
                    q,
                    (n, n + 2),
                    (n + 2, n + 2),
                    n,
                    n + 2,
                );
            },
        }
    }
}

proof fn lemma_spatial(
    c: Seq<char>,
    d: Seq<char>,
    column_type: Option<Seq<char>>,
    function: Seq<char>,
    op: Seq<char>,
    x: JsonV,
    y: JsonV,
    p: BindsV,
    q: BindsV,
    at: BindsV,
    bt: BindsV,
)
    requires
        alike(x, y),
        in_step(p, q, at, bt),
        matched(c, d, p, q, count(p, at), count(p, at)),
    ensures
        same_sql(
            spatial_sql(c, column_type, function, op, x, at),
            spatial_sql(d, column_type, function, op, y, bt),
            p,
            q,
            count(p, at),
        ),
{
    let geography = column_type == Some("geography"@);
    let n = count(p, at);
    let open = function + "("@;
    if op == "_st_d_within"@ || op == "_st_3d_d_within"@ {
        lemma_distance(c, d, geography, function, op, x, y, p, q, at, bt);
    } else if op == "_st_intersects_rast"@ {
        lemma_hole(p, q, at, bt, x, y);
        lemma_compared(
            open,
            c,
            d,
            ", "@,
            placeholder(at),
            placeholder(bt),
            "::raster)"@,
            p,
            q,
            n,
            n,
            n + 1,
        );
    } else if op == "_st_intersects_geom_nband"@ || op == "_st_intersects_nband_geom"@ {
        lemma_band(c, d, geography, function, op, x, y, p, q, at, bt);
    } else {
        lemma_shape(geography, x, y, p, q, at, bt);
        lemma_compared(
            open,
            c,
            d,
            ", "@,
            shape_sql(geography, at),
            shape_sql(geography, bt),
            ")"@,
            p,
            q,
            n,
            n,
            n + 1,
        );
    }
}

/// A column, an operator and an operand.
proof fn lemma_operator(
    c: Seq<char>,
    d: Seq<char>,
    operator: Seq<char>,
    a: Seq<char>,
    b: Seq<char>,
    cast: Seq<char>,
    p: BindsV,
    q: BindsV,
    n: nat,
    hi: nat,
)
    requires
        matched(c, d, p, q, n, n),
        matched(a, b, p, q, n, hi),
        n <= hi,
    ensures
        matched(
            c + " "@ + operator + " "@ + a + cast,
            d + " "@ + operator + " "@ + b + cast,
            p,
            q,
            n,
            hi,
        ),
{
    let middle = " "@ + operator + " "@;
    lemma_compared(Seq::empty(), c, d, middle, a, b, cast, p, q, n, n, hi);
    assert(c + " "@ + operator + " "@ + a + cast =~= Seq::<char>::empty() + c + middle + a + cast);
    assert(d + " "@ + operator + " "@ + b + cast =~= Seq::<char>::empty() + d + middle + b + cast);
}

proof fn lemma_array_sql(
    c: Seq<char>,
    d: Seq<char>,
    column: Seq<char>,
    op: Seq<char>,
    operator: Seq<char>,
    cast: Seq<char>,
    wanted: Seq<char>,
    x: JsonV,
    y: JsonV,
    p: BindsV,
    q: BindsV,
    at: BindsV,
    bt: BindsV,
)
    requires
        alike(x, y),
        in_step(p, q, at, bt),
        matched(c, d, p, q, count(p, at), count(p, at)),
    ensures
        same_sql(
            array_sql(c, column, op, operator, cast, wanted, x, at),
            array_sql(d, column, op, operator, cast, wanted, y, bt),
            p,
            q,
            count(p, at),
        ),
{
    match (x, y) {
        (JsonV::Array(items), JsonV::Array(others)) => {
            let n = count(p, at);
            lemma_array(items, others, cast, p, q, at, bt);
            let (a, end) = array_of(items, cast, at);
            let (b, fin) = array_of(others, cast, bt);
            lemma_operator(c, d, operator, a, b, Seq::empty(), p, q, n, count(p, end));
            assert(c + " "@ + operator + " "@ + a + Seq::<char>::empty() =~= c + " "@ + operator
                + " "@ + a);
            assert(d + " "@ + operator + " "@ + b + Seq::<char>::empty() =~= d + " "@ + operator
                + " "@ + b);
        },
        _ => {},
    }
}

proof fn lemma_membership(
    c: Seq<char>,
    d: Seq<char>,
    column: Seq<char>,
    column_type: Option<Seq<char>>,
    op: Seq<char>,
    x: JsonV,
    y: JsonV,
    p: BindsV,
    q: BindsV,
    at: BindsV,
    bt: BindsV,
)
    requires
        alike(x, y),
        in_step(p, q, at, bt),
        matched(c, d, p, q, count(p, at), count(p, at)),
    ensures
        same_sql(
            membership_sql(c, column, column_type, op, x, at),
            membership_sql(d, column, column_type, op, y, bt),
            p,
            q,
            count(p, at),
        ),
{
    match (x, y) {
        (JsonV::Array(items), JsonV::Array(others)) => {
            let n = count(p, at);
            lemma_text("false"@, p, q, n);
            lemma_text("true"@, p, q, n);
            if items.len() > 0 {
                let none = Seq::<Seq<char>>::empty();
                lemma_list(items, others, column_type, 0, none, none, p, q, at, bt, n);
                let (xs, end) = crate::comparison::members_from(items, column_type, 0, none, at);
                let (ys, fin) = crate::comparison::members_from(others, column_type, 0, none, bt);
                let hi = count(p, end);
                lemma_listed_order(xs, ys, p, q, n, hi);
                lemma_joined(xs, ys, ", "@, p, q, n, hi);
                let word = if op == "_in"@ {
                    "IN"@
                } else {
                    "NOT IN"@
                };
                let (a, b) = (joined(xs, ", "@), joined(ys, ", "@));
                let middle = " "@ + word + " ("@;
                lemma_compared(Seq::empty(), c, d, middle, a, b, ")"@, p, q, n, n, hi);
                assert(c + " "@ + word + " ("@ + a + ")"@ =~= Seq::<char>::empty() + c + middle + a
                    + ")"@);
                assert(d + " "@ + word + " ("@ + b + ")"@ =~= Seq::<char>::empty() + d + middle + b
                    + ")"@);
            }
        },
        _ => {},
    }
}

proof fn lemma_direct(
    words: Vocabulary,
    c: Seq<char>,
    d: Seq<char>,
    column: Seq<char>,
    column_type: Option<Seq<char>>,
    op: Seq<char>,
    x: JsonV,
    y: JsonV,
    p: BindsV,
    q: BindsV,
    at: BindsV,
    bt: BindsV,
)
    requires
        alike(x, y),
        decisive(op, x) ==> x == y,
        in_step(p, q, at, bt),
        matched(c, d, p, q, count(p, at), count(p, at)),
    ensures
        same_sql(
            direct_comparison(words, c, column, column_type, op, x, at),
            direct_comparison(words, d, column, column_type, op, y, bt),
            p,
            q,
            count(p, at),
        ),
{
    let n = count(p, at);
    lemma_hole(p, q, at, bt, x, y);
    if crate::lookup::paired(words.spatial@, op) is Some {
        let function = crate::lookup::paired(words.spatial@, op)->0;
        lemma_spatial(c, d, column_type, function, op, x, y, p, q, at, bt);
    } else if crate::lookup::named(words.trees@, op) is Some {
        let tree = crate::lookup::named(words.trees@, op)->0;
        if crate::text::has_suffix(tree.cast@, "[]"@) {
            lemma_array_sql(
                c,
                d,
                column,
                op,
                tree.operator@,
                tree.cast@,
                "\" takes a list"@,
                x,
                y,
                p,
                q,
                at,
                bt,
            );
        } else {
            let (a, b) = (placeholder(at), placeholder(bt));
            let (o, t) = (tree.operator@, "::"@ + tree.cast@);
            lemma_operator(c, d, o, a, b, t, p, q, n, n + 1);
            assert(c + " "@ + o + " "@ + a + "::"@ + tree.cast@ =~= c + " "@ + o + " "@ + a + t);
            assert(d + " "@ + o + " "@ + b + "::"@ + tree.cast@ =~= d + " "@ + o + " "@ + b + t);
        }
    } else if crate::comparison::path_function(op) is Some {
        lemma_compared(
            crate::comparison::path_function(op)->0 + "("@,
            c,
            d,
            ", "@,
            placeholder(at),
            placeholder(bt),
            "::jsonpath)"@,
            p,
            q,
            n,
            n,
            n + 1,
        );
    } else if crate::comparison::binary_operator(op) is Some {
        lemma_hole(p, q, at, bt, as_document(x), as_document(y));
        let operator = crate::comparison::binary_operator(op)->0;
        let cast = if crate::comparison::is_containment(op) {
            "::jsonb"@
        } else if op == "_has_key"@ {
            "::text"@
        } else {
            inferred_cast(x, column_type)
        };
        lemma_operator(
            c,
            d,
            operator,
            placeholder(at),
            placeholder(bt),
            cast,
            p,
            q,
            n,
            n + 1,
        );
        assert(inferred_cast(x, column_type) == inferred_cast(y, column_type));
        assert(binary_sql(c, column_type, op, operator, x, at).0 == c + " "@ + operator + " "@
            + placeholder(at) + cast);
        assert(binary_sql(d, column_type, op, operator, y, bt).0 == d + " "@ + operator + " "@
            + placeholder(bt) + cast);
    } else if op == "_is_null"@ {
        lemma_text(" IS NULL"@, p, q, n);
        lemma_text(" IS NOT NULL"@, p, q, n);
        lemma_then(c, d, " IS NULL"@, " IS NULL"@, p, q, (n, n), (n, n), n, n);
        lemma_then(c, d, " IS NOT NULL"@, " IS NOT NULL"@, p, q, (n, n), (n, n), n, n);
    } else if op == "_in"@ || op == "_nin"@ {
        lemma_membership(c, d, column, column_type, op, x, y, p, q, at, bt);
    } else if op == "_has_keys_any"@ || op == "_has_keys_all"@ {
        lemma_array_sql(
            c,
            d,
            column,
            op,
            if op == "_has_keys_any"@ {
                "?|"@
            } else {
                "?&"@
            },
            "text[]"@,
            "\" requires a list of keys"@,
            x,
            y,
            p,
            q,
            at,
            bt,
        );
    }
}

/// A comparison writes none of what it compares with: with operands that are
/// alike it is one template, in which each value it binds has its hole and no
/// other has one, written after whichever state it starts from. It is refused
/// alike, too.
pub proof fn law_comparison_is_a_template(
    words: Vocabulary,
    c: Seq<char>,
    d: Seq<char>,
    column: Seq<char>,
    column_type: Option<Seq<char>>,
    op: Seq<char>,
    x: JsonV,
    y: JsonV,
    p: BindsV,
    q: BindsV,
    at: BindsV,
    bt: BindsV,
)
    requires
        alike(x, y),
        decisive(op, x) ==> x == y,
        in_step(p, q, at, bt),
        matched(c, d, p, q, count(p, at), count(p, at)),
    ensures
        same_sql(
            comparison(words, c, column, column_type, op, x, at),
            comparison(words, d, column, column_type, op, y, bt),
            p,
            q,
            count(p, at),
        ),
    decreases x, 0nat,
{
    let n = count(p, at);
    if op == "_cast"@ {
        match (x, y) {
            (JsonV::Object(casts), JsonV::Object(others)) => {
                let none = Seq::<Seq<char>>::empty();
                lemma_casts(words, c, d, column, casts, others, 0, none, none, p, q, at, bt, n);
                let r = casts_from(words, c, column, casts, 0, none, at);
                let s = casts_from(words, d, column, others, 0, none, bt);
                match (r, s) {
                    (Ok((xs, end)), Ok((ys, _))) => {
                        let hi = count(p, end);
                        lemma_listed_order(xs, ys, p, q, n, hi);
                        lemma_text("true"@, p, q, n);
                        lemma_joined(xs, ys, " AND "@, p, q, n, hi);
                        lemma_between(
                            "("@,
                            joined(xs, " AND "@),
                            joined(ys, " AND "@),
                            ")"@,
                            p,
                            q,
                            n,
                            hi,
                        );
                        if xs.len() == 1 {
                            assert(joined(xs, " AND "@) == xs[0]);
                            assert(joined(ys, " AND "@) == ys[0]);
                        }
                        assert(matched(all_of(xs), all_of(ys), p, q, n, hi));
                    },
                    _ => {},
                }
            },
            _ => {},
        }
    } else {
        lemma_direct(words, c, d, column, column_type, op, x, y, p, q, at, bt);
    }
}

proof fn lemma_casts(
    words: Vocabulary,
    c: Seq<char>,
    d: Seq<char>,
    column: Seq<char>,
    casts: Seq<(Seq<char>, JsonV)>,
    others: Seq<(Seq<char>, JsonV)>,
    i: nat,
    xs: Seq<Seq<char>>,
    ys: Seq<Seq<char>>,
    p: BindsV,
    q: BindsV,
    at: BindsV,
    bt: BindsV,
    lo: nat,
)
    requires
        alike_entries(casts, others),
        in_step(p, q, at, bt),
        lo <= count(p, at),
        matched(c, d, p, q, lo, lo),
        listed(xs, ys, p, q, lo, count(p, at)),
    ensures
        same_parts(
            casts_from(words, c, column, casts, i, xs, at),
            casts_from(words, d, column, others, i, ys, bt),
            p,
            q,
            lo,
        ),
    decreases casts, casts.len() - i,
{
    if i < casts.len() {
        assert(casts[i as int].0 == others[i as int].0);
        assert(alike(casts[i as int].1, others[i as int].1));
        match cast_type(casts[i as int].0) {
            None => {},
            Some(t) => {
                match (casts[i as int].1, others[i as int].1) {
                    (JsonV::Object(ops), JsonV::Object(more)) => {
                        let (e, f) = (c + "::"@ + t, d + "::"@ + t);
                        lemma_between(Seq::empty(), c, d, "::"@ + t, p, q, lo, lo);
                        assert(e =~= Seq::<char>::empty() + c + ("::"@ + t));
                        assert(f =~= Seq::<char>::empty() + d + ("::"@ + t));
                        lemma_comparisons(
                            words,
                            e,
                            f,
                            column,
                            Some(t),
                            ops,
                            more,
                            0,
                            xs,
                            ys,
                            p,
                            q,
                            at,
                            bt,
                            lo,
                        );
                        let r = comparisons_from(words, e, column, Some(t), ops, 0, xs, at);
                        let s = comparisons_from(words, f, column, Some(t), more, 0, ys, bt);
                        match (r, s) {
                            (Ok((x1, mid)), Ok((y1, nid))) => {
                                lemma_listed_order(x1, y1, p, q, lo, count(p, mid));
                                lemma_casts(
                                    words,
                                    c,
                                    d,
                                    column,
                                    casts,
                                    others,
                                    i + 1,
                                    x1,
                                    y1,
                                    p,
                                    q,
                                    mid,
                                    nid,
                                    lo,
                                );
                            },
                            _ => {},
                        }
                    },
                    _ => {
                        lemma_casts(
                            words,
                            c,
                            d,
                            column,
                            casts,
                            others,
                            i + 1,
                            xs,
                            ys,
                            p,
                            q,
                            at,
                            bt,
                            lo,
                        );
                    },
                }
            },
        }
    }
}

proof fn lemma_comparisons(
    words: Vocabulary,
    c: Seq<char>,
    d: Seq<char>,
    column: Seq<char>,
    column_type: Option<Seq<char>>,
    ops: Seq<(Seq<char>, JsonV)>,
    others: Seq<(Seq<char>, JsonV)>,
    i: nat,
    xs: Seq<Seq<char>>,
    ys: Seq<Seq<char>>,
    p: BindsV,
    q: BindsV,
    at: BindsV,
    bt: BindsV,
    lo: nat,
)
    requires
        alike_entries(ops, others),
        in_step(p, q, at, bt),
        lo <= count(p, at),
        matched(c, d, p, q, lo, lo),
        listed(xs, ys, p, q, lo, count(p, at)),
    ensures
        same_parts(
            comparisons_from(words, c, column, column_type, ops, i, xs, at),
            comparisons_from(words, d, column, column_type, others, i, ys, bt),
            p,
            q,
            lo,
        ),
    decreases ops, ops.len() - i,
{
    if i < ops.len() {
        let (op, x) = ops[i as int];
        let y = others[i as int].1;
        let n = count(p, at);
        assert(ops[i as int].0 == others[i as int].0);
        lemma_weaken(c, d, p, q, lo, lo, n);
        law_comparison_is_a_template(words, c, d, column, column_type, op, x, y, p, q, at, bt);
        let r = comparison(words, c, column, column_type, op, x, at);
        let s = comparison(words, d, column, column_type, op, y, bt);
        match (r, s) {
            (Ok((a, mid)), Ok((b, nid))) => {
                lemma_listed_push(xs, ys, a, b, p, q, lo, n, count(p, mid));
                lemma_comparisons(
                    words,
                    c,
                    d,
                    column,
                    column_type,
                    ops,
                    others,
                    i + 1,
                    xs.push(a),
                    ys.push(b),
                    p,
                    q,
                    mid,
                    nid,
                    lo,
                );
            },
            _ => {},
        }
    }
}

// ---------------------------------------------------------------------------
// Expressions
// ---------------------------------------------------------------------------

/// Whether two states of compiling came of two others by binding as many
/// values, and gave out as many aliases.
pub open spec fn level(p: BindsV, q: BindsV, at: CursorV, bt: CursorV) -> bool {
    in_step(p, q, at.binds, bt.binds) && at.aliases == bt.aliases
}

/// Whether two expressions come of one template, if they constrain anything,
/// or are refused alike.
pub open spec fn same_condition(r: ConditionV, s: ConditionV, p: BindsV, q: BindsV, n: nat) -> bool {
    match (r, s) {
        (Ok((a, end)), Ok((b, fin))) => {
            &&& level(p, q, end, fin)
            &&& n <= count(p, end.binds)
            &&& match (a, b) {
                (Some(a), Some(b)) => matched(
                    a,
                    b,
                    p,
                    q,
                    count(p, end.binds),
                    count(p, end.binds),
                ),
                (None, None) => true,
                _ => false,
            }
        },
        (Err((e, end)), Err((f, fin))) => e == f && level(p, q, end, fin),
        _ => false,
    }
}

/// The same of several conditions.
pub open spec fn same_conditions(
    r: ConditionsV,
    s: ConditionsV,
    p: BindsV,
    q: BindsV,
    n: nat,
) -> bool {
    match (r, s) {
        (Ok((xs, end)), Ok((ys, fin))) => {
            &&& level(p, q, end, fin)
            &&& n <= count(p, end.binds)
            &&& drawn(xs, ys, p, q, count(p, end.binds))
        },
        (Err((e, end)), Err((f, fin))) => e == f && level(p, q, end, fin),
        _ => false,
    }
}

/// The same of one condition.
pub open spec fn same_term(r: TermV, s: TermV, p: BindsV, q: BindsV, n: nat) -> bool {
    match (r, s) {
        (Ok((a, end)), Ok((b, fin))) => {
            &&& level(p, q, end, fin)
            &&& n <= count(p, end.binds)
            &&& matched(a, b, p, q, count(p, end.binds), count(p, end.binds))
        },
        (Err((e, end)), Err((f, fin))) => e == f && level(p, q, end, fin),
        _ => false,
    }
}

proof fn lemma_condition(
    x: JsonV,
    y: JsonV,
    scope: ScopeV,
    p: BindsV,
    q: BindsV,
    at: CursorV,
    bt: CursorV,
)
    requires
        alike(x, y),
        level(p, q, at, bt),
    ensures
        same_condition(
            condition(x, scope, at),
            condition(y, scope, bt),
            p,
            q,
            count(p, at.binds),
        ),
    decreases rank(scope), x, 1nat,
{
    match (x, y) {
        (JsonV::Object(entries), JsonV::Object(others)) => {
            let none = Seq::<Seq<char>>::empty();
            lemma_entries(entries, others, 0, scope, none, none, p, q, at, bt);
            let r = entries_from(entries, 0, scope, none, at);
            let s = entries_from(others, 0, scope, none, bt);
            match (r, s) {
                (Ok((xs, end)), Ok((ys, _))) => {
                    lemma_drawn_joined(xs, ys, " AND "@, p, q, count(p, end.binds));
                },
                _ => {},
            }
        },
        _ => {},
    }
}

proof fn lemma_entries(
    entries: Seq<(Seq<char>, JsonV)>,
    others: Seq<(Seq<char>, JsonV)>,
    i: nat,
    scope: ScopeV,
    xs: Seq<Seq<char>>,
    ys: Seq<Seq<char>>,
    p: BindsV,
    q: BindsV,
    at: CursorV,
    bt: CursorV,
)
    requires
        alike_entries(entries, others),
        level(p, q, at, bt),
        drawn(xs, ys, p, q, count(p, at.binds)),
    ensures
        same_conditions(
            entries_from(entries, i, scope, xs, at),
            entries_from(others, i, scope, ys, bt),
            p,
            q,
            count(p, at.binds),
        ),
    decreases rank(scope), entries, entries.len() - i,
{
    if i < entries.len() {
        let (key, x) = entries[i as int];
        let y = others[i as int].1;
        assert(entries[i as int].0 == others[i as int].0);
        lemma_entry(key, x, y, scope, xs, ys, p, q, at, bt);
        let r = entry_condition(key, x, scope, xs, at);
        let s = entry_condition(key, y, scope, ys, bt);
        match (r, s) {
            (Ok((more, mid)), Ok((few, nid))) => {
                lemma_entries(entries, others, i + 1, scope, more, few, p, q, mid, nid);
            },
            _ => {},
        }
    }
}

proof fn lemma_entry(
    key: Seq<char>,
    x: JsonV,
    y: JsonV,
    scope: ScopeV,
    xs: Seq<Seq<char>>,
    ys: Seq<Seq<char>>,
    p: BindsV,
    q: BindsV,
    at: CursorV,
    bt: CursorV,
)
    requires
        alike(x, y),
        level(p, q, at, bt),
        drawn(xs, ys, p, q, count(p, at.binds)),
    ensures
        same_conditions(
            entry_condition(key, x, scope, xs, at),
            entry_condition(key, y, scope, ys, bt),
            p,
            q,
            count(p, at.binds),
        ),
    decreases rank(scope), x, 3nat,
{
    let n = count(p, at.binds);
    if key == "_and"@ || key == "_or"@ {
        match (x, y) {
            (JsonV::Array(members), JsonV::Array(others)) => {
                let none = Seq::<Seq<char>>::empty();
                lemma_members(members, others, 0, scope, none, none, p, q, at, bt);
                let r = members_from(members, 0, scope, none, at);
                let s = members_from(others, 0, scope, none, bt);
                match (r, s) {
                    (Ok((inner, end)), Ok((outer, _))) => {
                        let hi = count(p, end.binds);
                        lemma_drawn_more(xs, ys, p, q, n, hi);
                        if inner.len() == 0 {
                            lemma_text("false"@, p, q, hi);
                            lemma_drawn_push(xs, ys, "false"@, "false"@, p, q, hi, hi);
                        } else {
                            let joiner = if key == "_and"@ {
                                " AND "@
                            } else {
                                " OR "@
                            };
                            lemma_drawn_joined(inner, outer, joiner, p, q, hi);
                            let (a, b) = (joined(inner, joiner), joined(outer, joiner));
                            lemma_between("("@, a, b, ")"@, p, q, hi, hi);
                            lemma_drawn_push(
                                xs,
                                ys,
                                "("@ + a + ")"@,
                                "("@ + b + ")"@,
                                p,
                                q,
                                hi,
                                hi,
                            );
                        }
                    },
                    _ => {},
                }
            },
            _ => {},
        }
    } else if key == "_not"@ {
        lemma_condition(x, y, scope, p, q, at, bt);
        match (condition(x, scope, at), condition(y, scope, bt)) {
            (Ok((Some(a), end)), Ok((Some(b), _))) => {
                let hi = count(p, end.binds);
                lemma_between("NOT ("@, a, b, ")"@, p, q, hi, hi);
                lemma_drawn_push(
                    xs,
                    ys,
                    "NOT ("@ + a + ")"@,
                    "NOT ("@ + b + ")"@,
                    p,
                    q,
                    n,
                    hi,
                );
            },
            (Ok((None, end)), Ok((None, _))) => {
                lemma_drawn_more(xs, ys, p, q, n, count(p, end.binds));
            },
            _ => {},
        }
    } else if key == PERMISSION@ {
        lemma_condition(x, y, scope.system(), p, q, at, bt);
        match (condition(x, scope.system(), at), condition(y, scope.system(), bt)) {
            (Ok((Some(a), end)), Ok((Some(b), _))) => {
                lemma_drawn_push(xs, ys, a, b, p, q, n, count(p, end.binds));
            },
            (Ok((None, end)), Ok((None, _))) => {
                lemma_drawn_more(xs, ys, p, q, n, count(p, end.binds));
            },
            _ => {},
        }
    } else if key == "_exists"@ {
        lemma_table_exists(x, y, scope, p, q, at, bt);
        match (table_exists(x, scope, at), table_exists(y, scope, bt)) {
            (Ok((a, end)), Ok((b, _))) => {
                lemma_drawn_push(xs, ys, a, b, p, q, n, count(p, end.binds));
            },
            _ => {},
        }
    } else if scope.relationship(key) is Some {
        let (name, field) = scope.relationship(key)->0;
        lemma_related(name, field, x, y, scope, p, q, at, bt);
        match (
            related_exists(name, field, x, scope, at),
            related_exists(name, field, y, scope, bt),
        ) {
            (Ok((a, end)), Ok((b, _))) => {
                lemma_drawn_push(xs, ys, a, b, p, q, n, count(p, end.binds));
            },
            _ => {},
        }
    } else if aggregated(scope, key) is Some {
        let (name, field) = aggregated(scope, key)->0;
        lemma_aggregate_predicate(name, field, x, y, scope, p, q, at, bt);
        match (
            aggregate_predicate(name, field, x, scope, at),
            aggregate_predicate(name, field, y, scope, bt),
        ) {
            (Ok((a, end)), Ok((b, _))) => {
                lemma_drawn_push(xs, ys, a, b, p, q, n, count(p, end.binds));
            },
            _ => {},
        }
    } else {
        match (x, y) {
            (JsonV::Object(ops), JsonV::Object(others)) => {
                lemma_operators(ops, others, 0, key, scope, xs, ys, p, q, at, bt);
            },
            _ => {
                lemma_hole(p, q, at.binds, bt.binds, x, y);
                let column = scope.column(key);
                let (c, d) = (placeholder(at.binds), placeholder(bt.binds));
                lemma_between(column + " = "@, c, d, Seq::empty(), p, q, n, n + 1);
                let (a, b) = (column + " = "@ + c, column + " = "@ + d);
                assert(a =~= (column + " = "@) + c + Seq::<char>::empty());
                assert(b =~= (column + " = "@) + d + Seq::<char>::empty());
                lemma_weaken(a, b, p, q, n, n + 1, n + 1);
                lemma_drawn_push(xs, ys, a, b, p, q, n, n + 1);
            },
        }
    }
}

proof fn lemma_members(
    members: Seq<JsonV>,
    others: Seq<JsonV>,
    i: nat,
    scope: ScopeV,
    xs: Seq<Seq<char>>,
    ys: Seq<Seq<char>>,
    p: BindsV,
    q: BindsV,
    at: CursorV,
    bt: CursorV,
)
    requires
        alike(JsonV::Array(members), JsonV::Array(others)),
        level(p, q, at, bt),
        drawn(xs, ys, p, q, count(p, at.binds)),
    ensures
        same_conditions(
            members_from(members, i, scope, xs, at),
            members_from(others, i, scope, ys, bt),
            p,
            q,
            count(p, at.binds),
        ),
    decreases rank(scope), members, members.len() - i,
{
    if i < members.len() {
        let (x, y) = (members[i as int], others[i as int]);
        assert(alike(x, y));
        let n = count(p, at.binds);
        lemma_condition(x, y, scope, p, q, at, bt);
        match (condition(x, scope, at), condition(y, scope, bt)) {
            (Ok((Some(a), mid)), Ok((Some(b), nid))) => {
                lemma_drawn_push(xs, ys, a, b, p, q, n, count(p, mid.binds));
                lemma_members(
                    members,
                    others,
                    i + 1,
                    scope,
                    xs.push(a),
                    ys.push(b),
                    p,
                    q,
                    mid,
                    nid,
                );
            },
            (Ok((None, mid)), Ok((None, nid))) => {
                lemma_drawn_more(xs, ys, p, q, n, count(p, mid.binds));
                lemma_members(members, others, i + 1, scope, xs, ys, p, q, mid, nid);
            },
            _ => {},
        }
    }
}

proof fn lemma_operators(
    ops: Seq<(Seq<char>, JsonV)>,
    others: Seq<(Seq<char>, JsonV)>,
    i: nat,
    key: Seq<char>,
    scope: ScopeV,
    xs: Seq<Seq<char>>,
    ys: Seq<Seq<char>>,
    p: BindsV,
    q: BindsV,
    at: CursorV,
    bt: CursorV,
)
    requires
        alike_entries(ops, others),
        level(p, q, at, bt),
        drawn(xs, ys, p, q, count(p, at.binds)),
    ensures
        same_conditions(
            operators_from(ops, i, key, scope, xs, at),
            operators_from(others, i, key, scope, ys, bt),
            p,
            q,
            count(p, at.binds),
        ),
    decreases ops.len() - i,
{
    if i < ops.len() {
        let (op, x) = ops[i as int];
        let y = others[i as int].1;
        assert(ops[i as int].0 == others[i as int].0);
        let n = count(p, at.binds);
        let column = scope.column(key);
        match column_operator(op) {
            Some(operator) => {
                assert(x == y);
                match scope.other_column(x, op) {
                    Ok(other) => {
                        let text = column + " "@ + operator + " "@ + other;
                        lemma_text(text, p, q, n);
                        lemma_drawn_push(xs, ys, text, text, p, q, n, n);
                        lemma_operators(
                            ops,
                            others,
                            i + 1,
                            key,
                            scope,
                            xs.push(text),
                            ys.push(text),
                            p,
                            q,
                            at,
                            bt,
                        );
                    },
                    Err(_) => {},
                }
            },
            None => {
                let t = scope.column_type(key);
                lemma_text(column, p, q, n);
                law_comparison_is_a_template(
                    scope.words,
                    column,
                    column,
                    key,
                    t,
                    op,
                    x,
                    y,
                    p,
                    q,
                    at.binds,
                    bt.binds,
                );
                match (
                    comparison(scope.words, column, key, t, op, x, at.binds),
                    comparison(scope.words, column, key, t, op, y, bt.binds),
                ) {
                    (Ok((a, end)), Ok((b, fin))) => {
                        let hi = count(p, end);
                        lemma_weaken(a, b, p, q, n, hi, hi);
                        lemma_drawn_push(xs, ys, a, b, p, q, n, hi);
                        lemma_operators(
                            ops,
                            others,
                            i + 1,
                            key,
                            scope,
                            xs.push(a),
                            ys.push(b),
                            p,
                            q,
                            CursorV { binds: end, aliases: at.aliases },
                            CursorV { binds: fin, aliases: bt.aliases },
                        );
                    },
                    _ => {},
                }
            },
        }
    }
}

/// Conditions with one more, in brackets, where there is one.
proof fn lemma_tied(
    a: Option<Seq<char>>,
    b: Option<Seq<char>>,
    xs: Seq<Seq<char>>,
    ys: Seq<Seq<char>>,
    p: BindsV,
    q: BindsV,
    before: nat,
    hi: nat,
)
    requires
        drawn(xs, ys, p, q, before),
        before <= hi,
        match (a, b) {
            (Some(a), Some(b)) => matched(a, b, p, q, hi, hi),
            (None, None) => true,
            _ => false,
        },
    ensures
        drawn(with_bracketed(xs, a), with_bracketed(ys, b), p, q, hi),
{
    match (a, b) {
        (Some(a), Some(b)) => {
            lemma_between("("@, a, b, ")"@, p, q, hi, hi);
            lemma_drawn_push(xs, ys, "("@ + a + ")"@, "("@ + b + ")"@, p, q, before, hi);
        },
        _ => {
            lemma_drawn_more(xs, ys, p, q, before, hi);
        },
    }
}

proof fn lemma_or_true(xs: Seq<Seq<char>>, ys: Seq<Seq<char>>, p: BindsV, q: BindsV, hi: nat)
    requires
        drawn(xs, ys, p, q, hi),
    ensures
        matched(or_true(xs), or_true(ys), p, q, hi, hi),
{
    lemma_text("true"@, p, q, hi);
    lemma_drawn_push(xs, ys, "true"@, "true"@, p, q, hi, hi);
    lemma_drawn_joined(xs.push("true"@), ys.push("true"@), " AND "@, p, q, hi);
    lemma_drawn_joined(xs, ys, " AND "@, p, q, hi);
}

proof fn lemma_related(
    name: Seq<char>,
    field: RelationshipField,
    x: JsonV,
    y: JsonV,
    scope: ScopeV,
    p: BindsV,
    q: BindsV,
    at: CursorV,
    bt: CursorV,
)
    requires
        alike(x, y),
        level(p, q, at, bt),
    ensures
        same_term(
            related_exists(name, field, x, scope, at),
            related_exists(name, field, y, scope, bt),
            p,
            q,
            count(p, at.binds),
        ),
    decreases rank(scope), x, 2nat,
{
    if scope.resolution is Some && field.relationship.plan is Ok && is_correlated(
        field.relationship.plan->Ok_0,
    ) {
        let plan = field.relationship.plan->Ok_0;
        let number = following(at.aliases);
        let alias = alias_of("pgrst_rel_"@, number);
        let child = child_of(scope, plan, alias, field);
        let s = CursorV { binds: at.binds, aliases: number };
        let t = CursorV { binds: bt.binds, aliases: number };
        lemma_condition(x, y, child, p, q, s, t);
        match (condition(x, child, s), condition(y, child, t)) {
            (Ok((a, mid)), Ok((b, nid))) => {
                let m = count(p, mid.binds);
                let tie = correlation_of(plan, scope, child);
                lemma_drawn_texts(tie, p, q, m);
                lemma_tied(a, b, tie, tie, p, q, m, m);
                let (xs, ys) = (with_bracketed(tie, a), with_bracketed(tie, b));
                let granted = match child.caller {
                    None => None,
                    Some(caller) => match caller.ruled(
                        plan.foreign_schema@,
                        plan.foreign_table@,
                        Verb::Select,
                    ).filter {
                        Ok(Some(predicate)) => Some(predicate@),
                        _ => None,
                    },
                };
                match granted {
                    None => {
                        lemma_exists(
                            source_of(plan, scope),
                            alias,
                            xs,
                            ys,
                            None,
                            None,
                            p,
                            q,
                            m,
                            m,
                        );
                    },
                    Some(predicate) => {
                        law_alike_to_itself(predicate);
                        lemma_condition(predicate, predicate, child.system(), p, q, mid, nid);
                        match (
                            condition(predicate, child.system(), mid),
                            condition(predicate, child.system(), nid),
                        ) {
                            (Ok((c, end)), Ok((d, _))) => {
                                lemma_exists(
                                    source_of(plan, scope),
                                    alias,
                                    xs,
                                    ys,
                                    c,
                                    d,
                                    p,
                                    q,
                                    m,
                                    count(p, end.binds),
                                );
                            },
                            _ => {},
                        }
                    },
                }
            },
            _ => {},
        }
    }
}

/// A subselect under `EXISTS`.
proof fn lemma_exists(
    source: Seq<char>,
    alias: Seq<char>,
    xs: Seq<Seq<char>>,
    ys: Seq<Seq<char>>,
    c: Option<Seq<char>>,
    d: Option<Seq<char>>,
    p: BindsV,
    q: BindsV,
    before: nat,
    hi: nat,
)
    requires
        drawn(xs, ys, p, q, before),
        before <= hi,
        match (c, d) {
            (Some(c), Some(d)) => matched(c, d, p, q, hi, hi),
            (None, None) => true,
            _ => false,
        },
    ensures
        matched(
            "EXISTS (SELECT 1 FROM "@ + source + " AS "@ + ident(alias) + " WHERE "@ + or_true(
                with_bracketed(xs, c),
            ) + ")"@,
            "EXISTS (SELECT 1 FROM "@ + source + " AS "@ + ident(alias) + " WHERE "@ + or_true(
                with_bracketed(ys, d),
            ) + ")"@,
            p,
            q,
            hi,
            hi,
        ),
{
    lemma_tied(c, d, xs, ys, p, q, before, hi);
    lemma_or_true(with_bracketed(xs, c), with_bracketed(ys, d), p, q, hi);
    lemma_between(
        "EXISTS (SELECT 1 FROM "@ + source + " AS "@ + ident(alias) + " WHERE "@,
        or_true(with_bracketed(xs, c)),
        or_true(with_bracketed(ys, d)),
        ")"@,
        p,
        q,
        hi,
        hi,
    );
}

proof fn lemma_table_exists(
    x: JsonV,
    y: JsonV,
    scope: ScopeV,
    p: BindsV,
    q: BindsV,
    at: CursorV,
    bt: CursorV,
)
    requires
        alike(x, y),
        level(p, q, at, bt),
    ensures
        same_term(
            table_exists(x, scope, at),
            table_exists(y, scope, bt),
            p,
            q,
            count(p, at.binds),
        ),
    decreases rank(scope), x, 2nat,
{
    lemma_alike_under(x, y, "_table"@);
    assert(exists_table(x, scope.qualified.0) == exists_table(y, scope.qualified.0));
    match exists_table(x, scope.qualified.0) {
        None => {},
        Some((schema, table)) => {
            let number = following(at.aliases);
            let alias = alias_of("pgrst_exists_"@, number);
            let typename = match scope.names.base(schema, table) {
                Some(name) => name,
                None => table,
            };
            let inner = ScopeV { caller: None, ..scope.entering(schema, table, alias, typename) };
            let s = CursorV { binds: at.binds, aliases: number };
            let t = CursorV { binds: bt.binds, aliases: number };
            let before = "EXISTS (SELECT 1 FROM "@ + ident2(schema, table) + " AS "@ + ident(alias)
                + " WHERE "@;
            let n = count(p, at.binds);
            lemma_text("true"@, p, q, n);
            lemma_between(before, "true"@, "true"@, ")"@, p, q, n, n);
            match (x, y) {
                (JsonV::Object(xs), JsonV::Object(ys)) => {
                    lemma_alike_place(xs, ys, "_where"@, 0);
                    let k = place_of(xs, "_where"@, 0);
                    if k < xs.len() {
                        assert(xs[k as int].0 == ys[k as int].0);
                        let (u, v) = (xs[k as int].1, ys[k as int].1);
                        lemma_condition(u, v, inner, p, q, s, t);
                        match (condition(u, inner, s), condition(v, inner, t)) {
                            (Ok((Some(a), end)), Ok((Some(b), _))) => {
                                let hi = count(p, end.binds);
                                lemma_between(before, a, b, ")"@, p, q, hi, hi);
                            },
                            (Ok((None, end)), Ok((None, _))) => {
                                let hi = count(p, end.binds);
                                lemma_text("true"@, p, q, hi);
                                lemma_between(before, "true"@, "true"@, ")"@, p, q, hi, hi);
                            },
                            _ => {},
                        }
                    }
                },
                _ => {},
            }
        },
    }
}

proof fn lemma_aggregate_predicate(
    name: Seq<char>,
    field: RelationshipField,
    x: JsonV,
    y: JsonV,
    scope: ScopeV,
    p: BindsV,
    q: BindsV,
    at: CursorV,
    bt: CursorV,
)
    requires
        alike(x, y),
        level(p, q, at, bt),
    ensures
        same_term(
            aggregate_predicate(name, field, x, scope, at),
            aggregate_predicate(name, field, y, scope, bt),
            p,
            q,
            count(p, at.binds),
        ),
    decreases rank(scope), x, 2nat,
{
    lemma_text("true"@, p, q, count(p, at.binds));
    match (x, y) {
        (JsonV::Object(over), JsonV::Object(others)) => {
            if scope.resolution is Some && field.relationship.plan is Ok {
                let plan = field.relationship.plan->Ok_0;
                let none = Seq::<Seq<char>>::empty();
                lemma_aggregates(
                    over,
                    others,
                    0,
                    name,
                    field,
                    plan,
                    scope,
                    none,
                    none,
                    p,
                    q,
                    at,
                    bt,
                );
                match (
                    aggregates_from(over, 0, name, field, plan, scope, none, at),
                    aggregates_from(others, 0, name, field, plan, scope, none, bt),
                ) {
                    (Ok((xs, end)), Ok((ys, _))) => {
                        let hi = count(p, end.binds);
                        lemma_text("true"@, p, q, hi);
                        lemma_drawn_joined(xs, ys, " AND "@, p, q, hi);
                        lemma_between(
                            "("@,
                            joined(xs, " AND "@),
                            joined(ys, " AND "@),
                            ")"@,
                            p,
                            q,
                            hi,
                            hi,
                        );
                    },
                    _ => {},
                }
            }
        },
        _ => {},
    }
}

proof fn lemma_aggregates(
    over: Seq<(Seq<char>, JsonV)>,
    others: Seq<(Seq<char>, JsonV)>,
    i: nat,
    name: Seq<char>,
    field: RelationshipField,
    plan: EmbedPlan,
    scope: ScopeV,
    xs: Seq<Seq<char>>,
    ys: Seq<Seq<char>>,
    p: BindsV,
    q: BindsV,
    at: CursorV,
    bt: CursorV,
)
    requires
        alike_entries(over, others),
        level(p, q, at, bt),
        drawn(xs, ys, p, q, count(p, at.binds)),
    ensures
        same_conditions(
            aggregates_from(over, i, name, field, plan, scope, xs, at),
            aggregates_from(others, i, name, field, plan, scope, ys, bt),
            p,
            q,
            count(p, at.binds),
        ),
    decreases rank(scope), over, over.len() - i,
{
    if i < over.len() {
        assert(over[i as int].0 == others[i as int].0);
        assert(alike(over[i as int].1, others[i as int].1));
        let function = over[i as int].0;
        match (over[i as int].1, others[i as int].1) {
            (JsonV::Object(spec), JsonV::Object(other)) => {
                lemma_aggregate(
                    function,
                    spec,
                    other,
                    name,
                    field,
                    plan,
                    scope,
                    xs,
                    ys,
                    p,
                    q,
                    at,
                    bt,
                );
                match (
                    aggregate_condition(function, spec, name, field, plan, scope, xs, at),
                    aggregate_condition(function, other, name, field, plan, scope, ys, bt),
                ) {
                    (Ok((more, mid)), Ok((few, nid))) => {
                        lemma_aggregates(
                            over,
                            others,
                            i + 1,
                            name,
                            field,
                            plan,
                            scope,
                            more,
                            few,
                            p,
                            q,
                            mid,
                            nid,
                        );
                    },
                    _ => {},
                }
            },
            _ => {
                lemma_aggregates(
                    over,
                    others,
                    i + 1,
                    name,
                    field,
                    plan,
                    scope,
                    xs,
                    ys,
                    p,
                    q,
                    at,
                    bt,
                );
            },
        }
    }
}

proof fn lemma_aggregate(
    function: Seq<char>,
    spec: Seq<(Seq<char>, JsonV)>,
    other: Seq<(Seq<char>, JsonV)>,
    name: Seq<char>,
    field: RelationshipField,
    plan: EmbedPlan,
    scope: ScopeV,
    xs: Seq<Seq<char>>,
    ys: Seq<Seq<char>>,
    p: BindsV,
    q: BindsV,
    at: CursorV,
    bt: CursorV,
)
    requires
        alike_entries(spec, other),
        level(p, q, at, bt),
        drawn(xs, ys, p, q, count(p, at.binds)),
    ensures
        same_conditions(
            aggregate_condition(function, spec, name, field, plan, scope, xs, at),
            aggregate_condition(function, other, name, field, plan, scope, ys, bt),
            p,
            q,
            count(p, at.binds),
        ),
    decreases rank(scope), spec, 0nat,
{
    let (x, y) = (JsonV::Object(spec), JsonV::Object(other));
    lemma_alike_under(x, y, "predicate"@);
    lemma_alike_place(spec, other, "filter"@, 0);
    if x.present("predicate"@) is Some {
        let number = following(at.aliases);
        let alias = alias_of("pgrst_agg_"@, number);
        let child = child_of(scope, plan, alias, field);
        let s = CursorV { binds: at.binds, aliases: number };
        let t = CursorV { binds: bt.binds, aliases: number };
        let k = place_of(spec, "filter"@, 0);
        let n = count(p, at.binds);
        let filtered = k < spec.len() && !(spec[k as int].1 is Null);
        if k < spec.len() {
            assert(spec[k as int].0 == other[k as int].0);
            assert(alike(spec[k as int].1, other[k as int].1));
        }
        let r: ConditionV = if filtered {
            condition(spec[k as int].1, child, s)
        } else {
            Ok((None, s))
        };
        let o: ConditionV = if filtered {
            condition(other[k as int].1, child, t)
        } else {
            Ok((None, t))
        };
        if filtered {
            lemma_condition(spec[k as int].1, other[k as int].1, child, p, q, s, t);
        }
        assert(same_condition(r, o, p, q, n));
        lemma_aggregate_of(name, function, x, y, child);
        match (r, o) {
            (Ok((a, mid)), Ok((b, nid))) => {
                match aggregate_of(name, function, x, child) {
                    Err(_) => {},
                    Ok((aggregate, operand_type)) => {
                        let m = count(p, mid.binds);
                        let tie = correlation_of(plan, scope, child);
                        lemma_drawn_texts(tie, p, q, m);
                        lemma_tied(a, b, tie, tie, p, q, m, m);
                        let (u, v) = (with_bracketed(tie, a), with_bracketed(tie, b));
                        lemma_or_true(u, v, p, q, m);
                        let before = "(SELECT "@ + aggregate + " FROM "@ + source_of(plan, scope)
                            + " AS "@ + ident(alias) + " WHERE "@;
                        lemma_between(before, or_true(u), or_true(v), ")"@, p, q, m, m);
                        let (c, d) = (before + or_true(u) + ")"@, before + or_true(v) + ")"@);
                        match (x.present("predicate"@)->0, y.present("predicate"@)->0) {
                            (JsonV::Object(ops), JsonV::Object(others)) => {
                                lemma_drawn_more(xs, ys, p, q, n, m);
                                lemma_drawn_listed(xs, ys, p, q, m);
                                lemma_comparisons(
                                    scope.words,
                                    c,
                                    d,
                                    function,
                                    Some(operand_type),
                                    ops,
                                    others,
                                    0,
                                    xs,
                                    ys,
                                    p,
                                    q,
                                    mid.binds,
                                    nid.binds,
                                    m,
                                );
                                match (
                                    comparisons_from(
                                        scope.words,
                                        c,
                                        function,
                                        Some(operand_type),
                                        ops,
                                        0,
                                        xs,
                                        mid.binds,
                                    ),
                                    comparisons_from(
                                        scope.words,
                                        d,
                                        function,
                                        Some(operand_type),
                                        others,
                                        0,
                                        ys,
                                        nid.binds,
                                    ),
                                ) {
                                    (Ok((more, end)), Ok((few, _))) => {
                                        let hi = count(p, end);
                                        lemma_listed_order(more, few, p, q, m, hi);
                                        lemma_listed_drawn(more, few, p, q, m, hi, hi);
                                    },
                                    _ => {},
                                }
                            },
                            _ => {},
                        }
                    },
                }
            },
            _ => {},
        }
    }
}

/// What an aggregate is over is decisive.
proof fn lemma_aggregate_of(
    name: Seq<char>,
    function: Seq<char>,
    x: JsonV,
    y: JsonV,
    child: ScopeV,
)
    requires
        alike(x, y),
    ensures
        aggregate_of(name, function, x, child) == aggregate_of(name, function, y, child),
{
    lemma_alike_under(x, y, "arguments"@);
    lemma_alike_under(x, y, "distinct"@);
}

/// A boolean expression, however deep, writes none of what it compares with.
/// Two that differ in nothing else, compiled after two states that gave out as
/// many aliases, come of one template: its holes are those of values they bind,
/// and each is filled by the placeholder of its value. They bind as many
/// values, give out as many aliases and are refused alike.
pub proof fn law_condition_is_a_template(
    x: JsonV,
    y: JsonV,
    scope: ScopeV,
    at: CursorV,
    bt: CursorV,
)
    requires
        alike(x, y),
        at.aliases == bt.aliases,
    ensures
        same_condition(condition(x, scope, at), condition(y, scope, bt), at.binds, bt.binds, 0),
{
    lemma_condition(x, y, scope, at.binds, bt.binds, at, bt);
}

/// No operand stands in the SQL of an expression: with operands of the same
/// kinds in place of its own, the SQL is the same to the letter, and so is a
/// refusal.
pub proof fn law_operands_are_not_written(x: JsonV, y: JsonV, scope: ScopeV, at: CursorV)
    requires
        alike(x, y),
    ensures
        match (condition(x, scope, at), condition(y, scope, at)) {
            (Ok((a, end)), Ok((b, fin))) => {
                &&& a == b
                &&& end.binds.next == fin.binds.next
                &&& end.binds.values.len() == fin.binds.values.len()
                &&& end.aliases == fin.aliases
            },
            (Err((e, _)), Err((f, _))) => e == f,
            _ => false,
        },
{
    law_condition_is_a_template(x, y, scope, at, at);
    match (condition(x, scope, at), condition(y, scope, at)) {
        (Ok((Some(a), end)), Ok((Some(b), _))) => {
            let n = count(at.binds, end.binds);
            let t = choose|t: Seq<Piece>| #[trigger] reads(t, a, b, at.binds, at.binds, n, n);
            assert(a == rendered(t, at.binds) && b == rendered(t, at.binds));
        },
        _ => {},
    }
}

/// Whether a text is a template whose every hole is filled by the placeholder
/// of a value that was bound between two states, the `k`th hole by that of the
/// `k`th value.
pub open spec fn stands_for(sql: Seq<char>, from: BindsV, to: BindsV) -> bool {
    exists|template: Seq<Piece>|
        {
            &&& sql == #[trigger] rendered(template, from)
            &&& forall|i: int|
                0 <= i < template.len() && (#[trigger] template[i]) is Hole
                    ==> template[i]->Hole_0 < to.values.len() - from.values.len()
        }
}

/// The placeholders of an expression stand for its values: its SQL refers to
/// values by their numbers alone, and the number that is `k` after the first is
/// that of the `k`th value the expression adds to those bound before it.
pub proof fn law_placeholders_stand_for_values(value: JsonV, scope: ScopeV, at: CursorV)
    ensures
        match condition(value, scope, at) {
            Ok((sql, end)) => {
                &&& grown(at.binds, end.binds)
                &&& sql is Some ==> stands_for(sql->0, at.binds, end.binds)
            },
            Err((_, end)) => grown(at.binds, end.binds),
        },
{
    law_alike_to_itself(value);
    law_condition_binds(value, scope, at);
    law_condition_is_a_template(value, value, scope, at, at);
    match condition(value, scope, at) {
        Ok((Some(sql), end)) => {
            let n = count(at.binds, end.binds);
            let t = choose|t: Seq<Piece>| #[trigger] reads(t, sql, sql, at.binds, at.binds, n, n);
            assert(sql == rendered(t, at.binds));
        },
        _ => {},
    }
}

} // verus!
