//! What typed filters, orders and rows stand for.

use crate::catalog::Table;
use crate::input::filter::{
    combined, negated, statements, BooleanFilterInput, FloatFilterInput, IntFilterInput,
    StringFilterInput, UuidFilterInput,
};
use crate::input::mutation::InputValue;
use crate::input::order::{
    direction_named, direction_word, term_of, NullsOrder, OrderByField, OrderDirection,
};
use crate::json::{JsonV, NumberV};
use crate::plan::{typed_term, typed_tree, FieldV, OrderTermV, TypedTreeV};
use crate::request::{
    Direction, FilterV, IsValue, LogicOperator, LogicTreeV, OperationV, OrderNulls, QuantOperator,
};
use crate::resolver::mutation::{json_of, returned};
use crate::resolver::query::{
    alternatives, field_tree, field_trees, kept, listed, listed_trees, logic_tree, ordered,
    range_of, FieldFilter, TableFilter,
};
use crate::text::{decimal_int, texts};
use vstd::prelude::*;

verus! {

// ---------------------------------------------------------------------------
// Comparisons
// ---------------------------------------------------------------------------

/// A comparison of a column with a value, where there is one to compare with.
pub open spec fn compares(
    field: Seq<char>,
    negated: bool,
    op: QuantOperator,
    value: Option<Seq<char>>,
) -> Seq<FilterV> {
    if value is Some {
        seq![
            FilterV {
                field,
                negated,
                operation: OperationV::Quant { op, quantifier: None, value: value->0 },
            },
        ]
    } else {
        Seq::empty()
    }
}

/// The text of what was given, where something was.
pub open spec fn worded(before: Seq<char>, given: Option<String>, after: Seq<char>) -> Option<
    Seq<char>,
> {
    if given is Some {
        Some(before + given->0@ + after)
    } else {
        None
    }
}

/// The decimal text of the number that was given, where one was.
pub open spec fn counted(given: Option<i64>) -> Option<Seq<char>> {
    if given is Some {
        Some(decimal_int(given->0 as int))
    } else {
        None
    }
}

/// A column is null, or is not, where either is asked.
pub open spec fn nulls(field: Seq<char>, wanted: Option<bool>) -> Seq<FilterV> {
    if wanted is Some {
        seq![
            FilterV { field, negated: !(wanted->0), operation: OperationV::Is(IsValue::Null) },
        ]
    } else {
        Seq::empty()
    }
}

/// A column is one of those listed, where a list is given.
pub open spec fn member(field: Seq<char>, list: Option<Seq<Seq<char>>>) -> Seq<FilterV> {
    if list is Some {
        seq![FilterV { field, negated: false, operation: OperationV::In(list->0) }]
    } else {
        Seq::empty()
    }
}

/// Each part of a filter on texts is its own comparison: equal, not equal, like
/// with and without regard to case, one of a list, null, and like with what may
/// stand after, before or on both sides.
pub proof fn law_text_filters_compare(filter: StringFilterInput, field: Seq<char>)
    ensures
        filter.asked(field) == compares(
            field,
            false,
            QuantOperator::Equal,
            worded(Seq::empty(), filter.eq, Seq::empty()),
        ) + compares(
            field,
            true,
            QuantOperator::Equal,
            worded(Seq::empty(), filter.neq, Seq::empty()),
        ) + compares(
            field,
            false,
            QuantOperator::Like,
            worded(Seq::empty(), filter.like, Seq::empty()),
        ) + compares(
            field,
            false,
            QuantOperator::ILike,
            worded(Seq::empty(), filter.ilike, Seq::empty()),
        ) + member(
            field,
            if filter.in_list is Some {
                Some(texts(filter.in_list->0@))
            } else {
                None
            },
        ) + nulls(field, filter.is_null) + compares(
            field,
            false,
            QuantOperator::Like,
            worded(Seq::empty(), filter.starts_with, seq!['%']),
        ) + compares(
            field,
            false,
            QuantOperator::Like,
            worded(seq!['%'], filter.ends_with, Seq::empty()),
        ) + compares(
            field,
            false,
            QuantOperator::Like,
            worded(seq!['%'], filter.contains, seq!['%']),
        ),
{
    reveal_strlit("%");
    reveal_strlit("");
    assert("%"@ =~= seq!['%']);
    assert(""@ =~= Seq::<char>::empty());
    lemma_worded(filter.eq);
    lemma_worded(filter.neq);
    lemma_worded(filter.like);
    lemma_worded(filter.ilike);
}

proof fn lemma_worded(given: Option<String>)
    ensures
        worded(Seq::empty(), given, Seq::empty()) == crate::text::text_opt(given),
{
    if given is Some {
        assert(Seq::<char>::empty() + given->0@ + Seq::<char>::empty() =~= given->0@);
    }
}

/// Each part of a filter on whole numbers is its own comparison.
pub proof fn law_number_filters_compare(filter: IntFilterInput, field: Seq<char>)
    ensures
        filter.asked(field) == compares(field, false, QuantOperator::Equal, counted(filter.eq))
            + compares(field, true, QuantOperator::Equal, counted(filter.neq)) + compares(
            field,
            false,
            QuantOperator::GreaterThan,
            counted(filter.gt),
        ) + compares(field, false, QuantOperator::GreaterThanEqual, counted(filter.gte)) + compares(
            field,
            false,
            QuantOperator::LessThan,
            counted(filter.lt),
        ) + compares(field, false, QuantOperator::LessThanEqual, counted(filter.lte)) + member(
            field,
            if filter.in_list is Some {
                Some(
                    Seq::new(
                        filter.in_list->0@.len(),
                        |i: int| decimal_int(filter.in_list->0@[i] as int),
                    ),
                )
            } else {
                None
            },
        ) + nulls(field, filter.is_null),
{
    if filter.in_list is Some {
        assert(crate::input::filter::number_texts(filter.in_list->0@) =~= Seq::new(
            filter.in_list->0@.len(),
            |i: int| decimal_int(filter.in_list->0@[i] as int),
        ));
    }
}

/// Each part of a filter on other numbers is its own comparison.
pub proof fn law_fraction_filters_compare(filter: FloatFilterInput, field: Seq<char>)
    ensures
        filter.asked(field) == compares(
            field,
            false,
            QuantOperator::Equal,
            worded(Seq::empty(), filter.eq, Seq::empty()),
        ) + compares(
            field,
            true,
            QuantOperator::Equal,
            worded(Seq::empty(), filter.neq, Seq::empty()),
        ) + compares(
            field,
            false,
            QuantOperator::GreaterThan,
            worded(Seq::empty(), filter.gt, Seq::empty()),
        ) + compares(
            field,
            false,
            QuantOperator::GreaterThanEqual,
            worded(Seq::empty(), filter.gte, Seq::empty()),
        ) + compares(
            field,
            false,
            QuantOperator::LessThan,
            worded(Seq::empty(), filter.lt, Seq::empty()),
        ) + compares(
            field,
            false,
            QuantOperator::LessThanEqual,
            worded(Seq::empty(), filter.lte, Seq::empty()),
        ) + nulls(field, filter.is_null),
{
    lemma_worded(filter.eq);
    lemma_worded(filter.neq);
    lemma_worded(filter.gt);
    lemma_worded(filter.gte);
    lemma_worded(filter.lt);
    lemma_worded(filter.lte);
}

/// A filter on truths asks for the one it gives, and whether there is one.
pub proof fn law_truth_filters_compare(filter: BooleanFilterInput, field: Seq<char>)
    ensures
        filter.asked(field) == (if filter.eq is Some {
            seq![
                FilterV {
                    field,
                    negated: false,
                    operation: OperationV::Is(
                        if filter.eq->0 {
                            IsValue::True
                        } else {
                            IsValue::False
                        },
                    ),
                },
            ]
        } else {
            Seq::empty()
        }) + nulls(field, filter.is_null),
{
}

/// A filter on identifiers asks for one, for another, or for one of a list.
pub proof fn law_identifier_filters_compare(filter: UuidFilterInput, field: Seq<char>)
    ensures
        filter.asked(field) == compares(
            field,
            false,
            QuantOperator::Equal,
            worded(Seq::empty(), filter.eq, Seq::empty()),
        ) + compares(
            field,
            true,
            QuantOperator::Equal,
            worded(Seq::empty(), filter.neq, Seq::empty()),
        ) + member(
            field,
            if filter.in_list is Some {
                Some(texts(filter.in_list->0@))
            } else {
                None
            },
        ) + nulls(field, filter.is_null),
{
    lemma_worded(filter.eq);
    lemma_worded(filter.neq);
}

// ---------------------------------------------------------------------------
// What a filter means
// ---------------------------------------------------------------------------

/// Whether a tree holds, where `v` says which comparisons do.
pub open spec fn holds(tree: LogicTreeV, v: spec_fn(Seq<char>, OperationV) -> bool) -> bool
    decreases tree,
{
    match tree {
        LogicTreeV::Stmt(f) => f.negated != v(f.field, f.operation),
        LogicTreeV::Expr { negated, op: LogicOperator::And, children } => negated != all_hold(
            children,
            v,
        ),
        LogicTreeV::Expr { negated, op: LogicOperator::Or, children } => negated != any_holds(
            children,
            v,
        ),
    }
}

/// Whether all of some trees hold.
pub open spec fn all_hold(
    trees: Seq<LogicTreeV>,
    v: spec_fn(Seq<char>, OperationV) -> bool,
) -> bool
    decreases trees,
{
    forall|i: int| 0 <= i < trees.len() ==> holds(#[trigger] trees[i], v)
}

/// Whether one of some trees holds.
pub open spec fn any_holds(
    trees: Seq<LogicTreeV>,
    v: spec_fn(Seq<char>, OperationV) -> bool,
) -> bool
    decreases trees,
{
    exists|i: int| 0 <= i < trees.len() && holds(#[trigger] trees[i], v)
}

/// Whether a filter asks for anything.
pub open spec fn says(f: TableFilter) -> bool
    decreases f,
{
    ||| exists|i: int|
        0 <= i < f.fields@.len() && (#[trigger] f.fields@[i]).1.asked(f.fields@[i].0@).len() > 0
    ||| (match f.and {
        Some(list) => one_says(list),
        None => false,
    })
    ||| (match f.or {
        Some(list) => one_says(list),
        None => false,
    })
    ||| (match f.not {
        Some(inner) => says(*inner),
        None => false,
    })
}

/// Whether one of some filters asks for anything.
pub open spec fn one_says(list: Vec<TableFilter>) -> bool
    decreases list,
{
    exists|i: int| 0 <= i < list@.len() && says(#[trigger] list@[i])
}

/// Whether what a filter asks for is so: every comparison of its columns, all
/// of the filters that have to hold together, one of those of which one has to,
/// and not the one that must not. A filter that asks for nothing counts for
/// nothing.
pub open spec fn meant(f: TableFilter, v: spec_fn(Seq<char>, OperationV) -> bool) -> bool
    decreases f,
{
    &&& forall|i: int, k: int|
        0 <= i < f.fields@.len() && 0 <= k < f.fields@[i].1.asked(f.fields@[i].0@).len() ==> {
            let c = #[trigger] f.fields@[i].1.asked(f.fields@[i].0@)[k];
            c.negated != v(c.field, c.operation)
        }
    &&& (match f.and {
        Some(list) => all_meant(list, v),
        None => true,
    })
    &&& (match f.or {
        Some(list) => one_says(list) ==> one_meant(list, v),
        None => true,
    })
    &&& (match f.not {
        Some(inner) => says(*inner) ==> !meant(*inner, v),
        None => true,
    })
}

/// Whether each of some filters that asks for something is so.
pub open spec fn all_meant(
    list: Vec<TableFilter>,
    v: spec_fn(Seq<char>, OperationV) -> bool,
) -> bool
    decreases list,
{
    forall|i: int| 0 <= i < list@.len() && says(list@[i]) ==> meant(#[trigger] list@[i], v)
}

/// Whether one of some filters asks for something that is so.
pub open spec fn one_meant(
    list: Vec<TableFilter>,
    v: spec_fn(Seq<char>, OperationV) -> bool,
) -> bool
    decreases list,
{
    exists|i: int| 0 <= i < list@.len() && says(list@[i]) && meant(#[trigger] list@[i], v)
}

proof fn lemma_kept(o: Seq<Option<LogicTreeV>>, v: spec_fn(Seq<char>, OperationV) -> bool)
    ensures
        (kept(o).len() == 0) == (forall|i: int| 0 <= i < o.len() ==> (#[trigger] o[i]) is None),
        all_hold(kept(o), v) == (forall|i: int|
            0 <= i < o.len() && (#[trigger] o[i]) is Some ==> holds(o[i]->0, v)),
        any_holds(kept(o), v) == (exists|i: int|
            0 <= i < o.len() && (#[trigger] o[i]) is Some && holds(o[i]->0, v)),
    decreases o.len(),
{
    if o.len() > 0 {
        let rest = o.drop_last();
        lemma_kept(rest, v);
        let last = listed(o.last());
        assert forall|i: int| 0 <= i < rest.len() implies rest[i] == #[trigger] o[i] by {}
        assert(o[o.len() - 1] == o.last());
        lemma_joined_trees(kept(rest), last, v);
        lemma_listed(o.last(), v);
        if kept(o).len() == 0 {
            assert forall|i: int| 0 <= i < o.len() implies (#[trigger] o[i]) is None by {
                if i < rest.len() {
                    assert(rest[i] is None);
                }
            }
        } else if kept(rest).len() > 0 {
            let i = choose|i: int| 0 <= i < rest.len() && (#[trigger] rest[i]) is Some;
            assert(o[i] is Some);
        }
        if all_hold(kept(o), v) {
            assert forall|i: int| 0 <= i < o.len() && (#[trigger] o[i]) is Some implies holds(
                o[i]->0,
                v,
            ) by {
                if i < rest.len() {
                    assert(rest[i] is Some);
                }
            }
        } else if !all_hold(kept(rest), v) {
            let i = choose|i: int|
                0 <= i < rest.len() && (#[trigger] rest[i]) is Some && !holds(rest[i]->0, v);
            assert(o[i] is Some);
        }
        if any_holds(kept(rest), v) {
            let i = choose|i: int|
                0 <= i < rest.len() && (#[trigger] rest[i]) is Some && holds(rest[i]->0, v);
            assert(o[i] is Some && holds(o[i]->0, v));
        }
        if exists|i: int| 0 <= i < o.len() && (#[trigger] o[i]) is Some && holds(o[i]->0, v) {
            let i = choose|i: int|
                0 <= i < o.len() && (#[trigger] o[i]) is Some && holds(o[i]->0, v);
            if i < rest.len() {
                assert(rest[i] is Some && holds(rest[i]->0, v));
            }
        }
    }
}

proof fn lemma_listed(o: Option<LogicTreeV>, v: spec_fn(Seq<char>, OperationV) -> bool)
    ensures
        all_hold(listed(o), v) == (o is Some ==> holds(o->0, v)),
        any_holds(listed(o), v) == (o is Some && holds(o->0, v)),
        (listed(o).len() == 0) == (o is None),
{
    if o is Some {
        assert(listed(o)[0] == o->0);
    }
}

proof fn lemma_joined_trees(
    a: Seq<LogicTreeV>,
    b: Seq<LogicTreeV>,
    v: spec_fn(Seq<char>, OperationV) -> bool,
)
    ensures
        all_hold(a + b, v) == (all_hold(a, v) && all_hold(b, v)),
        any_holds(a + b, v) == (any_holds(a, v) || any_holds(b, v)),
{
    let all = a + b;
    assert forall|i: int| 0 <= i < a.len() implies #[trigger] a[i] == all[i] by {}
    assert forall|i: int| 0 <= i < b.len() implies #[trigger] b[i] == all[a.len() + i] by {}
    if all_hold(a, v) && all_hold(b, v) {
        assert forall|i: int| 0 <= i < all.len() implies holds(#[trigger] all[i], v) by {
            if i < a.len() {
                assert(all[i] == a[i]);
            } else {
                assert(all[i] == b[i - a.len()]);
            }
        }
    }
    if any_holds(all, v) {
        let i = choose|i: int| 0 <= i < all.len() && holds(#[trigger] all[i], v);
        if i < a.len() {
            assert(holds(a[i], v));
        } else {
            assert(holds(b[i - a.len()], v));
        }
    }
}

proof fn lemma_combined(trees: Seq<LogicTreeV>, v: spec_fn(Seq<char>, OperationV) -> bool)
    ensures
        (combined(LogicOperator::And, trees) is Some) == (trees.len() > 0),
        trees.len() > 0 ==> holds(combined(LogicOperator::And, trees)->0, v) == all_hold(trees, v),
{
    if trees.len() == 1 {
        assert(holds(trees[0], v) == all_hold(trees, v));
    }
}

proof fn lemma_field_tree(
    e: (String, FieldFilter),
    v: spec_fn(Seq<char>, OperationV) -> bool,
)
    ensures
        (field_tree(e) is Some) == (e.1.asked(e.0@).len() > 0),
        field_tree(e) is Some ==> holds(field_tree(e)->0, v) == (forall|k: int|
            0 <= k < e.1.asked(e.0@).len() ==> {
                let c = #[trigger] e.1.asked(e.0@)[k];
                c.negated != v(c.field, c.operation)
            }),
{
    let asked = e.1.asked(e.0@);
    let trees = statements(asked);
    lemma_combined(trees, v);
    assert forall|k: int| 0 <= k < asked.len() implies #[trigger] trees[k] == LogicTreeV::Stmt(
        asked[k],
    ) by {}
    if all_hold(trees, v) {
        assert forall|k: int| 0 <= k < asked.len() implies {
            let c = #[trigger] asked[k];
            c.negated != v(c.field, c.operation)
        } by {
            assert(holds(trees[k], v));
        }
    } else {
        let k = choose|k: int| 0 <= k < trees.len() && !holds(#[trigger] trees[k], v);
        assert(asked[k].negated == v(asked[k].field, asked[k].operation));
    }
}

proof fn lemma_trees(list: Vec<TableFilter>, v: spec_fn(Seq<char>, OperationV) -> bool)
    ensures
        (kept(listed_trees(list)).len() > 0) == one_says(list),
        all_hold(kept(listed_trees(list)), v) == all_meant(list, v),
        any_holds(kept(listed_trees(list)), v) == one_meant(list, v),
    decreases list,
{
    let o = listed_trees(list);
    lemma_kept(o, v);
    assert forall|i: int| 0 <= i < list@.len() implies {
        &&& #[trigger] o[i] == logic_tree(list@[i])
        &&& (o[i] is Some) == says(list@[i])
        &&& o[i] is Some ==> holds(o[i]->0, v) == meant(list@[i], v)
    } by {
        law_a_filter_means_what_it_says(list@[i], v);
    }
    if one_says(list) {
        let i = choose|i: int| 0 <= i < list@.len() && says(#[trigger] list@[i]);
        assert(o[i] is Some);
    } else {
        assert forall|i: int| 0 <= i < o.len() implies (#[trigger] o[i]) is None by {
            assert(!says(list@[i]));
        }
    }
    if all_hold(kept(o), v) {
        assert forall|i: int| 0 <= i < list@.len() && says(list@[i]) implies meant(
            #[trigger] list@[i],
            v,
        ) by {
            assert(o[i] is Some);
        }
    } else {
        let i = choose|i: int| 0 <= i < o.len() && (#[trigger] o[i]) is Some && !holds(o[i]->0, v);
        assert(says(list@[i]) && !meant(list@[i], v));
    }
    if any_holds(kept(o), v) {
        let i = choose|i: int| 0 <= i < o.len() && (#[trigger] o[i]) is Some && holds(o[i]->0, v);
        assert(says(list@[i]) && meant(list@[i], v));
    }
    if one_meant(list, v) {
        let i = choose|i: int|
            0 <= i < list@.len() && says(list@[i]) && meant(#[trigger] list@[i], v);
        assert(o[i] is Some && holds(o[i]->0, v));
    }
}

proof fn lemma_fields(
    fields: Seq<(String, FieldFilter)>,
    v: spec_fn(Seq<char>, OperationV) -> bool,
)
    ensures
        (kept(field_trees(fields)).len() > 0) == (exists|i: int|
            0 <= i < fields.len() && (#[trigger] fields[i]).1.asked(fields[i].0@).len() > 0),
        all_hold(kept(field_trees(fields)), v) == (forall|i: int, k: int|
            0 <= i < fields.len() && 0 <= k < fields[i].1.asked(fields[i].0@).len() ==> {
                let c = #[trigger] fields[i].1.asked(fields[i].0@)[k];
                c.negated != v(c.field, c.operation)
            }),
{
    let o = field_trees(fields);
    lemma_kept(o, v);
    assert forall|i: int| 0 <= i < fields.len() implies {
        &&& #[trigger] o[i] == field_tree(fields[i])
        &&& (o[i] is Some) == (fields[i].1.asked(fields[i].0@).len() > 0)
        &&& o[i] is Some ==> holds(o[i]->0, v) == (forall|k: int|
            0 <= k < fields[i].1.asked(fields[i].0@).len() ==> {
                let c = #[trigger] fields[i].1.asked(fields[i].0@)[k];
                c.negated != v(c.field, c.operation)
            })
    } by {
        lemma_field_tree(fields[i], v);
    }
    if kept(o).len() == 0 {
        assert forall|i: int| 0 <= i < fields.len() implies (#[trigger] fields[i]).1.asked(
            fields[i].0@,
        ).len() == 0 by {
            assert(o[i] is None);
        }
    } else {
        let i = choose|i: int| 0 <= i < o.len() && (#[trigger] o[i]) is Some;
        assert(fields[i].1.asked(fields[i].0@).len() > 0);
    }
    if all_hold(kept(o), v) {
        assert forall|i: int, k: int|
            0 <= i < fields.len() && 0 <= k < fields[i].1.asked(fields[i].0@).len() implies {
            let c = #[trigger] fields[i].1.asked(fields[i].0@)[k];
            c.negated != v(c.field, c.operation)
        } by {
            assert(o[i] is Some);
            assert(holds(o[i]->0, v));
        }
    } else {
        let i = choose|i: int| 0 <= i < o.len() && (#[trigger] o[i]) is Some && !holds(o[i]->0, v);
        let asked = fields[i].1.asked(fields[i].0@);
        let k = choose|k: int|
            0 <= k < asked.len() && !({
                let c = #[trigger] asked[k];
                c.negated != v(c.field, c.operation)
            });
        assert(asked[k].negated == v(asked[k].field, asked[k].operation));
    }
}

/// A filter stands for exactly what it says: whichever comparisons hold, the
/// tree that is handed on holds where what the filter asks for is so. One that
/// asks for nothing hands on nothing.
#[verifier::rlimit(40)]
pub proof fn law_a_filter_means_what_it_says(
    f: TableFilter,
    v: spec_fn(Seq<char>, OperationV) -> bool,
)
    ensures
        (logic_tree(f) is Some) == says(f),
        says(f) ==> holds(logic_tree(f)->0, v) == meant(f, v),
    decreases f,
{
    let fields = kept(field_trees(f.fields@));
    lemma_fields(f.fields@, v);
    let and = match f.and {
        Some(list) => listed(combined(LogicOperator::And, kept(listed_trees(list)))),
        None => Seq::empty(),
    };
    let or = match f.or {
        Some(list) => alternatives(kept(listed_trees(list))),
        None => Seq::empty(),
    };
    let not = match f.not {
        Some(inner) => match logic_tree(*inner) {
            Some(tree) => seq![negated(tree)],
            None => Seq::empty(),
        },
        None => Seq::empty(),
    };
    if f.and is Some {
        let list = f.and->0;
        lemma_trees(list, v);
        lemma_combined(kept(listed_trees(list)), v);
        lemma_listed(combined(LogicOperator::And, kept(listed_trees(list))), v);
    }
    assert(all_hold(and, v) == (f.and is Some ==> all_meant(f.and->0, v)));
    if f.or is Some {
        let list = f.or->0;
        lemma_trees(list, v);
        if one_says(list) {
            assert(or[0] is Expr);
            assert(holds(or[0], v) == any_holds(kept(listed_trees(list)), v));
            assert(all_hold(or, v) == holds(or[0], v));
        }
    }
    assert(all_hold(or, v) == (f.or is Some ==> (one_says(f.or->0) ==> one_meant(f.or->0, v))));
    if f.not is Some {
        let inner = *(f.not->0);
        law_a_filter_means_what_it_says(inner, v);
        if says(inner) {
            let tree = logic_tree(inner)->0;
            assert(holds(negated(tree), v) == !holds(tree, v));
            assert(not[0] == negated(tree));
            assert(all_hold(not, v) == holds(not[0], v));
        }
    }
    assert(all_hold(not, v) == (f.not is Some ==> (says(*(f.not->0)) ==> !meant(*(f.not->0), v))));
    lemma_joined_trees(fields, and, v);
    lemma_joined_trees(fields + and, or, v);
    lemma_joined_trees(fields + and + or, not, v);
    lemma_combined(fields + and + or + not, v);
}

/// The same tree is handed on with each comparison in the type of its column,
/// or as text where the table has no such column.
pub proof fn law_comparisons_take_their_columns_type(
    negated: bool,
    op: LogicOperator,
    children: Seq<LogicTreeV>,
    filter: FilterV,
    table: Table,
)
    ensures
        typed_tree(LogicTreeV::Stmt(filter), table) == (TypedTreeV::Stmt {
            filter,
            pg_type: match table.column(filter.field) {
                Some(c) => c.data_type@,
                None => "text"@,
            },
        }),
        typed_tree(LogicTreeV::Expr { negated, op, children }, table) == (TypedTreeV::Expr {
            negated,
            op,
            children: Seq::new(children.len(), |i: int| typed_tree(children[i], table)),
        }),
{
    let typed = typed_tree(LogicTreeV::Expr { negated, op, children }, table);
    assert(typed->children =~= Seq::new(
        children.len(),
        |i: int| typed_tree(children[i], table),
    ));
}

// ---------------------------------------------------------------------------
// Orders and ranges
// ---------------------------------------------------------------------------

/// A direction goes by its own word, and a word by one direction.
pub proof fn law_directions_have_words()
    ensures
        direction_word(OrderDirection::Asc) == "ASC"@,
        direction_word(OrderDirection::Desc) == "DESC"@,
        forall|d: OrderDirection| #[trigger] direction_named(direction_word(d)) == Some(d),
{
    reveal_strlit("ASC");
    reveal_strlit("DESC");
    assert("ASC"@.len() == 3 && "DESC"@.len() == 4);
}

/// Rows are ordered as they were asked to be: by the column that was named, in
/// its direction, with nulls where they were asked; a column that the table does
/// not have orders nothing.
pub proof fn law_rows_are_ordered_by_their_fields(
    asked: OrderByField,
    table: Table,
    before: Seq<OrderTermV>,
)
    ensures
        ordered(seq![asked], table, 0, before) == (match table.column(asked.field@) {
            None => before,
            Some(c) => before.push(
                OrderTermV {
                    field: FieldV { name: asked.field@, pg_type: c.data_type@ },
                    direction: Some(
                        if asked.direction is Asc {
                            Direction::Asc
                        } else {
                            Direction::Desc
                        },
                    ),
                    nulls: match asked.nulls {
                        None => None,
                        Some(NullsOrder::First) => Some(OrderNulls::First),
                        Some(NullsOrder::Last) => Some(OrderNulls::Last),
                    },
                },
            ),
        }),
{
    let one = seq![asked];
    assert(one[0] == asked);
    match table.column(asked.field@) {
        None => {
            assert(ordered(one, table, 1, before) == before);
        },
        Some(c) => {
            let more = before.push(typed_term(term_of(asked@), c.data_type@));
            assert(ordered(one, table, 1, more) == more);
        },
    }
}

/// A range begins at its offset, or at the first row, and ends at its limit.
pub proof fn law_a_range_is_what_was_asked(limit: Option<i64>, offset: Option<i64>)
    ensures
        range_of(limit, offset).limit == limit,
        offset is None ==> range_of(limit, offset).offset == 0,
        offset is Some ==> range_of(limit, offset).offset == offset->0,
{
}

// ---------------------------------------------------------------------------
// Rows
// ---------------------------------------------------------------------------

/// What is given for a row is handed on as it is, value by value.
pub proof fn law_values_are_handed_on(
    b: bool,
    n: i64,
    s: String,
    items: Vec<InputValue>,
    entries: Vec<(String, InputValue)>,
)
    ensures
        json_of(InputValue::Null) == JsonV::Null,
        json_of(InputValue::Bool(b)) == JsonV::Bool(b),
        json_of(InputValue::Int(n)) == JsonV::Number(NumberV::Int(n as int)),
        json_of(InputValue::Float(Some(s))) == JsonV::Number(NumberV::Other(s@)),
        json_of(InputValue::Float(None)) == JsonV::Null,
        json_of(InputValue::String(s)) == JsonV::String(s@),
        json_of(InputValue::Array(items)) == JsonV::Array(
            Seq::new(items@.len(), |i: int| json_of(items@[i])),
        ),
        json_of(InputValue::Object(entries)) == JsonV::Object(
            Seq::new(entries@.len(), |i: int| (entries@[i].0@, json_of(entries@[i].1))),
        ),
{
    assert(json_of(InputValue::Array(items))->Array_0 =~= Seq::new(
        items@.len(),
        |i: int| json_of(items@[i]),
    ));
    assert(json_of(InputValue::Object(entries))->Object_0 =~= Seq::new(
        entries@.len(),
        |i: int| (entries@[i].0@, json_of(entries@[i].1)),
    ));
}

/// What a written row answers with: the fields that were asked for, or its key
/// where none were.
pub proof fn law_a_written_row_answers_its_key(asked: Seq<String>, table: Table)
    ensures
        asked.len() > 0 ==> returned(asked, table) == texts(asked),
        asked.len() == 0 ==> returned(asked, table) == texts(table.pk_cols@),
{
}

} // verus!
