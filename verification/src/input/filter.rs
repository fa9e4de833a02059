//! Filters on one column, by the type of the column, and how filters are
//! combined.

use crate::request::{
    filters_view, lemma_tree_view, tree_opt, trees_view, Field, Filter, FilterV, IsValue,
    LogicOperator, LogicTree, LogicTreeV, OpExpr, Operation, OperationV, QuantOperator,
};
use crate::text::{
    cat3, copy_texts, decimal_int, decimal_int_text, no_texts, push_text, text_opt, texts,
};
use vstd::prelude::*;

verus! {

// ---------------------------------------------------------------------------
// One condition of a filter
// ---------------------------------------------------------------------------

/// The comparison of a column with a value, where there is a value.
pub open spec fn quant(
    field: Seq<char>,
    op: QuantOperator,
    negated: bool,
    value: Option<Seq<char>>,
) -> Seq<FilterV> {
    match value {
        None => Seq::empty(),
        Some(value) => seq![
            FilterV { field, negated, operation: OperationV::Quant { op, quantifier: None, value } },
        ],
    }
}

/// The comparison of a column with a list, where there is a list.
pub open spec fn among(field: Seq<char>, values: Option<Seq<Seq<char>>>) -> Seq<FilterV> {
    match values {
        None => Seq::empty(),
        Some(values) => seq![FilterV { field, negated: false, operation: OperationV::In(values) }],
    }
}

/// The test of a column for a value of `IS`.
pub open spec fn is_filter(field: Seq<char>, negated: bool, value: IsValue) -> Seq<FilterV> {
    seq![FilterV { field, negated, operation: OperationV::Is(value) }]
}

/// The test of a column for null, or for not being null.
pub open spec fn nullness(field: Seq<char>, is_null: Option<bool>) -> Seq<FilterV> {
    match is_null {
        None => Seq::empty(),
        Some(wanted) => is_filter(field, !wanted, IsValue::Null),
    }
}

/// The texts of an optional list.
pub open spec fn texts_opt(o: Option<Vec<String>>) -> Option<Seq<Seq<char>>> {
    match o {
        Some(v) => Some(texts(v@)),
        None => None,
    }
}

/// The decimal text of an optional number.
pub open spec fn number_opt(o: Option<i64>) -> Option<Seq<char>> {
    match o {
        Some(n) => Some(decimal_int(n as int)),
        None => None,
    }
}

/// The decimal texts of a list of numbers.
pub open spec fn number_texts(v: Seq<i64>) -> Seq<Seq<char>> {
    v.map_values(|n: i64| decimal_int(n as int))
}

/// The decimal texts of an optional list of numbers.
pub open spec fn numbers_opt(o: Option<Vec<i64>>) -> Option<Seq<Seq<char>>> {
    match o {
        Some(v) => Some(number_texts(v@)),
        None => None,
    }
}

/// A pattern around an optional text.
pub open spec fn pattern(before: Seq<char>, value: Option<String>, after: Seq<char>) -> Option<
    Seq<char>,
> {
    match value {
        Some(v) => Some(before + v@ + after),
        None => None,
    }
}

fn push_filter(filters: &mut Vec<Filter>, field: &str, operation: Operation, negated: bool)
    ensures
        filters_view(final(filters)@) == filters_view(old(filters)@) + seq![
            FilterV { field: field@, negated, operation: operation@ },
        ],
{
    let ghost before = filters@;
    let ghost held = operation@;
    filters.push(Filter::new(Field::simple(field), OpExpr::new(operation).with_negated(negated)));
    assert(filters_view(filters@) =~= filters_view(before) + seq![
        FilterV { field: field@, negated, operation: held },
    ]);
}

fn push_quant(
    filters: &mut Vec<Filter>,
    field: &str,
    op: QuantOperator,
    negated: bool,
    value: Option<String>,
)
    ensures
        filters_view(final(filters)@) == filters_view(old(filters)@) + quant(
            field@,
            op,
            negated,
            text_opt(value),
        ),
{
    match value {
        Some(value) => {
            push_filter(filters, field, Operation::Quant { op, quantifier: None, value }, negated);
        },
        None => {
            assert(filters_view(filters@) =~= filters_view(filters@) + quant(
                field@,
                op,
                negated,
                None,
            ));
        },
    }
}

fn push_among(filters: &mut Vec<Filter>, field: &str, values: Option<Vec<String>>)
    ensures
        filters_view(final(filters)@) == filters_view(old(filters)@) + among(
            field@,
            texts_opt(values),
        ),
{
    match values {
        Some(values) => {
            push_filter(filters, field, Operation::In(values), false);
        },
        None => {
            assert(filters_view(filters@) =~= filters_view(filters@) + among(field@, None));
        },
    }
}

fn push_nullness(filters: &mut Vec<Filter>, field: &str, is_null: Option<bool>)
    ensures
        filters_view(final(filters)@) == filters_view(old(filters)@) + nullness(field@, is_null),
{
    match is_null {
        Some(wanted) => {
            push_filter(filters, field, Operation::Is(IsValue::Null), !wanted);
        },
        None => {
            assert(filters_view(filters@) =~= filters_view(filters@) + nullness(field@, None));
        },
    }
}

fn copied(value: &Option<String>) -> (r: Option<String>)
    ensures
        text_opt(r) == text_opt(*value),
{
    match value {
        Some(v) => Some(v.clone()),
        None => None,
    }
}

fn copied_list(values: &Option<Vec<String>>) -> (r: Option<Vec<String>>)
    ensures
        texts_opt(r) == texts_opt(*values),
{
    match values {
        Some(v) => Some(copy_texts(v)),
        None => None,
    }
}

fn written(value: Option<i64>) -> (r: Option<String>)
    ensures
        text_opt(r) == number_opt(value),
{
    match value {
        Some(n) => Some(decimal_int_text(n)),
        None => None,
    }
}

fn written_list(values: &Option<Vec<i64>>) -> (r: Option<Vec<String>>)
    ensures
        texts_opt(r) == numbers_opt(*values),
{
    match values {
        Some(v) => {
            let mut out: Vec<String> = no_texts();
            let mut i: usize = 0;
            while i < v.len()
                invariant
                    i <= v.len(),
                    texts(out@) == number_texts(v@.take(i as int)),
                decreases v.len() - i,
            {
                push_text(&mut out, decimal_int_text(v[i]));
                assert(number_texts(v@.take(i + 1)) =~= number_texts(v@.take(i as int)).push(
                    decimal_int(v@[i as int] as int),
                ));
                i += 1;
            }
            assert(v@.take(i as int) =~= v@);
            Some(out)
        },
        None => None,
    }
}

fn patterned(before: &str, value: &Option<String>, after: &str) -> (r: Option<String>)
    ensures
        text_opt(r) == pattern(before@, *value, after@),
{
    match value {
        Some(v) => Some(cat3(before, v, after)),
        None => None,
    }
}

// ---------------------------------------------------------------------------
// StringFilterInput
// ---------------------------------------------------------------------------

/// A filter on a text column. What is left out asks nothing.
#[derive(Debug)]
pub struct StringFilterInput {
    /// Equals.
    pub eq: Option<String>,
    /// Does not equal.
    pub neq: Option<String>,
    /// Matches a pattern.
    pub like: Option<String>,
    /// Matches a pattern, whatever the case.
    pub ilike: Option<String>,
    /// Is one of.
    pub in_list: Option<Vec<String>>,
    /// Is null, or is not.
    pub is_null: Option<bool>,
    /// Starts with.
    pub starts_with: Option<String>,
    /// Ends with.
    pub ends_with: Option<String>,
    /// Contains.
    pub contains: Option<String>,
}

impl Default for StringFilterInput {
    fn default() -> (r: StringFilterInput)
        ensures
            r.asks_nothing(),
    {
        StringFilterInput { eq: None, neq: None, like: None, ilike: None, in_list: None, is_null: None, starts_with: None, ends_with: None, contains: None }
    }
}

impl StringFilterInput {
    /// Whether nothing is asked.
    pub open spec fn asks_nothing(self) -> bool {
        self.eq is None && self.neq is None && self.like is None && self.ilike is None && self.in_list is None && self.is_null is None && self.starts_with is None && self.ends_with is None && self.contains is None
    }

    /// The comparisons the filter stands for, in the order of its fields.
    pub open spec fn asked(self, field: Seq<char>) -> Seq<FilterV> {
        Seq::empty() + quant(field, QuantOperator::Equal, false, text_opt(self.eq)) + quant(field, QuantOperator::Equal, true, text_opt(self.neq)) + quant(field, QuantOperator::Like, false, text_opt(self.like)) + quant(field, QuantOperator::ILike, false, text_opt(self.ilike)) + among(field, texts_opt(self.in_list)) + nullness(field, self.is_null) + quant(field, QuantOperator::Like, false, pattern(""@, self.starts_with, "%"@)) + quant(field, QuantOperator::Like, false, pattern("%"@, self.ends_with, ""@)) + quant(field, QuantOperator::Like, false, pattern("%"@, self.contains, "%"@))
    }

    /// The comparisons the filter stands for on a column.
    pub fn to_filters(&self, field_name: &str) -> (r: Vec<Filter>)
        ensures
            filters_view(r@) == self.asked(field_name@),
            r@.len() == 0 <==> self.asks_nothing(),
    {
        let mut filters: Vec<Filter> = Vec::new();
        assert(filters_view(filters@) =~= Seq::<FilterV>::empty());
        push_quant(&mut filters, field_name, QuantOperator::Equal, false, copied(&self.eq));
        push_quant(&mut filters, field_name, QuantOperator::Equal, true, copied(&self.neq));
        push_quant(&mut filters, field_name, QuantOperator::Like, false, copied(&self.like));
        push_quant(&mut filters, field_name, QuantOperator::ILike, false, copied(&self.ilike));
        push_among(&mut filters, field_name, copied_list(&self.in_list));
        push_nullness(&mut filters, field_name, self.is_null);
        push_quant(&mut filters, field_name, QuantOperator::Like, false, patterned("", &self.starts_with, "%"));
        push_quant(&mut filters, field_name, QuantOperator::Like, false, patterned("%", &self.ends_with, ""));
        push_quant(&mut filters, field_name, QuantOperator::Like, false, patterned("%", &self.contains, "%"));
        assert(filters_view(filters@).len() == filters@.len());
        filters
    }

    /// Whether nothing is asked.
    pub fn is_empty(&self) -> (r: bool)
        ensures
            r == self.asks_nothing(),
    {
        self.eq.is_none() && self.neq.is_none() && self.like.is_none() && self.ilike.is_none() && self.in_list.is_none() && self.is_null.is_none() && self.starts_with.is_none() && self.ends_with.is_none() && self.contains.is_none()
    }
}

// ---------------------------------------------------------------------------
// IntFilterInput
// ---------------------------------------------------------------------------

/// A filter on an integer column. What is left out asks nothing.
#[derive(Debug)]
pub struct IntFilterInput {
    /// Equals.
    pub eq: Option<i64>,
    /// Does not equal.
    pub neq: Option<i64>,
    /// Is greater than.
    pub gt: Option<i64>,
    /// Is at least.
    pub gte: Option<i64>,
    /// Is less than.
    pub lt: Option<i64>,
    /// Is at most.
    pub lte: Option<i64>,
    /// Is one of.
    pub in_list: Option<Vec<i64>>,
    /// Is null, or is not.
    pub is_null: Option<bool>,
}

impl Default for IntFilterInput {
    fn default() -> (r: IntFilterInput)
        ensures
            r.asks_nothing(),
    {
        IntFilterInput { eq: None, neq: None, gt: None, gte: None, lt: None, lte: None, in_list: None, is_null: None }
    }
}

impl IntFilterInput {
    /// Whether nothing is asked.
    pub open spec fn asks_nothing(self) -> bool {
        self.eq is None && self.neq is None && self.gt is None && self.gte is None && self.lt is None && self.lte is None && self.in_list is None && self.is_null is None
    }

    /// The comparisons the filter stands for, in the order of its fields.
    pub open spec fn asked(self, field: Seq<char>) -> Seq<FilterV> {
        Seq::empty() + quant(field, QuantOperator::Equal, false, number_opt(self.eq)) + quant(field, QuantOperator::Equal, true, number_opt(self.neq)) + quant(field, QuantOperator::GreaterThan, false, number_opt(self.gt)) + quant(field, QuantOperator::GreaterThanEqual, false, number_opt(self.gte)) + quant(field, QuantOperator::LessThan, false, number_opt(self.lt)) + quant(field, QuantOperator::LessThanEqual, false, number_opt(self.lte)) + among(field, numbers_opt(self.in_list)) + nullness(field, self.is_null)
    }

    /// The comparisons the filter stands for on a column.
    pub fn to_filters(&self, field_name: &str) -> (r: Vec<Filter>)
        ensures
            filters_view(r@) == self.asked(field_name@),
            r@.len() == 0 <==> self.asks_nothing(),
    {
        let mut filters: Vec<Filter> = Vec::new();
        assert(filters_view(filters@) =~= Seq::<FilterV>::empty());
        push_quant(&mut filters, field_name, QuantOperator::Equal, false, written(self.eq));
        push_quant(&mut filters, field_name, QuantOperator::Equal, true, written(self.neq));
        push_quant(&mut filters, field_name, QuantOperator::GreaterThan, false, written(self.gt));
        push_quant(&mut filters, field_name, QuantOperator::GreaterThanEqual, false, written(self.gte));
        push_quant(&mut filters, field_name, QuantOperator::LessThan, false, written(self.lt));
        push_quant(&mut filters, field_name, QuantOperator::LessThanEqual, false, written(self.lte));
        push_among(&mut filters, field_name, written_list(&self.in_list));
        push_nullness(&mut filters, field_name, self.is_null);
        assert(filters_view(filters@).len() == filters@.len());
        filters
    }

    /// Whether nothing is asked.
    pub fn is_empty(&self) -> (r: bool)
        ensures
            r == self.asks_nothing(),
    {
        self.eq.is_none() && self.neq.is_none() && self.gt.is_none() && self.gte.is_none() && self.lt.is_none() && self.lte.is_none() && self.in_list.is_none() && self.is_null.is_none()
    }
}

// ---------------------------------------------------------------------------
// FloatFilterInput
// ---------------------------------------------------------------------------

/// A filter on a floating-point column, each number as its text. What is left out asks nothing.
#[derive(Debug)]
pub struct FloatFilterInput {
    /// Equals.
    pub eq: Option<String>,
    /// Does not equal.
    pub neq: Option<String>,
    /// Is greater than.
    pub gt: Option<String>,
    /// Is at least.
    pub gte: Option<String>,
    /// Is less than.
    pub lt: Option<String>,
    /// Is at most.
    pub lte: Option<String>,
    /// Is null, or is not.
    pub is_null: Option<bool>,
}

impl Default for FloatFilterInput {
    fn default() -> (r: FloatFilterInput)
        ensures
            r.asks_nothing(),
    {
        FloatFilterInput { eq: None, neq: None, gt: None, gte: None, lt: None, lte: None, is_null: None }
    }
}

impl FloatFilterInput {
    /// Whether nothing is asked.
    pub open spec fn asks_nothing(self) -> bool {
        self.eq is None && self.neq is None && self.gt is None && self.gte is None && self.lt is None && self.lte is None && self.is_null is None
    }

    /// The comparisons the filter stands for, in the order of its fields.
    pub open spec fn asked(self, field: Seq<char>) -> Seq<FilterV> {
        Seq::empty() + quant(field, QuantOperator::Equal, false, text_opt(self.eq)) + quant(field, QuantOperator::Equal, true, text_opt(self.neq)) + quant(field, QuantOperator::GreaterThan, false, text_opt(self.gt)) + quant(field, QuantOperator::GreaterThanEqual, false, text_opt(self.gte)) + quant(field, QuantOperator::LessThan, false, text_opt(self.lt)) + quant(field, QuantOperator::LessThanEqual, false, text_opt(self.lte)) + nullness(field, self.is_null)
    }

    /// The comparisons the filter stands for on a column.
    pub fn to_filters(&self, field_name: &str) -> (r: Vec<Filter>)
        ensures
            filters_view(r@) == self.asked(field_name@),
            r@.len() == 0 <==> self.asks_nothing(),
    {
        let mut filters: Vec<Filter> = Vec::new();
        assert(filters_view(filters@) =~= Seq::<FilterV>::empty());
        push_quant(&mut filters, field_name, QuantOperator::Equal, false, copied(&self.eq));
        push_quant(&mut filters, field_name, QuantOperator::Equal, true, copied(&self.neq));
        push_quant(&mut filters, field_name, QuantOperator::GreaterThan, false, copied(&self.gt));
        push_quant(&mut filters, field_name, QuantOperator::GreaterThanEqual, false, copied(&self.gte));
        push_quant(&mut filters, field_name, QuantOperator::LessThan, false, copied(&self.lt));
        push_quant(&mut filters, field_name, QuantOperator::LessThanEqual, false, copied(&self.lte));
        push_nullness(&mut filters, field_name, self.is_null);
        assert(filters_view(filters@).len() == filters@.len());
        filters
    }

    /// Whether nothing is asked.
    pub fn is_empty(&self) -> (r: bool)
        ensures
            r == self.asks_nothing(),
    {
        self.eq.is_none() && self.neq.is_none() && self.gt.is_none() && self.gte.is_none() && self.lt.is_none() && self.lte.is_none() && self.is_null.is_none()
    }
}

// ---------------------------------------------------------------------------
// BooleanFilterInput
// ---------------------------------------------------------------------------

/// A filter on a boolean column. What is left out asks nothing.
#[derive(Debug)]
pub struct BooleanFilterInput {
    /// Is true, or is false.
    pub eq: Option<bool>,
    /// Is null, or is not.
    pub is_null: Option<bool>,
}

impl Default for BooleanFilterInput {
    fn default() -> (r: BooleanFilterInput)
        ensures
            r.asks_nothing(),
    {
        BooleanFilterInput { eq: None, is_null: None }
    }
}

/// The test of a column for true or for false.
pub open spec fn truth(field: Seq<char>, value: Option<bool>) -> Seq<FilterV> {
    match value {
        None => Seq::empty(),
        Some(value) => is_filter(
            field,
            false,
            if value {
                IsValue::True
            } else {
                IsValue::False
            },
        ),
    }
}

impl BooleanFilterInput {
    /// Whether nothing is asked.
    pub open spec fn asks_nothing(self) -> bool {
        self.eq is None && self.is_null is None
    }

    /// The comparisons the filter stands for, in the order of its fields.
    pub open spec fn asked(self, field: Seq<char>) -> Seq<FilterV> {
        Seq::empty() + truth(field, self.eq) + nullness(field, self.is_null)
    }

    /// The comparisons the filter stands for on a column.
    pub fn to_filters(&self, field_name: &str) -> (r: Vec<Filter>)
        ensures
            filters_view(r@) == self.asked(field_name@),
            r@.len() == 0 <==> self.asks_nothing(),
    {
        let mut filters: Vec<Filter> = Vec::new();
        assert(filters_view(filters@) =~= Seq::<FilterV>::empty());
        if let Some(value) = self.eq {
            let is = if value {
                IsValue::True
            } else {
                IsValue::False
            };
            push_filter(&mut filters, field_name, Operation::Is(is), false);
        } else {
            assert(filters_view(filters@) =~= Seq::<FilterV>::empty() + truth(field_name@, None));
        }
        push_nullness(&mut filters, field_name, self.is_null);
        assert(filters_view(filters@).len() == filters@.len());
        filters
    }

    /// Whether nothing is asked.
    pub fn is_empty(&self) -> (r: bool)
        ensures
            r == self.asks_nothing(),
    {
        self.eq.is_none() && self.is_null.is_none()
    }
}

// ---------------------------------------------------------------------------
// UuidFilterInput
// ---------------------------------------------------------------------------

/// A filter on a UUID column. What is left out asks nothing.
#[derive(Debug)]
pub struct UuidFilterInput {
    /// Equals.
    pub eq: Option<String>,
    /// Does not equal.
    pub neq: Option<String>,
    /// Is one of.
    pub in_list: Option<Vec<String>>,
    /// Is null, or is not.
    pub is_null: Option<bool>,
}

impl Default for UuidFilterInput {
    fn default() -> (r: UuidFilterInput)
        ensures
            r.asks_nothing(),
    {
        UuidFilterInput { eq: None, neq: None, in_list: None, is_null: None }
    }
}

impl UuidFilterInput {
    /// Whether nothing is asked.
    pub open spec fn asks_nothing(self) -> bool {
        self.eq is None && self.neq is None && self.in_list is None && self.is_null is None
    }

    /// The comparisons the filter stands for, in the order of its fields.
    pub open spec fn asked(self, field: Seq<char>) -> Seq<FilterV> {
        Seq::empty() + quant(field, QuantOperator::Equal, false, text_opt(self.eq)) + quant(field, QuantOperator::Equal, true, text_opt(self.neq)) + among(field, texts_opt(self.in_list)) + nullness(field, self.is_null)
    }

    /// The comparisons the filter stands for on a column.
    pub fn to_filters(&self, field_name: &str) -> (r: Vec<Filter>)
        ensures
            filters_view(r@) == self.asked(field_name@),
            r@.len() == 0 <==> self.asks_nothing(),
    {
        let mut filters: Vec<Filter> = Vec::new();
        assert(filters_view(filters@) =~= Seq::<FilterV>::empty());
        push_quant(&mut filters, field_name, QuantOperator::Equal, false, copied(&self.eq));
        push_quant(&mut filters, field_name, QuantOperator::Equal, true, copied(&self.neq));
        push_among(&mut filters, field_name, copied_list(&self.in_list));
        push_nullness(&mut filters, field_name, self.is_null);
        assert(filters_view(filters@).len() == filters@.len());
        filters
    }

    /// Whether nothing is asked.
    pub fn is_empty(&self) -> (r: bool)
        ensures
            r == self.asks_nothing(),
    {
        self.eq.is_none() && self.neq.is_none() && self.in_list.is_none() && self.is_null.is_none()
    }
}

// ---------------------------------------------------------------------------
// Combining
// ---------------------------------------------------------------------------

/// Trees combined by an operator: none for none, and a single one as it is.
pub open spec fn combined(op: LogicOperator, trees: Seq<LogicTreeV>) -> Option<LogicTreeV> {
    if trees.len() == 0 {
        None
    } else if trees.len() == 1 {
        Some(trees[0])
    } else {
        Some(LogicTreeV::Expr { negated: false, op, children: trees })
    }
}

/// Each comparison as a tree of its own.
pub open spec fn statements(filters: Seq<FilterV>) -> Seq<LogicTreeV> {
    filters.map_values(|f: FilterV| LogicTreeV::Stmt(f))
}

/// A tree that holds where the other does not.
pub open spec fn negated(tree: LogicTreeV) -> LogicTreeV {
    match tree {
        LogicTreeV::Expr { negated, op, children } => LogicTreeV::Expr {
            negated: !negated,
            op,
            children,
        },
        LogicTreeV::Stmt(f) => LogicTreeV::Stmt(FilterV { negated: !f.negated, ..f }),
    }
}

fn combine(op: LogicOperator, trees: Vec<LogicTree>) -> (r: Option<LogicTree>)
    ensures
        tree_opt(r) == combined(op, trees_view(trees@)),
{
    if trees.len() == 0 {
        return None;
    }
    if trees.len() == 1 {
        let mut trees = trees;
        let only = trees.pop();
        return only;
    }
    proof {
        lemma_tree_view(false, op, trees);
    }
    Some(LogicTree::Expr { negated: false, op, children: trees })
}

/// Comparisons that all have to hold.
pub fn filters_to_logic_tree(filters: Vec<Filter>) -> (r: Option<LogicTree>)
    ensures
        tree_opt(r) == combined(LogicOperator::And, statements(filters_view(filters@))),
{
    let ghost all = filters_view(filters@);
    let mut rest = filters;
    let mut back: Vec<LogicTree> = Vec::new();
    let count: usize = rest.len();
    while rest.len() > 0
        invariant
            rest@.len() + back@.len() == count,
            all.len() == count,
            filters_view(rest@) == all.take(rest@.len() as int),
            forall|k: int|
                0 <= k < back@.len() ==> (#[trigger] back@[k])@ == LogicTreeV::Stmt(
                    all[count - 1 - k],
                ),
        decreases rest@.len(),
    {
        let ghost before = rest@;
        if let Some(filter) = rest.pop() {
            assert(filter@ == filters_view(before)[before.len() - 1]);
            assert(filters_view(rest@) =~= all.take(rest@.len() as int));
            back.push(LogicTree::Stmt(filter));
        }
    }
    let mut trees: Vec<LogicTree> = Vec::new();
    while back.len() > 0
        invariant
            trees@.len() + back@.len() == count,
            all.len() == count,
            forall|k: int|
                0 <= k < back@.len() ==> (#[trigger] back@[k])@ == LogicTreeV::Stmt(
                    all[count - 1 - k],
                ),
            forall|k: int|
                0 <= k < trees@.len() ==> (#[trigger] trees@[k])@ == LogicTreeV::Stmt(all[k]),
        decreases back@.len(),
    {
        if let Some(tree) = back.pop() {
            trees.push(tree);
        }
    }
    assert(trees_view(trees@) =~= statements(all));
    combine(LogicOperator::And, trees)
}

/// Trees that all have to hold.
pub fn combine_with_and(trees: Vec<LogicTree>) -> (r: Option<LogicTree>)
    ensures
        tree_opt(r) == combined(LogicOperator::And, trees_view(trees@)),
{
    combine(LogicOperator::And, trees)
}

/// Trees of which one has to hold.
pub fn combine_with_or(trees: Vec<LogicTree>) -> (r: Option<LogicTree>)
    ensures
        tree_opt(r) == combined(LogicOperator::Or, trees_view(trees@)),
{
    combine(LogicOperator::Or, trees)
}

/// A tree that holds where the other does not.
pub fn negate_tree(tree: LogicTree) -> (r: LogicTree)
    ensures
        r@ == negated(tree@),
{
    match tree {
        LogicTree::Expr { negated, op, children } => {
            proof {
                lemma_tree_view(negated, op, children);
                lemma_tree_view(!negated, op, children);
            }
            LogicTree::Expr { negated: !negated, op, children }
        },
        LogicTree::Stmt(filter) => {
            let expr = OpExpr {
                negated: !filter.op_expr.negated,
                operation: filter.op_expr.operation,
            };
            LogicTree::Stmt(Filter::new(filter.field, expr))
        },
    }
}

// ---------------------------------------------------------------------------
// Laws
// ---------------------------------------------------------------------------

/// Negating twice gives the tree back.
pub proof fn law_negating_twice(tree: LogicTreeV)
    ensures
        negated(negated(tree)) == tree,
        negated(tree) != tree,
{
}

/// A tree combined with nothing is that tree, whichever the operator.
pub proof fn law_one_tree_alone(op: LogicOperator, tree: LogicTreeV)
    ensures
        combined(op, seq![tree]) == Some(tree),
{
}

/// Filters give a tree exactly where there is one.
pub proof fn law_some_filters_some_tree(filters: Seq<FilterV>)
    ensures
        combined(LogicOperator::And, statements(filters)) is None <==> filters.len() == 0,
{
}

} // verus!
