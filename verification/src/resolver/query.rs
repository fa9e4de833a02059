//! The arguments of a table's query, and the plan they give.

use crate::catalog::{Column, QualifiedIdentifier, Table};
use crate::input::filter::{
    combine_with_and, combined, filters_to_logic_tree, negate_tree, negated, statements,
    BooleanFilterInput, FloatFilterInput, IntFilterInput, StringFilterInput, UuidFilterInput,
};
use crate::input::order::{term_of, OrderByField, PaginationInput};
use crate::lookup::{keyed, keyed_put, law_keyed_put, once, put_keyed};
use crate::plan::{
    fields_view, order_view, typed_term, typed_tree, typed_trees_view, CoercibleField,
    CoercibleLogicTree, CoercibleOrderTerm, FieldV, OrderTermV, ReadPlan, TypedTreeV,
};
use crate::request::{
    filters_view, tree_opt, trees_view, Filter, FilterV, LogicOperator, LogicTree, LogicTreeV,
    Range,
};
use vstd::prelude::*;

verus! {

// ---------------------------------------------------------------------------
// Filters of a table
// ---------------------------------------------------------------------------

/// A filter on one column, by the column's type.
#[derive(Debug)]
pub enum FieldFilter {
    String(StringFilterInput),
    Int(IntFilterInput),
    Float(FloatFilterInput),
    Boolean(BooleanFilterInput),
    Uuid(UuidFilterInput),
}

impl FieldFilter {
    /// The comparisons the filter stands for on a column.
    pub open spec fn asked(self, field: Seq<char>) -> Seq<FilterV> {
        match self {
            FieldFilter::String(f) => f.asked(field),
            FieldFilter::Int(f) => f.asked(field),
            FieldFilter::Float(f) => f.asked(field),
            FieldFilter::Boolean(f) => f.asked(field),
            FieldFilter::Uuid(f) => f.asked(field),
        }
    }

    pub fn string(filter: StringFilterInput) -> (r: FieldFilter)
        ensures
            r == FieldFilter::String(filter),
    {
        FieldFilter::String(filter)
    }

    pub fn integer(filter: IntFilterInput) -> (r: FieldFilter)
        ensures
            r == FieldFilter::Int(filter),
    {
        FieldFilter::Int(filter)
    }

    pub fn float(filter: FloatFilterInput) -> (r: FieldFilter)
        ensures
            r == FieldFilter::Float(filter),
    {
        FieldFilter::Float(filter)
    }

    pub fn boolean(filter: BooleanFilterInput) -> (r: FieldFilter)
        ensures
            r == FieldFilter::Boolean(filter),
    {
        FieldFilter::Boolean(filter)
    }

    pub fn uuid(filter: UuidFilterInput) -> (r: FieldFilter)
        ensures
            r == FieldFilter::Uuid(filter),
    {
        FieldFilter::Uuid(filter)
    }

    /// The comparisons the filter stands for on a column.
    pub fn to_filters(&self, field_name: &str) -> (r: Vec<Filter>)
        ensures
            filters_view(r@) == self.asked(field_name@),
    {
        match self {
            FieldFilter::String(f) => f.to_filters(field_name),
            FieldFilter::Int(f) => f.to_filters(field_name),
            FieldFilter::Float(f) => f.to_filters(field_name),
            FieldFilter::Boolean(f) => f.to_filters(field_name),
            FieldFilter::Uuid(f) => f.to_filters(field_name),
        }
    }
}

/// A filter on a table: on its columns, and on combinations of such filters.
#[derive(Debug)]
pub struct TableFilter {
    /// A filter for each column that has one.
    pub fields: Vec<(String, FieldFilter)>,
    /// Filters that all have to hold.
    pub and: Option<Vec<TableFilter>>,
    /// Filters of which one has to hold.
    pub or: Option<Vec<TableFilter>>,
    /// A filter that must not hold.
    pub not: Option<Box<TableFilter>>,
}

/// An optional tree as a list.
pub open spec fn listed(o: Option<LogicTreeV>) -> Seq<LogicTreeV> {
    match o {
        Some(t) => seq![t],
        None => Seq::empty(),
    }
}

/// The trees of a list that are there.
pub open spec fn kept(o: Seq<Option<LogicTreeV>>) -> Seq<LogicTreeV>
    decreases o.len(),
{
    if o.len() == 0 {
        Seq::empty()
    } else {
        kept(o.drop_last()) + listed(o.last())
    }
}

/// The tree of the filter on one column.
pub open spec fn field_tree(e: (String, FieldFilter)) -> Option<LogicTreeV> {
    combined(LogicOperator::And, statements(e.1.asked(e.0@)))
}

/// The tree of each filter on one column.
pub open spec fn field_trees(fields: Seq<(String, FieldFilter)>) -> Seq<Option<LogicTreeV>> {
    fields.map_values(|e: (String, FieldFilter)| field_tree(e))
}

/// Alternatives, where there are any.
pub open spec fn alternatives(trees: Seq<LogicTreeV>) -> Seq<LogicTreeV> {
    if trees.len() == 0 {
        Seq::empty()
    } else {
        seq![LogicTreeV::Expr { negated: false, op: LogicOperator::Or, children: trees }]
    }
}

/// The tree a filter stands for, where it asks anything.
pub open spec fn logic_tree(f: TableFilter) -> Option<LogicTreeV>
    decreases f,
{
    let fields = kept(field_trees(f.fields@));
    let and = match f.and {
        Some(list) => listed(
            combined(
                LogicOperator::And,
                kept(listed_trees(list)),
            ),
        ),
        None => Seq::empty(),
    };
    let or = match f.or {
        Some(list) => alternatives(
            kept(listed_trees(list)),
        ),
        None => Seq::empty(),
    };
    let not = match f.not {
        Some(inner) => match logic_tree(*inner) {
            Some(tree) => seq![negated(tree)],
            None => Seq::empty(),
        },
        None => Seq::empty(),
    };
    combined(LogicOperator::And, fields + and + or + not)
}

/// The tree of each filter of a list.
pub open spec fn listed_trees(list: Vec<TableFilter>) -> Seq<Option<LogicTreeV>>
    decreases list,
{
    Seq::new(
        list@.len(),
        |i: int|
            if 0 <= i < list@.len() {
                logic_tree(list@[i])
            } else {
                None
            },
    )
}

/// The tree of each filter of a list.
pub open spec fn logic_trees(v: Seq<TableFilter>) -> Seq<Option<LogicTreeV>> {
    v.map_values(|f: TableFilter| logic_tree(f))
}

/// Adds a tree that is there at the end of a list.
fn push_tree(trees: &mut Vec<LogicTree>, tree: Option<LogicTree>)
    ensures
        trees_view(final(trees)@) == trees_view(old(trees)@) + listed(tree_opt(tree)),
{
    let ghost before = trees@;
    match tree {
        Some(t) => {
            trees.push(t);
            assert(trees_view(trees@) =~= trees_view(before) + listed(Some(t@)));
        },
        None => {
            assert(trees_view(trees@) =~= trees_view(before) + listed(None));
        },
    }
}

impl Default for TableFilter {
    fn default() -> (r: TableFilter)
        ensures
            r.asks_nothing(),
    {
        TableFilter { fields: Vec::new(), and: None, or: None, not: None }
    }
}

/// Whether each filter of a list filters a column once.
pub open spec fn filters_wf(list: Vec<TableFilter>) -> bool
    decreases list,
{
    forall|i: int| 0 <= i < list@.len() ==> (#[trigger] list@[i]).wf()
}

impl TableFilter {
    /// A column is filtered once, here and in every filter inside.
    pub open spec fn wf(self) -> bool
        decreases self,
    {
        &&& once(keyed(self.fields@))
        &&& (match self.and {
            Some(list) => filters_wf(list),
            None => true,
        })
        &&& (match self.or {
            Some(list) => filters_wf(list),
            None => true,
        })
        &&& (match self.not {
            Some(inner) => (*inner).wf(),
            None => true,
        })
    }

    /// Whether the filter has no part.
    pub open spec fn asks_nothing(self) -> bool {
        self.fields@.len() == 0 && self.and is None && self.or is None && self.not is None
    }

    /// A filter with no part.
    pub fn new() -> (r: TableFilter)
        ensures
            r.asks_nothing(),
            r.wf(),
    {
        TableFilter::default()
    }

    /// With a filter on a column, in place of the one it had.
    pub fn with_field(self, name: &str, filter: FieldFilter) -> (r: TableFilter)
        ensures
            keyed(r.fields@) == keyed_put(keyed(self.fields@), name@, filter),
            r.and == self.and,
            r.or == self.or,
            r.not == self.not,
            self.wf() ==> r.wf(),
    {
        proof {
            if self.wf() {
                law_keyed_put(keyed(self.fields@), name@, filter);
            }
        }
        let mut this = self;
        put_keyed(&mut this.fields, crate::text::owned(name), filter);
        this
    }

    /// With filters that all have to hold.
    pub fn with_and(self, filters: Vec<TableFilter>) -> (r: TableFilter)
        ensures
            r == (TableFilter { and: Some(filters), ..self }),
            self.wf() && filters_wf(filters) ==> r.wf(),
    {
        let mut this = self;
        this.and = Some(filters);
        this
    }

    /// With filters of which one has to hold.
    pub fn with_or(self, filters: Vec<TableFilter>) -> (r: TableFilter)
        ensures
            r == (TableFilter { or: Some(filters), ..self }),
            self.wf() && filters_wf(filters) ==> r.wf(),
    {
        let mut this = self;
        this.or = Some(filters);
        this
    }

    /// With a filter that must not hold.
    pub fn with_not(self, filter: TableFilter) -> (r: TableFilter)
        ensures
            r.fields == self.fields,
            r.and == self.and,
            r.or == self.or,
            r.not is Some,
            *(r.not->0) == filter,
            self.wf() && filter.wf() ==> r.wf(),
    {
        let mut this = self;
        this.not = Some(Box::new(filter));
        this
    }

    /// Whether the filter has no part.
    pub fn is_empty(&self) -> (r: bool)
        ensures
            r == self.asks_nothing(),
    {
        self.fields.len() == 0 && self.and.is_none() && self.or.is_none() && self.not.is_none()
    }

    /// The tree the filter stands for, where it asks anything.
    pub fn to_logic_tree(&self) -> (r: Option<LogicTree>)
        ensures
            tree_opt(r) == logic_tree(*self),
        decreases self,
    {
        let mut trees: Vec<LogicTree> = Vec::new();
        assert(trees_view(trees@) =~= kept(field_trees(self.fields@.take(0))));
        let mut i: usize = 0;
        while i < self.fields.len()
            invariant
                i <= self.fields.len(),
                trees_view(trees@) == kept(field_trees(self.fields@.take(i as int))),
            decreases self.fields.len() - i,
        {
            let filters = self.fields[i].1.to_filters(&self.fields[i].0);
            push_tree(&mut trees, filters_to_logic_tree(filters));
            proof {
                let more = field_trees(self.fields@.take(i + 1));
                assert(more.drop_last() =~= field_trees(self.fields@.take(i as int)));
                assert(more.last() == field_tree(self.fields@[i as int]));
            }
            i += 1;
        }
        assert(self.fields@.take(i as int) =~= self.fields@);
        let ghost fields = trees_view(trees@);

        if let Some(list) = &self.and {
            let all = TableFilter::trees_of(list);
            assert(listed_trees(*list) =~= logic_trees(list@));
            push_tree(&mut trees, combine_with_and(all));
        } else {
            assert(trees_view(trees@) =~= fields + Seq::empty());
        }
        let ghost with_and = trees_view(trees@);

        if let Some(list) = &self.or {
            let any = TableFilter::trees_of(list);
            assert(listed_trees(*list) =~= logic_trees(list@));
            if any.len() > 0 {
                push_tree(&mut trees, Some(LogicTree::or(any)));
            } else {
                assert(trees_view(any@).len() == 0);
                assert(trees_view(trees@) =~= with_and + Seq::empty());
            }
        } else {
            assert(trees_view(trees@) =~= with_and + Seq::empty());
        }
        let ghost with_or = trees_view(trees@);

        match &self.not {
            Some(inner) => {
                match inner.to_logic_tree() {
                    Some(tree) => {
                        push_tree(&mut trees, Some(negate_tree(tree)));
                    },
                    None => {
                        assert(trees_view(trees@) =~= with_or + Seq::empty());
                    },
                }
            },
            None => {
                assert(trees_view(trees@) =~= with_or + Seq::empty());
            },
        }

        combine_with_and(trees)
    }

    /// The trees of the filters of a list that ask anything.
    fn trees_of(list: &Vec<TableFilter>) -> (r: Vec<LogicTree>)
        ensures
            trees_view(r@) == kept(logic_trees(list@)),
        decreases list,
    {
        let mut trees: Vec<LogicTree> = Vec::new();
        assert(trees_view(trees@) =~= kept(logic_trees(list@.take(0))));
        let mut i: usize = 0;
        while i < list.len()
            invariant
                i <= list.len(),
                trees_view(trees@) == kept(logic_trees(list@.take(i as int))),
            decreases list.len() - i,
        {
            assert(decreases_to!(*list => list@[i as int]));
            push_tree(&mut trees, list[i].to_logic_tree());
            proof {
                let more = logic_trees(list@.take(i + 1));
                assert(more.drop_last() =~= logic_trees(list@.take(i as int)));
                assert(more.last() == logic_tree(list@[i as int]));
            }
            i += 1;
        }
        assert(list@.take(i as int) =~= list@);
        trees
    }
}

// ---------------------------------------------------------------------------
// Arguments of a query
// ---------------------------------------------------------------------------

/// The arguments of a table's query.
#[derive(Debug)]
pub struct QueryArgs {
    /// The columns to select; every column where none is named.
    pub select: Vec<String>,
    pub filter: Option<TableFilter>,
    pub order_by: Vec<OrderByField>,
    pub limit: Option<i64>,
    pub offset: Option<i64>,
    /// The arguments of each nested relation.
    pub relations: Vec<(String, QueryArgs)>,
}

impl Default for QueryArgs {
    fn default() -> (r: QueryArgs)
        ensures
            r.select@.len() == 0,
            r.filter is None,
            r.order_by@.len() == 0,
            r.limit is None,
            r.offset is None,
            r.relations@.len() == 0,
    {
        QueryArgs {
            select: Vec::new(),
            filter: None,
            order_by: Vec::new(),
            limit: None,
            offset: None,
            relations: Vec::new(),
        }
    }
}

/// The rows that a limit and an offset keep.
pub open spec fn range_of(limit: Option<i64>, offset: Option<i64>) -> Range {
    Range {
        offset: match offset {
            Some(n) => n,
            None => 0,
        },
        limit,
    }
}

/// Whether the arguments of each relation are in order.
pub open spec fn relations_wf(relations: Vec<(String, QueryArgs)>) -> bool
    decreases relations,
{
    forall|i: int| 0 <= i < relations@.len() ==> (#[trigger] relations@[i]).1.wf()
}

impl QueryArgs {
    /// A relation is asked for once, here and in those inside, and every filter
    /// filters a column once.
    pub open spec fn wf(self) -> bool
        decreases self,
    {
        &&& once(keyed(self.relations@))
        &&& relations_wf(self.relations)
        &&& (match self.filter {
            Some(filter) => filter.wf(),
            None => true,
        })
    }

    pub fn new() -> (r: QueryArgs)
        ensures
            r.select@.len() == 0,
            r.filter is None,
            r.order_by@.len() == 0,
            r.limit is None,
            r.offset is None,
            r.relations@.len() == 0,
            r.wf(),
    {
        QueryArgs::default()
    }

    /// With the columns to select.
    pub fn with_select(self, fields: Vec<String>) -> (r: QueryArgs)
        ensures
            r == (QueryArgs { select: fields, ..self }),
            self.wf() ==> r.wf(),
    {
        let mut this = self;
        this.select = fields;
        this
    }

    /// With a filter.
    pub fn with_filter(self, filter: TableFilter) -> (r: QueryArgs)
        ensures
            r == (QueryArgs { filter: Some(filter), ..self }),
            self.wf() && filter.wf() ==> r.wf(),
    {
        let mut this = self;
        this.filter = Some(filter);
        this
    }

    /// With an ordering.
    pub fn with_order_by(self, order_by: Vec<OrderByField>) -> (r: QueryArgs)
        ensures
            r == (QueryArgs { order_by, ..self }),
            self.wf() ==> r.wf(),
    {
        let mut this = self;
        this.order_by = order_by;
        this
    }

    /// With a limit and an offset, or without where the pagination has none.
    pub fn with_pagination(self, pagination: PaginationInput) -> (r: QueryArgs)
        ensures
            r == (QueryArgs { limit: pagination.limit, offset: pagination.offset, ..self }),
            self.wf() ==> r.wf(),
    {
        let mut this = self;
        this.limit = pagination.limit;
        this.offset = pagination.offset;
        this
    }

    /// With a limit.
    pub fn with_limit(self, limit: i64) -> (r: QueryArgs)
        ensures
            r == (QueryArgs { limit: Some(limit), ..self }),
            self.wf() ==> r.wf(),
    {
        let mut this = self;
        this.limit = Some(limit);
        this
    }

    /// With an offset.
    pub fn with_offset(self, offset: i64) -> (r: QueryArgs)
        ensures
            r == (QueryArgs { offset: Some(offset), ..self }),
            self.wf() ==> r.wf(),
    {
        let mut this = self;
        this.offset = Some(offset);
        this
    }

    /// With the arguments of a nested relation, in place of those it had.
    pub fn with_relation(self, name: String, args: QueryArgs) -> (r: QueryArgs)
        ensures
            keyed(r.relations@) == keyed_put(keyed(self.relations@), name@, args),
            r == (QueryArgs { relations: r.relations, ..self }),
            self.wf() && args.wf() ==> r.wf(),
    {
        proof {
            if self.wf() && args.wf() {
                law_keyed_put(keyed(self.relations@), name@, args);
            }
        }
        let mut this = self;
        put_keyed(&mut this.relations, name, args);
        proof {
            if self.wf() && args.wf() {
                assert forall|i: int| 0 <= i < this.relations@.len() implies (
                #[trigger] this.relations@[i]).1.wf() by {
                    assert(keyed(this.relations@)[i].1 == this.relations@[i].1);
                    if i < self.relations@.len() {
                        assert(keyed(self.relations@)[i].1 == self.relations@[i].1);
                    }
                }
            }
        }
        this
    }

    /// The rows the pagination keeps.
    pub fn to_range(&self) -> (r: Range)
        ensures
            r == range_of(self.limit, self.offset),
    {
        let offset = match self.offset {
            Some(n) => n,
            None => 0,
        };
        Range { offset, limit: self.limit }
    }

    pub fn has_select(&self) -> (r: bool)
        ensures
            r == (self.select@.len() > 0),
    {
        self.select.len() > 0
    }

    pub fn has_filter(&self) -> (r: bool)
        ensures
            r == self.filter is Some,
    {
        self.filter.is_some()
    }

    pub fn has_order_by(&self) -> (r: bool)
        ensures
            r == (self.order_by@.len() > 0),
    {
        self.order_by.len() > 0
    }

    pub fn has_pagination(&self) -> (r: bool)
        ensures
            r == (self.limit is Some || self.offset is Some),
    {
        self.limit.is_some() || self.offset.is_some()
    }
}

// ---------------------------------------------------------------------------
// The plan
// ---------------------------------------------------------------------------

/// A column of a table under its own name, with its type.
pub open spec fn typed_column(c: Column) -> FieldV {
    FieldV { name: c.name@, pg_type: c.data_type@ }
}

/// The columns of a table that names name, from the `i`th name on, after
/// those so far. A name without a column is passed over.
pub open spec fn named_columns(names: Seq<String>, table: Table, i: nat, acc: Seq<FieldV>) -> Seq<
    FieldV,
>
    decreases names.len() - i,
{
    if i >= names.len() {
        acc
    } else {
        match table.column(names[i as int]@) {
            Some(c) => named_columns(
                names,
                table,
                i + 1,
                acc.push(FieldV { name: names[i as int]@, pg_type: c.data_type@ }),
            ),
            None => named_columns(names, table, i + 1, acc),
        }
    }
}

/// The columns a query selects: those it names, or all where it names none.
pub open spec fn selected(columns: Seq<String>, table: Table) -> Seq<FieldV> {
    if columns.len() == 0 {
        table.columns@.map_values(|c: Column| typed_column(c))
    } else {
        named_columns(columns, table, 0, Seq::empty())
    }
}

/// The terms of orderings from the `i`th on, after those so far. An ordering
/// by a column the table lacks is passed over.
pub open spec fn ordered(order_by: Seq<OrderByField>, table: Table, i: nat, acc: Seq<OrderTermV>)
    -> Seq<OrderTermV>
    decreases order_by.len() - i,
{
    if i >= order_by.len() {
        acc
    } else {
        match table.column(order_by[i as int].field@) {
            Some(c) => ordered(
                order_by,
                table,
                i + 1,
                acc.push(typed_term(term_of(order_by[i as int]@), c.data_type@)),
            ),
            None => ordered(order_by, table, i + 1, acc),
        }
    }
}

/// The condition a filter gives, with the type of each column.
pub open spec fn clauses_of(filter: Option<TableFilter>, table: Table) -> Seq<TypedTreeV> {
    match filter {
        None => Seq::empty(),
        Some(filter) => match logic_tree(filter) {
            Some(tree) => seq![typed_tree(tree, table)],
            None => Seq::empty(),
        },
    }
}

fn push_field(fields: &mut Vec<CoercibleField>, name: &str, pg_type: &str)
    ensures
        fields_view(final(fields)@) == fields_view(old(fields)@).push(
            (FieldV { name: name@, pg_type: pg_type@ }),
        ),
{
    let ghost before = fields@;
    fields.push(CoercibleField::simple(name, pg_type));
    assert(fields_view(fields@) =~= fields_view(before).push(
        FieldV { name: name@, pg_type: pg_type@ },
    ));
}

/// The columns that names name, with their types.
pub fn build_named_columns(columns: &Vec<String>, table: &Table) -> (r: Vec<CoercibleField>)
    ensures
        fields_view(r@) == named_columns(columns@, *table, 0, Seq::empty()),
{
    let mut fields: Vec<CoercibleField> = Vec::new();
    assert(fields_view(fields@) =~= Seq::empty());
    let mut i: usize = 0;
    while i < columns.len()
        invariant
            i <= columns.len(),
            named_columns(columns@, *table, 0, Seq::empty()) == named_columns(
                columns@,
                *table,
                i as nat,
                fields_view(fields@),
            ),
        decreases columns.len() - i,
    {
        if let Some(c) = table.get_column(&columns[i]) {
            push_field(&mut fields, &columns[i], &c.data_type);
        }
        i += 1;
    }
    fields
}

/// The columns a query selects: those it names, or all where it names none.
pub fn build_select_fields(columns: &Vec<String>, table: &Table) -> (r: Vec<CoercibleField>)
    ensures
        fields_view(r@) == selected(columns@, *table),
{
    if columns.len() > 0 {
        return build_named_columns(columns, table);
    }
    let mut fields: Vec<CoercibleField> = Vec::new();
    let mut i: usize = 0;
    while i < table.columns.len()
        invariant
            i <= table.columns.len(),
            fields@.len() == i,
            forall|k: int|
                0 <= k < i ==> fields_view(fields@)[k] == typed_column(
                    #[trigger] table.columns@[k],
                ),
        decreases table.columns.len() - i,
    {
        let ghost before = fields_view(fields@);
        push_field(&mut fields, &table.columns[i].name, &table.columns[i].data_type);
        assert(fields@.len() == fields_view(fields@).len());
        assert(forall|k: int| 0 <= k < i ==> fields_view(fields@)[k] == before[k]);
        i += 1;
    }
    assert(fields_view(fields@) =~= selected(columns@, *table));
    fields
}

/// The terms of an ordering, with the types of their columns.
pub fn build_order_terms(order_by: &Vec<OrderByField>, table: &Table) -> (r: Vec<
    CoercibleOrderTerm,
>)
    ensures
        order_view(r@) == ordered(order_by@, *table, 0, Seq::empty()),
{
    let mut terms: Vec<CoercibleOrderTerm> = Vec::new();
    assert(order_view(terms@) =~= Seq::empty());
    let mut i: usize = 0;
    while i < order_by.len()
        invariant
            i <= order_by.len(),
            ordered(order_by@, *table, 0, Seq::empty()) == ordered(
                order_by@,
                *table,
                i as nat,
                order_view(terms@),
            ),
        decreases order_by.len() - i,
    {
        if let Some(c) = table.get_column(&order_by[i].field) {
            let ghost before = terms@;
            let term = CoercibleOrderTerm::from_order_term(
                &order_by[i].to_order_term(),
                &c.data_type,
            );
            terms.push(term);
            assert(order_view(terms@) =~= order_view(before).push(term@));
        }
        i += 1;
    }
    terms
}

/// The condition of a filter, with the types of its columns: none where there
/// is no filter or it asks nothing.
pub fn build_where_clauses(filter: &Option<TableFilter>, table: &Table) -> (r: Vec<
    CoercibleLogicTree,
>)
    ensures
        typed_trees_view(r@) == clauses_of(*filter, *table),
{
    let mut clauses: Vec<CoercibleLogicTree> = Vec::new();
    if let Some(filter) = filter {
        if let Some(tree) = filter.to_logic_tree() {
            clauses.push(CoercibleLogicTree::from_logic_tree(&tree, table));
        }
    }
    assert(typed_trees_view(clauses@) =~= clauses_of(*filter, *table));
    clauses
}

/// The plan of a query on a table.
pub fn build_read_plan(args: &QueryArgs, table: &Table) -> (r: ReadPlan)
    ensures
        fields_view(r.select@) == selected(args.select@, *table),
        r.from@ == (table.schema@, table.name@),
        r.from_alias is None,
        typed_trees_view(r.where_clauses@) == clauses_of(args.filter, *table),
        order_view(r.order@) == ordered(args.order_by@, *table, 0, Seq::empty()),
        r.range == range_of(args.limit, args.offset),
        r.rel_name@ == table.name@,
        r.depth == 0,
{
    ReadPlan {
        select: build_select_fields(&args.select, table),
        from: QualifiedIdentifier::new(&table.schema, &table.name),
        from_alias: None,
        where_clauses: build_where_clauses(&args.filter, table),
        order: build_order_terms(&args.order_by, table),
        range: args.to_range(),
        rel_name: table.name.clone(),
        depth: 0,
    }
}

// ---------------------------------------------------------------------------
// Laws
// ---------------------------------------------------------------------------

/// A filter with no part asks nothing.
pub proof fn law_empty_filter_has_no_tree(f: TableFilter)
    requires
        f.asks_nothing(),
    ensures
        logic_tree(f) is None,
{
    assert(field_trees(f.fields@) =~= Seq::empty());
}

/// Whether a filter is nothing but one that must not hold.
pub open spec fn only_denies(f: TableFilter) -> bool {
    f.fields@.len() == 0 && f.and is None && f.or is None && f.not is Some
}

/// A filter that must not hold stands for the negation of its tree, and two of
/// them, one inside the other, cancel.
pub proof fn law_denials_cancel(f: TableFilter)
    requires
        only_denies(f),
    ensures
        logic_tree(f) == (match logic_tree(*(f.not->0)) {
            Some(tree) => Some(negated(tree)),
            None => None,
        }),
        only_denies(*(f.not->0)) ==> logic_tree(f) == logic_tree(*((*(f.not->0)).not->0)),
{
    lemma_only_denies(f);
    if only_denies(*(f.not->0)) {
        lemma_only_denies(*(f.not->0));
    }
}

proof fn lemma_only_denies(f: TableFilter)
    requires
        only_denies(f),
    ensures
        logic_tree(f) == (match logic_tree(*(f.not->0)) {
            Some(tree) => Some(negated(tree)),
            None => None,
        }),
{
    assert(field_trees(f.fields@) =~= Seq::empty());
    let none = Seq::<LogicTreeV>::empty();
    match logic_tree(*(f.not->0)) {
        Some(tree) => {
            assert(none + none + none + seq![negated(tree)] =~= seq![negated(tree)]);
        },
        None => {
            assert(none + none + none + none =~= none);
        },
    }
}

proof fn lemma_named_columns(names: Seq<String>, table: Table, i: nat, acc: Seq<FieldV>, k: int)
    requires
        forall|j: int|
            0 <= j < acc.len() ==> table.column((#[trigger] acc[j]).name) is Some && table.column(
                acc[j].name,
            )->0.data_type@ == acc[j].pg_type,
        0 <= k < named_columns(names, table, i, acc).len(),
    ensures
        table.column(named_columns(names, table, i, acc)[k].name) is Some,
        table.column(named_columns(names, table, i, acc)[k].name)->0.data_type@
            == named_columns(names, table, i, acc)[k].pg_type,
    decreases names.len() - i,
{
    if i < names.len() {
        match table.column(names[i as int]@) {
            Some(c) => {
                let next = acc.push(FieldV { name: names[i as int]@, pg_type: c.data_type@ });
                lemma_named_columns(names, table, i + 1, next, k);
            },
            None => {
                lemma_named_columns(names, table, i + 1, acc, k);
            },
        }
    }
}

/// A column that a query names is selected only where the table has it, and
/// with the type the table gives it.
pub proof fn law_only_columns_are_selected(columns: Seq<String>, table: Table, k: int)
    requires
        columns.len() > 0,
        0 <= k < selected(columns, table).len(),
    ensures
        table.column(selected(columns, table)[k].name) is Some,
        table.column(selected(columns, table)[k].name)->0.data_type@ == selected(
            columns,
            table,
        )[k].pg_type,
{
    lemma_named_columns(columns, table, 0, Seq::empty(), k);
}

} // verus!
