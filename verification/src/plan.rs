//! Reads and writes planned against a table, with the type of each column.

use crate::catalog::{QualifiedIdentifier, Table};
use crate::input::order::term_view;
use crate::request::{
    Direction, Field, Filter, FilterV, LogicOperator, LogicTree, LogicTreeV, OpExpr, OrderNulls,
    OrderTerm, Range,
};
use crate::text::owned;
use vstd::prelude::*;

verus! {

/// A column and its type.
#[derive(Debug)]
pub struct CoercibleField {
    pub name: String,
    pub pg_type: String,
}

/// A column and its type.
#[verifier::ext_equal]
pub struct FieldV {
    pub name: Seq<char>,
    pub pg_type: Seq<char>,
}

impl View for CoercibleField {
    type V = FieldV;

    open spec fn view(&self) -> FieldV {
        FieldV { name: self.name@, pg_type: self.pg_type@ }
    }
}

impl CoercibleField {
    pub fn simple(name: &str, pg_type: &str) -> (r: CoercibleField)
        ensures
            r@ == (FieldV { name: name@, pg_type: pg_type@ }),
    {
        CoercibleField { name: owned(name), pg_type: owned(pg_type) }
    }
}

/// What each column of a list is.
pub open spec fn fields_view(v: Seq<CoercibleField>) -> Seq<FieldV> {
    v.map_values(|f: CoercibleField| f@)
}

/// A column that rows are sorted by, with its type.
#[derive(Debug)]
pub struct CoercibleOrderTerm {
    pub field: CoercibleField,
    pub direction: Option<Direction>,
    pub nulls: Option<OrderNulls>,
}

/// A column that rows are sorted by, with its type.
#[verifier::ext_equal]
pub struct OrderTermV {
    pub field: FieldV,
    pub direction: Option<Direction>,
    pub nulls: Option<OrderNulls>,
}

impl View for CoercibleOrderTerm {
    type V = OrderTermV;

    open spec fn view(&self) -> OrderTermV {
        OrderTermV { field: self.field@, direction: self.direction, nulls: self.nulls }
    }
}

/// A term with the type of its column.
pub open spec fn typed_term(
    term: (Seq<char>, Option<Direction>, Option<OrderNulls>),
    pg_type: Seq<char>,
) -> OrderTermV {
    OrderTermV { field: FieldV { name: term.0, pg_type }, direction: term.1, nulls: term.2 }
}

impl CoercibleOrderTerm {
    /// A term with the type of its column.
    pub fn from_order_term(term: &OrderTerm, pg_type: &str) -> (r: CoercibleOrderTerm)
        ensures
            r@ == typed_term(term_view(*term), pg_type@),
    {
        match term {
            OrderTerm::Field { field, direction, nulls } => CoercibleOrderTerm {
                field: CoercibleField::simple(&field.name, pg_type),
                direction: *direction,
                nulls: *nulls,
            },
        }
    }
}

/// What each term of a list is.
pub open spec fn order_view(v: Seq<CoercibleOrderTerm>) -> Seq<OrderTermV> {
    v.map_values(|t: CoercibleOrderTerm| t@)
}

/// A logic tree whose columns have their types.
#[derive(Debug)]
pub enum CoercibleLogicTree {
    Expr { negated: bool, op: LogicOperator, children: Vec<CoercibleLogicTree> },
    Stmt { filter: Filter, pg_type: String },
}

/// A logic tree whose columns have their types.
#[verifier::ext_equal]
pub enum TypedTreeV {
    Expr { negated: bool, op: LogicOperator, children: Seq<TypedTreeV> },
    Stmt { filter: FilterV, pg_type: Seq<char> },
}

/// What a typed tree is.
pub open spec fn typed_view(t: CoercibleLogicTree) -> TypedTreeV
    decreases t,
{
    match t {
        CoercibleLogicTree::Expr { negated, op, children } => TypedTreeV::Expr {
            negated,
            op,
            children: Seq::new(
                children@.len(),
                |i: int|
                    if 0 <= i < children@.len() {
                        typed_view(children@[i])
                    } else {
                        TypedTreeV::Expr {
                            negated: false,
                            op: LogicOperator::And,
                            children: Seq::empty(),
                        }
                    },
            ),
        },
        CoercibleLogicTree::Stmt { filter, pg_type } => TypedTreeV::Stmt {
            filter: filter@,
            pg_type: pg_type@,
        },
    }
}

impl View for CoercibleLogicTree {
    type V = TypedTreeV;

    open spec fn view(&self) -> TypedTreeV {
        typed_view(*self)
    }
}

/// What each typed tree of a list is.
pub open spec fn typed_trees_view(v: Seq<CoercibleLogicTree>) -> Seq<TypedTreeV> {
    v.map_values(|t: CoercibleLogicTree| t@)
}

/// The type a table gives a column, text where it has no such column.
pub open spec fn pg_type_in(table: Table, name: Seq<char>) -> Seq<char> {
    match table.column(name) {
        Some(c) => c.data_type@,
        None => "text"@,
    }
}

/// The type a table gives a column, text where it has no such column.
pub fn column_pg_type(table: &Table, name: &str) -> (r: String)
    ensures
        r@ == pg_type_in(*table, name@),
{
    match table.get_column(name) {
        Some(c) => c.data_type.clone(),
        None => owned("text"),
    }
}

/// A tree with the type a table gives each column.
pub open spec fn typed_tree(tree: LogicTreeV, table: Table) -> TypedTreeV
    decreases tree,
{
    match tree {
        LogicTreeV::Expr { negated, op, children } => TypedTreeV::Expr {
            negated,
            op,
            children: Seq::new(
                children.len(),
                |i: int|
                    if 0 <= i < children.len() {
                        typed_tree(children[i], table)
                    } else {
                        TypedTreeV::Expr {
                            negated: false,
                            op: LogicOperator::And,
                            children: Seq::empty(),
                        }
                    },
            ),
        },
        LogicTreeV::Stmt(filter) => TypedTreeV::Stmt {
            filter,
            pg_type: pg_type_in(table, filter.field),
        },
    }
}

impl CoercibleLogicTree {
    /// A tree with the type a table gives each column.
    pub fn from_logic_tree(tree: &LogicTree, table: &Table) -> (r: CoercibleLogicTree)
        ensures
            r@ == typed_tree(tree@, *table),
        decreases tree,
    {
        match tree {
            LogicTree::Expr { negated, op, children } => {
                let mut typed: Vec<CoercibleLogicTree> = Vec::new();
                let mut i: usize = 0;
                while i < children.len()
                    invariant
                        i <= children.len(),
                        typed@.len() == i,
                        tree is Expr,
                        *children == tree->children,
                        forall|k: int|
                            0 <= k < i ==> (#[trigger] typed@[k])@ == typed_tree(
                                children@[k]@,
                                *table,
                            ),
                    decreases children.len() - i,
                {
                    assert(decreases_to!(*children => children@[i as int]));
                    typed.push(CoercibleLogicTree::from_logic_tree(&children[i], table));
                    i += 1;
                }
                let r = CoercibleLogicTree::Expr { negated: *negated, op: *op, children: typed };
                assert(r@->Expr_children =~= typed_tree(tree@, *table)->Expr_children);
                r
            },
            LogicTree::Stmt(filter) => {
                let kept = Filter::new(
                    Field::simple(&filter.field.name),
                    OpExpr {
                        negated: filter.op_expr.negated,
                        operation: filter.op_expr.operation.copy(),
                    },
                );
                let pg_type = column_pg_type(table, &filter.field.name);
                CoercibleLogicTree::Stmt { filter: kept, pg_type }
            },
        }
    }
}

/// A read of one table.
#[derive(Debug)]
pub struct ReadPlan {
    pub select: Vec<CoercibleField>,
    pub from: QualifiedIdentifier,
    pub from_alias: Option<String>,
    pub where_clauses: Vec<CoercibleLogicTree>,
    pub order: Vec<CoercibleOrderTerm>,
    pub range: Range,
    pub rel_name: String,
    pub depth: usize,
}

/// What becomes of a row that is already there.
#[derive(Debug, Clone, Copy, PartialEq, Eq, Structural)]
pub enum PreferResolution {
    MergeDuplicates,
    IgnoreDuplicates,
}

/// A write to one table. A body is a JSON document as UTF-8.
#[derive(Debug)]
pub enum MutatePlan {
    Insert {
        target: QualifiedIdentifier,
        columns: Vec<CoercibleField>,
        body: Option<Vec<u8>>,
        on_conflict: Option<(PreferResolution, Vec<String>)>,
        where_clauses: Vec<CoercibleLogicTree>,
        returning: Vec<String>,
        pk_cols: Vec<String>,
        apply_defaults: bool,
    },
    Update {
        target: QualifiedIdentifier,
        columns: Vec<CoercibleField>,
        body: Option<Vec<u8>>,
        where_clauses: Vec<CoercibleLogicTree>,
        returning: Vec<String>,
        apply_defaults: bool,
    },
    Delete {
        target: QualifiedIdentifier,
        where_clauses: Vec<CoercibleLogicTree>,
        returning: Vec<String>,
    },
}

} // verus!
