//! Filters, logic trees and orderings as plain values.

use crate::text::{copy_texts, owned, texts};
use vstd::prelude::*;

verus! {

/// A column that a filter or an ordering names.
#[derive(Debug)]
pub struct Field {
    pub name: String,
}

impl Field {
    /// The column of that name.
    pub fn simple(name: &str) -> (r: Field)
        ensures
            r.name@ == name@,
    {
        Field { name: owned(name) }
    }
}

/// An operator that compares with one value.
#[derive(Debug, Clone, Copy, PartialEq, Eq, Structural)]
pub enum QuantOperator {
    Equal,
    GreaterThan,
    GreaterThanEqual,
    LessThan,
    LessThanEqual,
    Like,
    ILike,
}

/// Whether one value or every value of a list has to match.
#[derive(Debug, Clone, Copy, PartialEq, Eq, Structural)]
pub enum Quantifier {
    Any,
    All,
}

/// What `IS` can ask.
#[derive(Debug, Clone, Copy, PartialEq, Eq, Structural)]
pub enum IsValue {
    Null,
    True,
    False,
}

/// A comparison.
#[derive(Debug)]
pub enum Operation {
    Quant { op: QuantOperator, quantifier: Option<Quantifier>, value: String },
    In(Vec<String>),
    Is(IsValue),
}

/// What a comparison is.
#[verifier::ext_equal]
pub enum OperationV {
    Quant { op: QuantOperator, quantifier: Option<Quantifier>, value: Seq<char> },
    In(Seq<Seq<char>>),
    Is(IsValue),
}

impl View for Operation {
    type V = OperationV;

    open spec fn view(&self) -> OperationV {
        match *self {
            Operation::Quant { op, quantifier, value } => OperationV::Quant {
                op,
                quantifier,
                value: value@,
            },
            Operation::In(values) => OperationV::In(texts(values@)),
            Operation::Is(value) => OperationV::Is(value),
        }
    }
}

impl Operation {
    /// A copy of the comparison.
    pub fn copy(&self) -> (r: Operation)
        ensures
            r@ == self@,
    {
        match self {
            Operation::Quant { op, quantifier, value } => Operation::Quant {
                op: *op,
                quantifier: *quantifier,
                value: value.clone(),
            },
            Operation::In(values) => Operation::In(copy_texts(values)),
            Operation::Is(value) => Operation::Is(*value),
        }
    }
}

/// A comparison that may be negated.
#[derive(Debug)]
pub struct OpExpr {
    pub negated: bool,
    pub operation: Operation,
}

impl OpExpr {
    /// The comparison as it is.
    pub fn new(operation: Operation) -> (r: OpExpr)
        ensures
            !r.negated,
            r.operation == operation,
    {
        OpExpr { negated: false, operation }
    }

    /// The comparison, negated or not.
    pub fn with_negated(self, negated: bool) -> (r: OpExpr)
        ensures
            r.negated == negated,
            r.operation == self.operation,
    {
        OpExpr { negated, operation: self.operation }
    }
}

/// A comparison of one column.
#[derive(Debug)]
pub struct Filter {
    pub field: Field,
    pub op_expr: OpExpr,
}

/// What a comparison of one column is.
#[verifier::ext_equal]
pub struct FilterV {
    pub field: Seq<char>,
    pub negated: bool,
    pub operation: OperationV,
}

impl View for Filter {
    type V = FilterV;

    open spec fn view(&self) -> FilterV {
        FilterV {
            field: self.field.name@,
            negated: self.op_expr.negated,
            operation: self.op_expr.operation@,
        }
    }
}

impl Filter {
    pub fn new(field: Field, op_expr: OpExpr) -> (r: Filter)
        ensures
            r.field == field,
            r.op_expr == op_expr,
    {
        Filter { field, op_expr }
    }
}

/// What each comparison of a list is.
pub open spec fn filters_view(v: Seq<Filter>) -> Seq<FilterV> {
    v.map_values(|f: Filter| f@)
}

/// How the parts of an expression are combined.
#[derive(Debug, Clone, Copy, PartialEq, Eq, Structural)]
pub enum LogicOperator {
    And,
    Or,
}

/// A comparison, or a combination of such trees.
#[derive(Debug)]
pub enum LogicTree {
    Expr { negated: bool, op: LogicOperator, children: Vec<LogicTree> },
    Stmt(Filter),
}

/// What a tree is.
#[verifier::ext_equal]
pub enum LogicTreeV {
    Expr { negated: bool, op: LogicOperator, children: Seq<LogicTreeV> },
    Stmt(FilterV),
}

/// What a tree is.
pub open spec fn tree_view(t: LogicTree) -> LogicTreeV
    decreases t,
{
    match t {
        LogicTree::Expr { negated, op, children } => LogicTreeV::Expr {
            negated,
            op,
            children: Seq::new(
                children@.len(),
                |i: int|
                    if 0 <= i < children@.len() {
                        tree_view(children@[i])
                    } else {
                        LogicTreeV::Expr {
                            negated: false,
                            op: LogicOperator::And,
                            children: Seq::empty(),
                        }
                    },
            ),
        },
        LogicTree::Stmt(filter) => LogicTreeV::Stmt(filter@),
    }
}

impl View for LogicTree {
    type V = LogicTreeV;

    open spec fn view(&self) -> LogicTreeV {
        tree_view(*self)
    }
}

/// What each tree of a list is.
pub open spec fn trees_view(v: Seq<LogicTree>) -> Seq<LogicTreeV> {
    v.map_values(|t: LogicTree| t@)
}

/// What an optional tree is.
pub open spec fn tree_opt(o: Option<LogicTree>) -> Option<LogicTreeV> {
    match o {
        Some(t) => Some(t@),
        None => None,
    }
}

pub proof fn lemma_tree_view(negated: bool, op: LogicOperator, children: Vec<LogicTree>)
    ensures
        tree_view(LogicTree::Expr { negated, op, children }) == (LogicTreeV::Expr {
            negated,
            op,
            children: trees_view(children@),
        }),
{
    assert(tree_view(LogicTree::Expr { negated, op, children })->children =~= trees_view(
        children@,
    ));
}

impl LogicTree {
    /// Trees of which one has to hold.
    pub fn or(children: Vec<LogicTree>) -> (r: LogicTree)
        ensures
            r@ == (LogicTreeV::Expr {
                negated: false,
                op: LogicOperator::Or,
                children: trees_view(children@),
            }),
    {
        proof {
            lemma_tree_view(false, LogicOperator::Or, children);
        }
        LogicTree::Expr { negated: false, op: LogicOperator::Or, children }
    }
}

/// Which way rows are sorted.
#[derive(Debug, Clone, Copy, PartialEq, Eq, Structural)]
pub enum Direction {
    Asc,
    Desc,
}

/// Where nulls are sorted.
#[derive(Debug, Clone, Copy, PartialEq, Eq, Structural)]
pub enum OrderNulls {
    First,
    Last,
}

/// A column that rows are sorted by.
#[derive(Debug)]
pub enum OrderTerm {
    Field { field: Field, direction: Option<Direction>, nulls: Option<OrderNulls> },
}

/// Which rows of an answer are kept.
#[derive(Debug, Clone, Copy, PartialEq, Eq, Structural)]
pub struct Range {
    pub offset: i64,
    pub limit: Option<i64>,
}

} // verus!
