//! The arguments of a table's queries and mutations, and the plans they give.

pub mod mutation;
pub mod query;
