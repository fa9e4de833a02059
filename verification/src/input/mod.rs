//! The inputs of a query: filters, orderings and pagination.

pub mod filter;
pub mod mutation;
pub mod order;
