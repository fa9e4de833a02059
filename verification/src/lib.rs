use vstd::prelude::*;

pub mod answer;
pub mod binds;
pub mod catalog;
pub mod comparison;
pub mod computed;
pub mod condition;
pub mod context;
pub mod embed;
pub mod entity;
pub mod error;
pub mod generated;
pub mod geojson;
pub mod input;
pub mod inputs;
pub mod insert;
pub mod json;
pub mod json_path;
pub mod laws;
pub mod limits;
pub mod live;
pub mod lookup;
pub mod mutate;
pub mod object_types;
pub mod ordering;
pub mod plan;
pub mod projection;
pub mod read;
pub mod request;
pub mod resolver;
pub mod role;
pub mod roots;
pub mod schema;
pub mod schema_def;
pub mod scope;
pub mod state;
pub mod statement;
pub mod text;
pub mod value;
pub mod write;

verus! {

} // verus!
