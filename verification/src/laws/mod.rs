//! What holds of the library as a whole.

pub mod answering;
pub mod binding;
pub mod calling;
pub mod changing;
pub mod choosing;
pub mod comparing;
pub mod counting;
pub mod embedding;
pub mod federation;
pub mod fetching;
pub mod filtering;
pub mod gathering;
pub mod input;
pub mod keys;
pub mod listing;
pub mod locating;
pub mod matching;
pub mod mutating;
pub mod nesting;
pub mod offering;
pub mod permission;
pub mod placeholder;
pub mod quoting;
pub mod reaching;
pub mod read;
pub mod refusing;
pub mod resolving;
pub mod schema;
pub mod session;
pub mod shaping;
pub mod showing;
pub mod sifting;
pub mod sorting;
pub mod taking;
pub mod value;
pub mod write;
