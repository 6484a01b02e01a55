//! The per-state handlers of the tokenizer, grouped as in the grammar: the
//! data state on one side, the tag and attribute states on the other.

pub mod data;
pub mod tag;

pub use data::HTMLTokenizerDataStream;
pub use tag::HTMLTokenizerTagStream;
