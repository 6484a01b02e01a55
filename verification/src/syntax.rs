//! The syntactic stage: a thin consumer that drives the tokenizer until the
//! end of the stream and collects the tokens it produced.

pub mod parser;

pub use parser::{HTMLParser, HTMLParserError};
