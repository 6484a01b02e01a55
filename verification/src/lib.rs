//! A streaming HTML tokenizer: a character-by-character lexical analyzer that
//! turns a sequence of input code units (bytes or decoded characters) into a
//! sequence of lexical tokens (tags, text characters, comments, end-of-stream),
//! following a finite-state grammar modeled on the WHATWG HTML tokenization
//! algorithm. Character-reference decoding, CDATA, RAWTEXT/RCDATA content
//! models and DOCTYPE details are deliberately left out: this is a partial but
//! behaviorally precise subset covering the data, tag-open/close, tag-name and
//! attribute states together with their error conditions.

pub mod codepoint;
pub mod location;
pub mod strbuf;
pub mod input;
pub mod lexical;
pub mod syntax;

pub use codepoint::UnitCodePointExt;
pub use input::InputStream;
pub use lexical::{HTMLLexicalError, HTMLToken, HTMLTokenizer};
pub use location::Location;
pub use syntax::{HTMLParser, HTMLParserError};
