//! The lexical stage: tokens and their payloads, the closed set of lexical
//! error conditions, the tokenizer state machine, and its per-state handlers.

pub mod error;
pub mod lexeme;
pub mod token;
pub mod model;
pub mod tokenizer;
pub mod stream;

pub use error::{HTMLLexicalError, HTMLLexicalErrorVariant};
pub use lexeme::{HTMLLexeme, TagState};
pub use token::HTMLToken;
pub use tokenizer::{HTMLTokenizer, HTMLTokenizerErr, HTMLTokenizerOk, HTMLTokenizerState};
pub use stream::{HTMLTokenizerDataStream, HTMLTokenizerTagStream};
