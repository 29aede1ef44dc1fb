//! Tokenizer for the front end of a formatter of a C-like language.
//!
//! The scanner's behaviour is stated as a model over character sequences
//! (`scan`), the executable lexer (`lexer`) is proved to follow it, and the
//! general facts about tokenizing are proved in `laws`.
pub mod direction;
pub mod laws;
pub mod lexer;
pub mod parser;
pub mod scan;
pub mod text;
pub mod token;

pub use direction::Direction;
pub use lexer::{Lexer, LexerError};
pub use parser::{ParseTree, Parser};
pub use token::{Token, TokenKeyword, TokenView};
