pub mod grammar;
pub mod laws;
pub mod lexer;
pub mod parser;
pub mod token;

pub use lexer::C1Lexer;
pub use parser::C1Parser;
pub use token::{C1Token, ParseResult, Token, TokenModel};
