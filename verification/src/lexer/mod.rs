pub mod lexer;
pub mod token;

pub use lexer::{Lexeme, Lexer};
pub use token::Token;
