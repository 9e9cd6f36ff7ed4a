use vstd::prelude::*;

verus! {

/// The kinds of token. `Gt` is the token written `<` and `Lt` the one
/// written `>`, `Ge` is `<=` and `Le` is `>=`: the names follow the opcodes
/// that carry the comparisons out.
#[derive(Debug, PartialEq, Eq, Clone, Copy, Structural)]
pub enum Token {
    String,
    Number,
    Name,
    /// The token of a lexer that has read nothing yet.
    Unset,
    Eof,
    /// A single character, in an error message.
    SC(char),
    LeftParen,
    RightParen,
    LeftSquare,
    RightSquare,
    LeftBrace,
    RightBrace,
    Colon,
    Line,
    Dot,
    And,
    Or,
    Equal,
    Eq,
    Neq,
    Gt,
    Lt,
    Ge,
    Le,
    Plus,
    Dash,
    Star,
    Slash,
    Percent,
    Bang,
    Semi,
    Comma,
    Let,
    If,
    Else,
    Fn,
    For,
    Return,
    While,
    True,
    False,
    Nil,
}

} // verus!
