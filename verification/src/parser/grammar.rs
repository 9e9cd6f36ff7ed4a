//! The grammar, as mathematics: what the parser makes of a sequence of
//! tokens. Each function reads from a place in the tokens and gives what it
//! read with the place behind it, or the text of an error. The parser is
//! held to this.

use vstd::prelude::*;
use crate::lexer::lexer::{near_text, token_text, Lx};
use crate::lexer::token::Token;
use crate::parser::ast::{BinOp, ExprM, NodeM, PairM, StmtM, UnOp};

verus! {

/// The tokens of a source text, the last of which marks its end, and the
/// name of the source.
pub ghost struct Source {
    pub toks: Seq<Lx>,
    pub name: Seq<char>,
}

/// A sequence of tokens with its end marked: where the last token does not
/// mark the end of the text, one that does stands behind it, on the line of
/// the last token, and on line 1 where there is no token.
pub open spec fn ended(toks: Seq<Lx>) -> Seq<Lx> {
    if toks.len() > 0 && toks.last().token == Token::Eof {
        toks
    } else {
        toks.push(
            Lx {
                token: Token::Eof,
                text: Seq::empty(),
                line: if toks.len() > 0 {
                    toks.last().line
                } else {
                    1
                },
                number: 0,
            },
        )
    }
}

/// The binary operator that a token is, if it is one.
pub open spec fn binop_of(token: Token) -> Option<BinOp> {
    match token {
        Token::Neq => Some(BinOp::Neq),
        Token::Eq => Some(BinOp::Eq),
        Token::Ge => Some(BinOp::Ge),
        Token::Gt => Some(BinOp::Gt),
        Token::Le => Some(BinOp::Le),
        Token::Lt => Some(BinOp::Lt),
        Token::Plus => Some(BinOp::Add),
        Token::Dash => Some(BinOp::Sub),
        Token::Star => Some(BinOp::Mul),
        Token::Slash => Some(BinOp::Div),
        Token::Percent => Some(BinOp::Mod),
        Token::Equal => Some(BinOp::Assign),
        Token::And => Some(BinOp::And),
        Token::Or => Some(BinOp::Or),
        _ => None,
    }
}

/// The unary operator that a token is, if it is one.
pub open spec fn unop_of(token: Token) -> Option<UnOp> {
    match token {
        Token::Bang => Some(UnOp::Not),
        Token::Dash => Some(UnOp::Neg),
        _ => None,
    }
}

/// A block with its last statement returned: where the last statement of
/// the block is an expression, it becomes the `return` of that expression.
pub open spec fn returning(nodes: Seq<NodeM>) -> Seq<NodeM> {
    if nodes.len() == 0 {
        nodes
    } else {
        match nodes.last().stmt {
            StmtM::Expr(e) => nodes.drop_last().push(NodeM { line: nodes.last().line, stmt: StmtM::Return(e) }),
            _ => nodes,
        }
    }
}

impl Source {
    /// The result of a step that started at the place `i`. Every step of
    /// this grammar that succeeds takes at least one token and stops at a
    /// token; one that did not would be an error without a text.
    pub open spec fn moved<T>(self, r: Result<(T, int), Seq<char>>, i: int) -> Result<(T, int), Seq<char>> {
        match r {
            Ok((v, j)) => if i < j < self.toks.len() {
                Ok((v, j))
            } else {
                Err(Seq::empty())
            },
            Err(e) => Err(e),
        }
    }

    /// The token at a place.
    pub open spec fn tok(self, i: int) -> Token {
        self.toks[i].token
    }

    /// The tokens are well formed from the place `i` on: `i` is a place in
    /// them, and the last token marks the end.
    pub open spec fn at(self, i: int) -> bool {
        0 <= i < self.toks.len() && self.toks.last().token == Token::Eof
    }

    /// The place behind the token at `i`, which is `i` at the end.
    pub open spec fn next(self, i: int) -> int {
        if self.tok(i) != Token::Eof {
            i + 1
        } else {
            i
        }
    }

    /// The text of an error at the place `i`.
    pub open spec fn error(self, i: int, what: Seq<char>, token: Token) -> Seq<char> {
        near_text(self.name, self.toks[i].line as nat, what, token, self.toks[i].text)
    }

    /// The text of the error of a token that was expected at the place `i`
    /// and is not there.
    pub open spec fn error_expected(self, i: int, expected: Token) -> Seq<char> {
        self.error(i, "expected '"@ + token_text(expected, self.toks[i].text) + "'"@, self.tok(i))
    }

    /// The token at `i` is taken, which is to be the given one.
    pub open spec fn check_next(self, i: int, t: Token) -> Result<int, Seq<char>> {
        if self.tok(i) == t {
            Ok(self.next(i))
        } else {
            Err(self.error_expected(i, t))
        }
    }

    /// The token behind the one at `i` is to be the given one.
    pub open spec fn expect(self, i: int, t: Token) -> Result<int, Seq<char>> {
        if self.tok(self.next(i)) == t {
            Ok(self.next(i))
        } else {
            Err(self.error_expected(self.next(i), t))
        }
    }

    /// The token behind the one at `i` is taken, which is to be the given
    /// one.
    pub open spec fn expect_next(self, i: int, t: Token) -> Result<int, Seq<char>> {
        self.check_next(self.next(i), t)
    }

    /// The place behind a semicolon at `i`, and `i` where there is none.
    pub open spec fn skip_semi(self, i: int) -> int {
        if self.tok(i) == Token::Semi {
            self.next(i)
        } else {
            i
        }
    }
}

/// The statements of a program from the place `i` on, behind the
/// statements `acc`.
pub open spec fn program(src: Source, i: int, acc: Seq<NodeM>) -> Result<(Seq<NodeM>, int), Seq<char>>
    decreases src.toks.len() - i, 40nat,
{
    if !src.at(i) || src.tok(i) == Token::Eof {
        Ok((acc, i))
    } else {
        match src.moved(stmt(src, i), i) {
            Err(e) => Err(e),
            Ok((n, j)) => program(src, j, acc.push(n)),
        }
    }
}

/// A statement, and the semicolon behind it if there is one.
pub open spec fn stmt(src: Source, i: int) -> Result<(NodeM, int), Seq<char>>
    decreases src.toks.len() - i, 21nat,
{
    match src.moved(bare_stmt(src, i), i) {
        Err(e) => Err(e),
        Ok((n, j)) => Ok((n, src.skip_semi(j))),
    }
}

/// A statement without the semicolon behind it. Its line is the line of its
/// first token. What the first token does not make another statement is an
/// expression.
pub open spec fn bare_stmt(src: Source, i: int) -> Result<(NodeM, int), Seq<char>>
    decreases src.toks.len() - i, 20nat,
{
    if !src.at(i) {
        Err(Seq::empty())
    } else {
        match (match src.tok(i) {
            Token::LeftBrace => block_stmt(src, i),
            Token::Return => return_stmt(src, i),
            Token::While => while_stmt(src, i),
            Token::For => for_stmt(src, i),
            Token::Let => let_stmt(src, i),
            Token::If => if_stmt(src, i),
            Token::Fn => fn_stmt(src, i),
            _ => match expr(src, i) {
                Err(e) => Err(e),
                Ok((e, j)) => Ok((StmtM::Expr(e), j)),
            },
        }) {
            Err(e) => Err(e),
            Ok((s, j)) => Ok((NodeM { line: src.toks[i].line, stmt: s }, j)),
        }
    }
}

/// `let name` and `let name = value`; without a value the variable is
/// `nil`.
pub open spec fn let_stmt(src: Source, i: int) -> Result<(StmtM, int), Seq<char>>
    decreases src.toks.len() - i, 10nat,
{
    if !src.at(i) || src.tok(i) != Token::Let {
        Err(Seq::empty())
    } else {
        match src.expect(i, Token::Name) {
            Err(e) => Err(e),
            Ok(j) => {
                let name = src.toks[j].text;
                let k = src.next(j);
                if src.tok(k) == Token::Equal {
                    match expr(src, src.next(k)) {
                        Err(e) => Err(e),
                        Ok((value, m)) => Ok((StmtM::Let(name, value), m)),
                    }
                } else {
                    Ok((StmtM::Let(name, ExprM::Nil), k))
                }
            },
        }
    }
}

/// `for (init; cond; post) body`, where `init` is a `let` or an
/// expression.
pub open spec fn for_stmt(src: Source, i: int) -> Result<(StmtM, int), Seq<char>>
    decreases src.toks.len() - i, 10nat,
{
    if !src.at(i) || src.tok(i) != Token::For {
        Err(Seq::empty())
    } else {
        match src.expect_next(i, Token::LeftParen) {
            Err(e) => Err(e),
            Ok(j) => match src.moved(bare_stmt(src, j), j) {
                Err(e) => Err(e),
                Ok((pre, k)) => if !(pre.stmt is Let || pre.stmt is Expr) {
                    Err(
                        near_text(
                            src.name,
                            src.toks[k].line as nat,
                            "unexpected statement"@,
                            src.tok(j),
                            src.toks[j].text,
                        ),
                    )
                } else {
                    match src.check_next(k, Token::Semi) {
                        Err(e) => Err(e),
                        Ok(k1) => match src.moved(expr(src, k1), k1) {
                            Err(e) => Err(e),
                            Ok((cond, m)) => match src.check_next(m, Token::Semi) {
                                Err(e) => Err(e),
                                Ok(m1) => match src.moved(expr(src, m1), m1) {
                                    Err(e) => Err(e),
                                    Ok((post, n)) => match src.check_next(n, Token::RightParen) {
                                        Err(e) => Err(e),
                                        Ok(n1) => match block(src, n1) {
                                            Err(e) => Err(e),
                                            Ok((body, p)) => Ok(
                                                (StmtM::For(Box::new(pre), cond, post, Box::new(body)), p),
                                            ),
                                        },
                                    },
                                },
                            },
                        },
                    }
                },
            },
        }
    }
}

/// `if (cond) block` and `if (cond) block else block`.
pub open spec fn if_stmt(src: Source, i: int) -> Result<(StmtM, int), Seq<char>>
    decreases src.toks.len() - i, 10nat,
{
    if !src.at(i) || src.tok(i) != Token::If {
        Err(Seq::empty())
    } else {
        match src.expect_next(i, Token::LeftParen) {
            Err(e) => Err(e),
            Ok(j) => match src.moved(expr(src, j), j) {
                Err(e) => Err(e),
                Ok((cond, k)) => match src.check_next(k, Token::RightParen) {
                    Err(e) => Err(e),
                    Ok(k1) => match src.moved(block(src, k1), k1) {
                        Err(e) => Err(e),
                        Ok((body, m)) => if src.tok(m) == Token::Else {
                            match block(src, src.next(m)) {
                                Err(e) => Err(e),
                                Ok((other, n)) => Ok(
                                    (StmtM::If(cond, Box::new(body), Some(Box::new(other))), n),
                                ),
                            }
                        } else {
                            Ok((StmtM::If(cond, Box::new(body), None), m))
                        },
                    },
                },
            },
        }
    }
}

/// `fn name(params) { body }`.
pub open spec fn fn_stmt(src: Source, i: int) -> Result<(StmtM, int), Seq<char>>
    decreases src.toks.len() - i, 10nat,
{
    if !src.at(i) || src.tok(i) != Token::Fn {
        Err(Seq::empty())
    } else {
        match src.expect(i, Token::Name) {
            Err(e) => Err(e),
            Ok(j) => match src.expect_next(j, Token::LeftParen) {
                Err(e) => Err(e),
                Ok(k) => match src.moved(name_list(src, k, Token::RightParen), k) {
                    Err(e) => Err(e),
                    Ok((params, m)) => match block_stmt(src, m) {
                        Err(e) => Err(e),
                        Ok((body, n)) => Ok(
                            (
                                StmtM::Fn(
                                    src.toks[j].text,
                                    params,
                                    Box::new(NodeM { line: src.toks[m].line, stmt: body }),
                                ),
                                n,
                            ),
                        ),
                    },
                },
            },
        }
    }
}

/// `return` and `return value`; without a value, which is where a
/// semicolon, a closing brace or the end follows, it returns `nil`.
pub open spec fn return_stmt(src: Source, i: int) -> Result<(StmtM, int), Seq<char>>
    decreases src.toks.len() - i, 10nat,
{
    if !src.at(i) || src.tok(i) != Token::Return {
        Err(Seq::empty())
    } else {
        let j = src.next(i);
        if src.tok(j) == Token::Semi || src.tok(j) == Token::RightBrace || src.tok(j) == Token::Eof {
            Ok((StmtM::Return(ExprM::Nil), j))
        } else {
            match expr(src, j) {
                Err(e) => Err(e),
                Ok((val, k)) => Ok((StmtM::Return(val), k)),
            }
        }
    }
}

/// `while (cond) block`.
pub open spec fn while_stmt(src: Source, i: int) -> Result<(StmtM, int), Seq<char>>
    decreases src.toks.len() - i, 10nat,
{
    if !src.at(i) || src.tok(i) != Token::While {
        Err(Seq::empty())
    } else {
        match src.expect_next(i, Token::LeftParen) {
            Err(e) => Err(e),
            Ok(j) => match src.moved(expr(src, j), j) {
                Err(e) => Err(e),
                Ok((cond, k)) => match src.check_next(k, Token::RightParen) {
                    Err(e) => Err(e),
                    Ok(k1) => match block(src, k1) {
                        Err(e) => Err(e),
                        Ok((body, m)) => Ok((StmtM::While(cond, Box::new(body)), m)),
                    },
                },
            },
        }
    }
}

/// The statements of a block from the place `i` on, behind the statements
/// `acc`, up to the closing brace or the end.
pub open spec fn stmts(src: Source, i: int, acc: Seq<NodeM>) -> Result<(Seq<NodeM>, int), Seq<char>>
    decreases src.toks.len() - i, 30nat,
{
    if !src.at(i) || src.tok(i) == Token::RightBrace || src.tok(i) == Token::Eof {
        Ok((acc, i))
    } else {
        match src.moved(stmt(src, i), i) {
            Err(e) => Err(e),
            Ok((n, j)) => stmts(src, j, acc.push(n)),
        }
    }
}

/// `{ statements }`.
pub open spec fn block_stmt(src: Source, i: int) -> Result<(StmtM, int), Seq<char>>
    decreases src.toks.len() - i, 10nat,
{
    if !src.at(i) {
        Err(Seq::empty())
    } else {
        match src.check_next(i, Token::LeftBrace) {
            Err(e) => Err(e),
            Ok(j) => match stmts(src, j, Seq::empty()) {
                Err(e) => Err(e),
                Ok((body, k)) => match src.check_next(k, Token::RightBrace) {
                    Err(e) => Err(e),
                    Ok(m) => Ok((StmtM::Block(body), m)),
                },
            },
        }
    }
}

/// A statement as a block: a statement that is no block is a block of that
/// one statement.
pub open spec fn block(src: Source, i: int) -> Result<(NodeM, int), Seq<char>>
    decreases src.toks.len() - i, 22nat,
{
    match stmt(src, i) {
        Err(e) => Err(e),
        Ok((n, j)) => if n.stmt is Block {
            Ok((n, j))
        } else {
            Ok((NodeM { line: n.line, stmt: StmtM::Block(seq![n]) }, j))
        },
    }
}

/// A name, or an expression in parentheses.
pub open spec fn prefix_expr(src: Source, i: int) -> Result<(ExprM, int), Seq<char>>
    decreases src.toks.len() - i, 1nat,
{
    if !src.at(i) {
        Err(Seq::empty())
    } else {
        match src.tok(i) {
            Token::LeftParen => match src.moved(expr(src, src.next(i)), src.next(i)) {
                Err(e) => Err(e),
                Ok((e, j)) => match src.check_next(j, Token::RightParen) {
                    Err(e) => Err(e),
                    Ok(k) => Ok((e, k)),
                },
            },
            Token::Name => Ok((ExprM::Name(src.toks[i].text), src.next(i))),
            _ => Err(src.error(i, "unexpected token"@, src.tok(i))),
        }
    }
}

/// Any number of indexes in square brackets, fields behind a dot, and
/// calls, from the place `i` on, behind the expression `e`.
pub open spec fn suffixes(src: Source, i: int, e: ExprM) -> Result<(ExprM, int), Seq<char>>
    decreases src.toks.len() - i, 30nat,
{
    if !src.at(i) {
        Err(Seq::empty())
    } else {
        match src.tok(i) {
            Token::LeftSquare => match src.moved(index(src, src.next(i), e), i) {
                Err(e) => Err(e),
                Ok((e1, j)) => suffixes(src, j, e1),
            },
            Token::Dot => match src.moved(dot_index(src, src.next(i), e), i) {
                Err(e) => Err(e),
                Ok((e1, j)) => suffixes(src, j, e1),
            },
            Token::LeftParen => match src.moved(call(src, src.next(i), e), i) {
                Err(e) => Err(e),
                Ok((e1, j)) => suffixes(src, j, e1),
            },
            _ => Ok((e, i)),
        }
    }
}

/// A name or an expression in parentheses, followed by any number of
/// indexes, fields and calls.
pub open spec fn primary_expr(src: Source, i: int) -> Result<(ExprM, int), Seq<char>>
    decreases src.toks.len() - i, 2nat,
{
    match src.moved(prefix_expr(src, i), i) {
        Err(e) => Err(e),
        Ok((e, j)) => suffixes(src, j, e),
    }
}

/// A literal, a function literal, a table, an array, or a primary
/// expression.
pub open spec fn simple_expr(src: Source, i: int) -> Result<(ExprM, int), Seq<char>>
    decreases src.toks.len() - i, 3nat,
{
    if !src.at(i) {
        Err(Seq::empty())
    } else {
        match src.tok(i) {
            Token::True => Ok((ExprM::Bool(true), src.next(i))),
            Token::False => Ok((ExprM::Bool(false), src.next(i))),
            Token::String => Ok((ExprM::String(src.toks[i].text), src.next(i))),
            Token::Number => Ok((ExprM::Number(src.toks[i].number), src.next(i))),
            Token::Line => match src.moved(name_list(src, src.next(i), Token::Line), i) {
                Err(e) => Err(e),
                Ok((params, j)) => anon_func(src, j, params),
            },
            Token::Or => anon_func(src, src.next(i), Seq::empty()),
            Token::Nil => Ok((ExprM::Nil, src.next(i))),
            Token::LeftBrace => table(src, src.next(i)),
            Token::LeftSquare => array(src, src.next(i)),
            _ => primary_expr(src, i),
        }
    }
}

/// An operand: a simple expression, with any number of unary operators
/// before it.
pub open spec fn operand(src: Source, i: int) -> Result<(ExprM, int), Seq<char>>
    decreases src.toks.len() - i, 4nat,
{
    if !src.at(i) {
        Err(Seq::empty())
    } else {
        match unop_of(src.tok(i)) {
            Some(op) => match operand(src, src.next(i)) {
                Err(e) => Err(e),
                Ok((e, j)) => Ok((ExprM::Unary(op, Box::new(e)), j)),
            },
            None => simple_expr(src, i),
        }
    }
}

/// The binary operators that bind tighter than `priority`, with their
/// right operands, from the place `i` on, behind the left operand `left`.
/// An operator's right operand takes the operators that bind tighter than
/// the operator itself, so that operators of one priority group from the
/// left; the right operand of the assignment takes the assignment too, so
/// that assignments group from the right. The left side of an assignment is
/// a name or an index.
pub open spec fn binops(src: Source, i: int, left: ExprM, priority: u8) -> Result<(ExprM, int), Seq<char>>
    decreases src.toks.len() - i, 30nat,
{
    if !src.at(i) {
        Err(Seq::empty())
    } else {
        match binop_of(src.tok(i)) {
            Some(op) => if op.rank() > priority {
                if op == BinOp::Assign && !(left is Name || left is Index) {
                    Err(src.error(i, "unexpected token"@, Token::Equal))
                } else {
                    match src.moved(
                        sub_expr(
                            src,
                            src.next(i),
                            if op == BinOp::Assign {
                                (op.rank() - 1) as u8
                            } else {
                                op.rank()
                            },
                        ),
                        i,
                    ) {
                        Err(e) => Err(e),
                        Ok((right, j)) => binops(src, j, ExprM::Binary(Box::new(left), op, Box::new(right)), priority),
                    }
                }
            } else {
                Ok((left, i))
            },
            None => Ok((left, i)),
        }
    }
}

/// An operand with the operators that bind tighter than `priority`.
pub open spec fn sub_expr(src: Source, i: int, priority: u8) -> Result<(ExprM, int), Seq<char>>
    decreases src.toks.len() - i, 5nat,
{
    match src.moved(operand(src, i), i) {
        Err(e) => Err(e),
        Ok((left, j)) => binops(src, j, left, priority),
    }
}

/// An expression.
pub open spec fn expr(src: Source, i: int) -> Result<(ExprM, int), Seq<char>>
    decreases src.toks.len() - i, 6nat,
{
    sub_expr(src, i, 0)
}

/// The body of a function literal with the given parameters. Where the
/// body ends with an expression, the function returns its value.
pub open spec fn anon_func(src: Source, i: int, params: Seq<Seq<char>>) -> Result<(ExprM, int), Seq<char>>
    decreases src.toks.len() - i, 23nat,
{
    match block(src, i) {
        Err(e) => Err(e),
        Ok((body, j)) => Ok(
            (
                ExprM::AnonFn(
                    params,
                    Box::new(
                        NodeM {
                            line: body.line,
                            stmt: StmtM::Block(
                                returning(
                                    match body.stmt {
                                        StmtM::Block(nodes) => nodes,
                                        other => seq![NodeM { line: body.line, stmt: other }],
                                    },
                                ),
                            ),
                        },
                    ),
                ),
                j,
            ),
        ),
    }
}

/// The index behind an opening square bracket, and the closing one.
pub open spec fn index(src: Source, i: int, e: ExprM) -> Result<(ExprM, int), Seq<char>>
    decreases src.toks.len() - i, 8nat,
{
    match src.moved(expr(src, i), i) {
        Err(e) => Err(e),
        Ok((idx, j)) => match src.check_next(j, Token::RightSquare) {
            Err(e) => Err(e),
            Ok(k) => Ok((ExprM::Index(Box::new(e), Box::new(idx)), k)),
        },
    }
}

/// The field behind a dot: a name stands for the text of the name.
pub open spec fn dot_index(src: Source, i: int, e: ExprM) -> Result<(ExprM, int), Seq<char>> {
    if !src.at(i) {
        Err(Seq::empty())
    } else {
        match src.tok(i) {
            Token::Number => Ok(
                (ExprM::Index(Box::new(e), Box::new(ExprM::Number(src.toks[i].number))), src.next(i)),
            ),
            Token::Name => Ok(
                (ExprM::Index(Box::new(e), Box::new(ExprM::String(src.toks[i].text))), src.next(i)),
            ),
            _ => Err(src.error(i, "unexpected token"@, src.tok(i))),
        }
    }
}

/// One entry of a table: `name: value` or `[key]: value`.
pub open spec fn pair(src: Source, i: int) -> Result<(PairM, int), Seq<char>>
    decreases src.toks.len() - i, 8nat,
{
    if !src.at(i) {
        Err(Seq::empty())
    } else {
        match (if src.tok(i) == Token::Name {
            Ok((ExprM::String(src.toks[i].text), src.next(i)))
        } else {
            match src.check_next(i, Token::LeftSquare) {
                Err(e) => Err(e),
                Ok(j) => match src.moved(expr(src, j), j) {
                    Err(e) => Err(e),
                    Ok((key, k)) => match src.check_next(k, Token::RightSquare) {
                        Err(e) => Err(e),
                        Ok(m) => Ok((key, m)),
                    },
                },
            }
        }) {
            Err(e) => Err(e),
            Ok((key, j)) => if j <= i || j >= src.toks.len() {
                Err(Seq::empty())
            } else {
                match src.check_next(j, Token::Colon) {
                    Err(e) => Err(e),
                    Ok(k) => match expr(src, k) {
                        Err(e) => Err(e),
                        Ok((value, m)) => Ok((PairM { key, value }, m)),
                    },
                }
            },
        }
    }
}

/// The entries of a table behind the first, from the place `i` on, behind
/// the entries `acc`: each stands behind a comma, and a comma may stand
/// before the closing brace.
pub open spec fn more_pairs(src: Source, i: int, acc: Seq<PairM>) -> Result<(Seq<PairM>, int), Seq<char>>
    decreases src.toks.len() - i, 30nat,
{
    if !src.at(i) || src.tok(i) != Token::Comma {
        Ok((acc, i))
    } else if src.tok(src.next(i)) == Token::RightBrace {
        Ok((acc, src.next(i)))
    } else {
        match src.moved(pair(src, src.next(i)), i) {
            Err(e) => Err(e),
            Ok((p, j)) => more_pairs(src, j, acc.push(p)),
        }
    }
}

/// The entries of a table behind its opening brace, and the closing one.
pub open spec fn table(src: Source, i: int) -> Result<(ExprM, int), Seq<char>>
    decreases src.toks.len() - i, 31nat,
{
    if !src.at(i) {
        Err(Seq::empty())
    } else {
        match (if src.tok(i) != Token::RightBrace {
            match src.moved(pair(src, i), i) {
                Err(e) => Err(e),
                Ok((first, j)) => more_pairs(src, j, seq![first]),
            }
        } else {
            Ok((Seq::empty(), i))
        }) {
            Err(e) => Err(e),
            Ok((pairs, j)) => match src.check_next(j, Token::RightBrace) {
                Err(e) => Err(e),
                Ok(k) => Ok((ExprM::Table(pairs), k)),
            },
        }
    }
}

/// The items of an array behind its opening bracket, and the closing one.
pub open spec fn array(src: Source, i: int) -> Result<(ExprM, int), Seq<char>>
    decreases src.toks.len() - i, 32nat,
{
    match exp_list(src, i, Token::RightSquare) {
        Err(e) => Err(e),
        Ok((items, j)) => Ok((ExprM::Array(items), j)),
    }
}

/// The arguments of a call behind its opening parenthesis, and the closing
/// one.
pub open spec fn call(src: Source, i: int, func: ExprM) -> Result<(ExprM, int), Seq<char>>
    decreases src.toks.len() - i, 32nat,
{
    match exp_list(src, i, Token::RightParen) {
        Err(e) => Err(e),
        Ok((args, j)) => Ok((ExprM::Call(Box::new(func), args), j)),
    }
}

/// The names of a list from the place `i` on, behind the names `acc`: a
/// name, and behind a comma more names.
pub open spec fn names_from(src: Source, i: int, acc: Seq<Seq<char>>) -> Result<(Seq<Seq<char>>, int), Seq<char>>
    decreases src.toks.len() - i,
{
    if !src.at(i) {
        Err(Seq::empty())
    } else if src.tok(i) != Token::Name {
        Err(src.error_expected(i, Token::Name))
    } else if src.tok(src.next(i)) != Token::Comma {
        Ok((acc.push(src.toks[i].text), src.next(i)))
    } else {
        names_from(src, src.next(src.next(i)), acc.push(src.toks[i].text))
    }
}

/// Names separated by commas, up to and with the token `end`.
pub open spec fn name_list(src: Source, i: int, end: Token) -> Result<(Seq<Seq<char>>, int), Seq<char>> {
    if !src.at(i) {
        Err(Seq::empty())
    } else {
        match (if src.tok(i) != end {
            names_from(src, i, Seq::empty())
        } else {
            Ok((Seq::empty(), i))
        }) {
            Err(e) => Err(e),
            Ok((names, j)) => match src.check_next(j, end) {
                Err(e) => Err(e),
                Ok(k) => Ok((names, k)),
            },
        }
    }
}

/// The expressions of a list behind the first, from the place `i` on,
/// behind the expressions `acc`: each stands behind a comma.
pub open spec fn more_exprs(src: Source, i: int, acc: Seq<ExprM>) -> Result<(Seq<ExprM>, int), Seq<char>>
    decreases src.toks.len() - i, 30nat,
{
    if !src.at(i) || src.tok(i) != Token::Comma {
        Ok((acc, i))
    } else {
        match src.moved(expr(src, src.next(i)), i) {
            Err(e) => Err(e),
            Ok((e, j)) => more_exprs(src, j, acc.push(e)),
        }
    }
}

/// Expressions separated by commas, up to and with the token `end`.
pub open spec fn exp_list(src: Source, i: int, end: Token) -> Result<(Seq<ExprM>, int), Seq<char>>
    decreases src.toks.len() - i, 31nat,
{
    if !src.at(i) {
        Err(Seq::empty())
    } else {
        match (if src.tok(i) != end {
            match src.moved(expr(src, i), i) {
                Err(e) => Err(e),
                Ok((first, j)) => more_exprs(src, j, seq![first]),
            }
        } else {
            Ok((Seq::empty(), i))
        }) {
            Err(e) => Err(e),
            Ok((items, j)) => match src.check_next(j, end) {
                Err(e) => Err(e),
                Ok(k) => Ok((items, k)),
            },
        }
    }
}

} // verus!
