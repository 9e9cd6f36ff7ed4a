//! The parser: recursive descent over the tokens of a source text.
//!
//! A statement is a block in braces, `let`, `if`, `while`, `for`, `fn`,
//! `return` or an expression, and may end with a semicolon. A function
//! literal is written with its parameters between two bars, `|a, b| body`,
//! and `|| body` where it has none; the value of the expression that ends
//! its body is what it returns.

use vstd::prelude::*;
use vstd::string::*;
use crate::common::text::{chars_of, push_str, string_of};
use crate::lexer::lexer::{error_near, lexeme_views, token_str, token_text, Lexeme};
use crate::lexer::token::Token;
use crate::parser::ast::{
    exprs_view, lemma_exprs_push, lemma_nodes_push, lemma_pairs_push, lemma_texts_push, expr_view, node_view,
    nodes_view, pairs_view, texts, BinOp, Expr, ExprM, Node, NodeM, Pair, PairM, Stmt, StmtM, UnOp,
};
use crate::parser::grammar::{
    anon_func, array, bare_stmt, binop_of, binops, block, block_stmt, call, dot_index, exp_list, expr,
    fn_stmt, for_stmt, if_stmt, index, let_stmt, more_exprs, more_pairs, name_list, names_from, operand,
    pair, prefix_expr, ended, primary_expr, program, return_stmt, returning, simple_expr, stmt, stmts,
    sub_expr, suffixes, table, unop_of, while_stmt, Source,
};

verus! {

/// The parser.
pub struct Parser {
    /// The tokens of the source text; the last one marks its end.
    pub lexemes: Vec<Lexeme>,
    /// The place of the current token.
    pub idx: usize,
    /// The line of the statement being parsed.
    pub line: usize,
    /// The current token.
    pub token: Token,
    /// The name of the source, for messages.
    pub name: String,
    /// The statements parsed so far.
    pub nodes: Vec<Node>,
}

/// What a step of the parser keeps: the tokens, the name of the source, the
/// statements parsed so far, and the parser's invariant; the place in the
/// tokens does not go back.
pub open spec fn stepped(pre: Parser, post: Parser) -> bool {
    &&& post.wf()
    &&& post.lexemes == pre.lexemes
    &&& post.name == pre.name
    &&& post.nodes == pre.nodes
    &&& post.idx >= pre.idx
}

/// A step of the parser that took at least one token.
pub open spec fn advanced(pre: Parser, post: Parser) -> bool {
    stepped(pre, post) && post.idx > pre.idx
}

/// A step of the parser came to what the grammar says: it gave what the
/// grammar gives and stands where the grammar stops; or it failed with the
/// error that the grammar gives.
pub open spec fn parsed<T: View>(r: Result<T, String>, p: Parser, want: Result<(T::V, int), Seq<char>>) -> bool {
    match want {
        Ok((m, j)) => r matches Ok(x) && x@ == m && p.idx == j,
        Err(e) => r matches Err(x) && x@ == e,
    }
}

/// A step of the parser that gives expressions came to what the grammar
/// says.
pub open spec fn parsed_exprs(r: Result<Vec<Expr>, String>, p: Parser, want: Result<(Seq<ExprM>, int), Seq<char>>) -> bool {
    match want {
        Ok((m, j)) => r matches Ok(x) && exprs_view(x@, x@.len() as int) == m && p.idx == j,
        Err(e) => r matches Err(x) && x@ == e,
    }
}

/// A step of the parser that gives names came to what the grammar says.
pub open spec fn parsed_names(r: Result<Vec<String>, String>, p: Parser, want: Result<(Seq<Seq<char>>, int), Seq<char>>) -> bool {
    match want {
        Ok((m, j)) => r matches Ok(x) && texts(x@, x@.len() as int) == m && p.idx == j,
        Err(e) => r matches Err(x) && x@ == e,
    }
}

/// A step of the parser that moves only came to what the grammar says.
pub open spec fn went(r: Result<(), String>, p: Parser, want: Result<int, Seq<char>>) -> bool {
    match want {
        Ok(j) => r is Ok && p.idx == j,
        Err(e) => r matches Err(x) && x@ == e,
    }
}

impl Parser {
    /// What holds of a parser at any time: there is a current token, and
    /// the last token marks the end of the text.
    pub open spec fn wf(&self) -> bool {
        &&& self.lexemes.len() > 0
        &&& self.idx < self.lexemes.len()
        &&& self.lexemes@.last().token == Token::Eof
        &&& self.token == self.lexemes@[self.idx as int].token
    }

    /// The tokens and the name of the source, as the grammar takes them.
    pub open spec fn source(&self) -> Source {
        Source { toks: lexeme_views(self.lexemes@), name: self.name@ }
    }

    /// The number of tokens from the current one on.
    pub open spec fn left(&self) -> int {
        self.lexemes.len() - self.idx
    }

    /// A parser at the first of the given tokens. Where the last token does
    /// not mark the end of the text, one that does is put behind it.
    pub fn new(lexemes: Vec<Lexeme>, name: String) -> (p: Parser)
        ensures
            p.wf(),
            p.idx == 0,
            p.name@ == name@,
            p.nodes@ == Seq::<Node>::empty(),
            p.source() == (Source { toks: ended(lexeme_views(lexemes@)), name: name@ }),
    {
        let ghost given = lexeme_views(lexemes@);
        let mut lexemes = lexemes;
        let n: usize = lexemes.len();
        let complete: bool = n > 0 && lexemes[n - 1].token == Token::Eof;
        if !complete {
            let line: usize = if n > 0 {
                lexemes[n - 1].line
            } else {
                1
            };
            lexemes.push(Lexeme { token: Token::Eof, text: String::new(), line, number: 0 });
        }
        assert(lexeme_views(lexemes@) =~= ended(given));
        let token: Token = lexemes[0].token;
        Parser { lexemes, idx: 0, line: 1, token, name, nodes: Vec::new() }
    }

    /// What the parser knows of its tokens as the grammar takes them.
    proof fn lemma_source(&self)
        requires
            self.wf(),
        ensures
            self.source().at(self.idx as int),
            self.source().toks.len() == self.lexemes.len(),
            self.source().tok(self.idx as int) == self.token,
            self.source().toks[self.idx as int].line == self.lexemes@[self.idx as int].line,
            self.source().toks[self.idx as int].text == self.lexemes@[self.idx as int].text@,
            self.source().toks[self.idx as int].number == self.lexemes@[self.idx as int].number,
            forall|i: int| 0 <= i < self.lexemes.len() ==> self.source().tok(i) == self.lexemes@[i].token,
            forall|i: int|
                0 <= i < self.lexemes.len() && self.source().tok(i) != Token::Eof ==> i + 1
                    < self.lexemes.len(),
    {
    }

    /// Moves to the next token; at the end of the text the parser stays.
    fn next(&mut self)
        requires
            old(self).wf(),
        ensures
            stepped(*old(self), *final(self)),
            final(self).idx == old(self).source().next(old(self).idx as int),
            old(self).token != Token::Eof ==> final(self).idx == old(self).idx + 1,
            final(self).line == old(self).line,
    {
        proof {
            self.lemma_source();
        }
        if self.token != Token::Eof {
            self.idx = self.idx + 1;
            self.token = self.lexemes[self.idx].token;
        }
    }

    /// The text of the current token.
    fn text(&self) -> (s: String)
        requires
            self.wf(),
        ensures
            s@ == self.source().toks[self.idx as int].text,
    {
        self.lexemes[self.idx].text.clone()
    }

    /// Writes an error at the current token.
    fn error(&self, err: &str, token: Token) -> (s: String)
        requires
            self.wf(),
        ensures
            s@ == self.source().error(self.idx as int, err@, token),
    {
        let buf: Vec<char> = chars_of(self.lexemes[self.idx].text.as_str());
        error_near(self.name.as_str(), self.lexemes[self.idx].line, err, token, &buf)
    }

    /// Writes the error of a token that was expected and is not there.
    fn error_expected(&self, expected: Token) -> (s: String)
        requires
            self.wf(),
        ensures
            s@ == self.source().error_expected(self.idx as int, expected),
    {
        let buf: Vec<char> = chars_of(self.lexemes[self.idx].text.as_str());
        let mut what: Vec<char> = Vec::new();
        push_str(&mut what, "expected '");
        push_str(&mut what, token_str(expected, &buf).as_str());
        push_str(&mut what, "'");
        assert(what@ =~= "expected '"@ + token_text(expected, buf@) + "'"@);
        self.error(string_of(&what).as_str(), self.token)
    }

    /// Takes the current token if it is the given one.
    fn test_next(&mut self, token: Token) -> (r: bool)
        requires
            old(self).wf(),
        ensures
            stepped(*old(self), *final(self)),
            r == (old(self).token == token),
            r ==> final(self).idx == old(self).source().next(old(self).idx as int),
            !r ==> final(self).idx == old(self).idx,
            final(self).line == old(self).line,
    {
        if self.token == token {
            self.next();
            true
        } else {
            false
        }
    }

    /// Fails unless the current token is the given one.
    fn check(&self, token: Token) -> (r: Result<(), String>)
        requires
            self.wf(),
        ensures
            r is Ok <==> self.token == token,
            r matches Err(e) ==> e@ == self.source().error_expected(self.idx as int, token),
    {
        if self.token != token {
            Err(self.error_expected(token))
        } else {
            Ok(())
        }
    }

    /// Takes the current token, and fails unless it is the given one.
    fn check_next(&mut self, token: Token) -> (r: Result<(), String>)
        requires
            old(self).wf(),
        ensures
            stepped(*old(self), *final(self)),
            went(r, *final(self), old(self).source().check_next(old(self).idx as int, token)),
            r is Ok && token != Token::Eof ==> final(self).idx == old(self).idx + 1,
            final(self).line == old(self).line,
    {
        proof {
            self.lemma_source();
        }
        match self.check(token) {
            Ok(()) => {
                self.next();
                Ok(())
            },
            Err(e) => Err(e),
        }
    }

    /// Moves to the next token, and fails unless it is the given one.
    fn expect(&mut self, token: Token) -> (r: Result<(), String>)
        requires
            old(self).wf(),
        ensures
            stepped(*old(self), *final(self)),
            went(r, *final(self), old(self).source().expect(old(self).idx as int, token)),
            old(self).token != Token::Eof ==> final(self).idx == old(self).idx + 1,
            r is Ok ==> final(self).token == token,
            final(self).line == old(self).line,
    {
        proof {
            self.lemma_source();
        }
        self.next();
        proof {
            self.lemma_source();
        }
        self.check(token)
    }

    /// Moves to the next token and takes it, and fails unless it is the
    /// given one.
    fn expect_next(&mut self, token: Token) -> (r: Result<(), String>)
        requires
            old(self).wf(),
        ensures
            stepped(*old(self), *final(self)),
            went(r, *final(self), old(self).source().expect_next(old(self).idx as int, token)),
            old(self).token != Token::Eof ==> final(self).idx > old(self).idx,
            final(self).line == old(self).line,
    {
        self.next();
        self.check_next(token)
    }

    /// Tells which unary operator the current token is, if it is one.
    fn get_unop(&self) -> (r: Option<UnOp>)
        ensures
            r == unop_of(self.token),
            r is Some ==> self.token != Token::Eof,
    {
        match self.token {
            Token::Bang => Some(UnOp::Not),
            Token::Dash => Some(UnOp::Neg),
            _ => None,
        }
    }

    /// Tells which binary operator the current token is, if it is one.
    fn get_binop(&self) -> (r: Option<BinOp>)
        ensures
            r == binop_of(self.token),
            r is Some ==> self.token != Token::Eof,
    {
        match self.token {
            Token::Neq => Some(BinOp::Neq),
            Token::Eq => Some(BinOp::Eq),
            Token::Ge => Some(BinOp::Ge),
            Token::Gt => Some(BinOp::Gt),
            Token::Le => Some(BinOp::Le),
            Token::Lt => Some(BinOp::Lt),
            Token::Plus => Some(BinOp::Add),
            Token::Dash => Some(BinOp::Sub),
            Token::Star => Some(BinOp::Mul),
            Token::Slash => Some(BinOp::Div),
            Token::Percent => Some(BinOp::Mod),
            Token::Equal => Some(BinOp::Assign),
            Token::And => Some(BinOp::And),
            Token::Or => Some(BinOp::Or),
            _ => None,
        }
    }

    /// Parses the rest of the text: its statements go behind the statements
    /// in `nodes`, in order.
    pub fn parse(&mut self) -> (r: Result<(), String>)
        requires
            old(self).wf(),
        ensures
            final(self).wf(),
            final(self).lexemes == old(self).lexemes,
            final(self).name == old(self).name,
            match program(
                old(self).source(),
                old(self).idx as int,
                nodes_view(old(self).nodes@, old(self).nodes@.len() as int),
            ) {
                Ok((nodes, j)) => r is Ok && nodes_view(final(self).nodes@, final(self).nodes@.len() as int)
                    == nodes && final(self).idx == j && final(self).token == Token::Eof,
                Err(e) => r matches Err(x) && x@ == e,
            },
    {
        let ghost src = self.source();
        let ghost goal = program(src, self.idx as int, nodes_view(self.nodes@, self.nodes@.len() as int));
        while self.token != Token::Eof
            invariant
                self.wf(),
                self.lexemes == old(self).lexemes,
                self.name == old(self).name,
                src == self.source(),
                goal == program(
                    old(self).source(),
                    old(self).idx as int,
                    nodes_view(old(self).nodes@, old(self).nodes@.len() as int),
                ),
                goal == program(src, self.idx as int, nodes_view(self.nodes@, self.nodes@.len() as int)),
            decreases self.left(),
        {
            proof {
                self.lemma_source();
            }
            let ghost before = self.nodes@;
            let node: Node = match self.stmt() {
                Ok(n) => n,
                Err(e) => {
                    return Err(e);
                },
            };
            self.nodes.push(node);
            proof {
                lemma_nodes_push(before, node);
                assert(self.nodes@ == before.push(node));
            }
        }
        proof {
            self.lemma_source();
        }
        Ok(())
    }

    /// Parses a statement, and the semicolon behind it if there is one.
    fn stmt(&mut self) -> (r: Result<Node, String>)
        requires
            old(self).wf(),
        ensures
            stepped(*old(self), *final(self)),
            r is Ok ==> advanced(*old(self), *final(self)),
            parsed(r, *final(self), stmt(old(self).source(), old(self).idx as int)),
        decreases old(self).left(), 21nat,
    {
        let node: Node = match self.bare_stmt() {
            Ok(n) => n,
            Err(e) => {
                return Err(e);
            },
        };
        proof {
            self.lemma_source();
        }
        self.test_next(Token::Semi);
        Ok(node)
    }

    /// Parses a statement without the semicolon behind it. Its line is the
    /// line of its first token.
    fn bare_stmt(&mut self) -> (r: Result<Node, String>)
        requires
            old(self).wf(),
        ensures
            stepped(*old(self), *final(self)),
            r is Ok ==> advanced(*old(self), *final(self)),
            parsed(r, *final(self), bare_stmt(old(self).source(), old(self).idx as int)),
        decreases old(self).left(), 20nat,
    {
        proof {
            self.lemma_source();
        }
        let line: usize = self.lexemes[self.idx].line;
        self.line = line;
        let parsed: Result<Stmt, String> = match self.token {
            Token::LeftBrace => self.block_stmt(),
            Token::Return => self.return_stmt(),
            Token::While => self.while_stmt(),
            Token::For => self.for_stmt(),
            Token::Let => self.let_stmt(),
            Token::If => self.if_stmt(),
            Token::Fn => self.fn_stmt(),
            _ => match self.expr() {
                Ok(e) => Ok(Stmt::Expr(e)),
                Err(e) => Err(e),
            },
        };
        match parsed {
            Ok(stmt) => Ok(Node { line, stmt }),
            Err(e) => Err(e),
        }
    }

    /// `let name` and `let name = value`; without a value the variable is
    /// `nil`.
    fn let_stmt(&mut self) -> (r: Result<Stmt, String>)
        requires
            old(self).wf(),
            old(self).token == Token::Let,
        ensures
            stepped(*old(self), *final(self)),
            r is Ok ==> advanced(*old(self), *final(self)),
            parsed(r, *final(self), let_stmt(old(self).source(), old(self).idx as int)),
        decreases old(self).left(), 10nat,
    {
        proof {
            self.lemma_source();
        }
        match self.expect(Token::Name) {
            Ok(()) => {},
            Err(e) => {
                return Err(e);
            },
        }
        proof {
            self.lemma_source();
        }
        let name: String = self.text();
        self.next();
        proof {
            self.lemma_source();
        }
        if self.test_next(Token::Equal) {
            match self.expr() {
                Ok(value) => Ok(Stmt::Let(name, value)),
                Err(e) => Err(e),
            }
        } else {
            Ok(Stmt::Let(name, Expr::Nil))
        }
    }

    /// `for (init; cond; post) body`, where `init` is a `let` or an
    /// expression.
    fn for_stmt(&mut self) -> (r: Result<Stmt, String>)
        requires
            old(self).wf(),
            old(self).token == Token::For,
        ensures
            stepped(*old(self), *final(self)),
            r is Ok ==> advanced(*old(self), *final(self)),
            parsed(r, *final(self), for_stmt(old(self).source(), old(self).idx as int)),
        decreases old(self).left(), 10nat,
    {
        proof {
            self.lemma_source();
        }
        match self.expect_next(Token::LeftParen) {
            Ok(()) => {},
            Err(e) => {
                return Err(e);
            },
        }
        proof {
            self.lemma_source();
        }
        let token: Token = self.token;
        let first: Vec<char> = chars_of(self.lexemes[self.idx].text.as_str());
        let pre: Node = match self.bare_stmt() {
            Ok(n) => n,
            Err(e) => {
                return Err(e);
            },
        };
        proof {
            self.lemma_source();
        }
        let fits: bool = match &pre.stmt {
            Stmt::Let(..) => true,
            Stmt::Expr(..) => true,
            _ => false,
        };
        if !fits {
            return Err(
                error_near(self.name.as_str(), self.lexemes[self.idx].line, "unexpected statement", token, &first),
            );
        }
        match self.check_next(Token::Semi) {
            Ok(()) => {},
            Err(e) => {
                return Err(e);
            },
        }
        let cond: Expr = match self.expr() {
            Ok(e) => e,
            Err(e) => {
                return Err(e);
            },
        };
        proof {
            self.lemma_source();
        }
        match self.check_next(Token::Semi) {
            Ok(()) => {},
            Err(e) => {
                return Err(e);
            },
        }
        let post: Expr = match self.expr() {
            Ok(e) => e,
            Err(e) => {
                return Err(e);
            },
        };
        proof {
            self.lemma_source();
        }
        match self.check_next(Token::RightParen) {
            Ok(()) => {},
            Err(e) => {
                return Err(e);
            },
        }
        match self.block() {
            Ok(block) => Ok(Stmt::For(Box::new(pre), cond, post, Box::new(block))),
            Err(e) => Err(e),
        }
    }

    /// `if (cond) block` and `if (cond) block else block`.
    fn if_stmt(&mut self) -> (r: Result<Stmt, String>)
        requires
            old(self).wf(),
            old(self).token == Token::If,
        ensures
            stepped(*old(self), *final(self)),
            r is Ok ==> advanced(*old(self), *final(self)),
            parsed(r, *final(self), if_stmt(old(self).source(), old(self).idx as int)),
        decreases old(self).left(), 10nat,
    {
        proof {
            self.lemma_source();
        }
        match self.expect_next(Token::LeftParen) {
            Ok(()) => {},
            Err(e) => {
                return Err(e);
            },
        }
        let cond: Expr = match self.expr() {
            Ok(e) => e,
            Err(e) => {
                return Err(e);
            },
        };
        proof {
            self.lemma_source();
        }
        match self.check_next(Token::RightParen) {
            Ok(()) => {},
            Err(e) => {
                return Err(e);
            },
        }
        let body: Node = match self.block() {
            Ok(n) => n,
            Err(e) => {
                return Err(e);
            },
        };
        proof {
            self.lemma_source();
        }
        if self.test_next(Token::Else) {
            match self.block() {
                Ok(other) => Ok(Stmt::If(cond, Box::new(body), Some(Box::new(other)))),
                Err(e) => Err(e),
            }
        } else {
            Ok(Stmt::If(cond, Box::new(body), None))
        }
    }

    /// `fn name(params) { body }`.
    fn fn_stmt(&mut self) -> (r: Result<Stmt, String>)
        requires
            old(self).wf(),
            old(self).token == Token::Fn,
        ensures
            stepped(*old(self), *final(self)),
            r is Ok ==> advanced(*old(self), *final(self)),
            parsed(r, *final(self), fn_stmt(old(self).source(), old(self).idx as int)),
        decreases old(self).left(), 10nat,
    {
        proof {
            self.lemma_source();
        }
        match self.expect(Token::Name) {
            Ok(()) => {},
            Err(e) => {
                return Err(e);
            },
        }
        proof {
            self.lemma_source();
        }
        let name: String = self.text();
        match self.expect_next(Token::LeftParen) {
            Ok(()) => {},
            Err(e) => {
                return Err(e);
            },
        }
        let params: Vec<String> = match self.name_list(Token::RightParen) {
            Ok(p) => p,
            Err(e) => {
                return Err(e);
            },
        };
        proof {
            self.lemma_source();
        }
        let line: usize = self.lexemes[self.idx].line;
        match self.block_stmt() {
            Ok(body) => Ok(Stmt::Fn(name, params, Box::new(Node { line, stmt: body }))),
            Err(e) => Err(e),
        }
    }

    /// `return` and `return value`; without a value it returns `nil`.
    fn return_stmt(&mut self) -> (r: Result<Stmt, String>)
        requires
            old(self).wf(),
            old(self).token == Token::Return,
        ensures
            stepped(*old(self), *final(self)),
            r is Ok ==> advanced(*old(self), *final(self)),
            parsed(r, *final(self), return_stmt(old(self).source(), old(self).idx as int)),
        decreases old(self).left(), 10nat,
    {
        proof {
            self.lemma_source();
        }
        self.next();
        proof {
            self.lemma_source();
        }
        let bare: bool = match self.token {
            Token::Semi => true,
            Token::RightBrace => true,
            Token::Eof => true,
            _ => false,
        };
        if bare {
            Ok(Stmt::Return(Expr::Nil))
        } else {
            match self.expr() {
                Ok(val) => Ok(Stmt::Return(val)),
                Err(e) => Err(e),
            }
        }
    }

    /// `while (cond) block`.
    fn while_stmt(&mut self) -> (r: Result<Stmt, String>)
        requires
            old(self).wf(),
            old(self).token == Token::While,
        ensures
            stepped(*old(self), *final(self)),
            r is Ok ==> advanced(*old(self), *final(self)),
            parsed(r, *final(self), while_stmt(old(self).source(), old(self).idx as int)),
        decreases old(self).left(), 10nat,
    {
        proof {
            self.lemma_source();
        }
        match self.expect_next(Token::LeftParen) {
            Ok(()) => {},
            Err(e) => {
                return Err(e);
            },
        }
        let cond: Expr = match self.expr() {
            Ok(e) => e,
            Err(e) => {
                return Err(e);
            },
        };
        proof {
            self.lemma_source();
        }
        match self.check_next(Token::RightParen) {
            Ok(()) => {},
            Err(e) => {
                return Err(e);
            },
        }
        match self.block() {
            Ok(body) => Ok(Stmt::While(cond, Box::new(body))),
            Err(e) => Err(e),
        }
    }

    /// `{ statements }`.
    fn block_stmt(&mut self) -> (r: Result<Stmt, String>)
        requires
            old(self).wf(),
        ensures
            stepped(*old(self), *final(self)),
            r is Ok ==> advanced(*old(self), *final(self)),
            r matches Ok(s) ==> s is Block,
            parsed(r, *final(self), block_stmt(old(self).source(), old(self).idx as int)),
        decreases old(self).left(), 10nat,
    {
        proof {
            self.lemma_source();
        }
        match self.check_next(Token::LeftBrace) {
            Ok(()) => {},
            Err(e) => {
                return Err(e);
            },
        }
        let ghost src = self.source();
        let ghost goal = stmts(src, self.idx as int, Seq::empty());
        let mut body: Vec<Node> = Vec::new();
        while self.token != Token::RightBrace && self.token != Token::Eof
            invariant
                advanced(*old(self), *self),
                src == self.source(),
                src == old(self).source(),
                block_stmt(src, old(self).idx as int) == (match goal {
                    Err(e) => Err(e),
                    Ok((body, k)) => match src.check_next(k, Token::RightBrace) {
                        Err(e) => Err(e),
                        Ok(m) => Ok((StmtM::Block(body), m)),
                    },
                }),
                goal == stmts(src, self.idx as int, nodes_view(body@, body@.len() as int)),
            decreases self.left(),
        {
            proof {
                self.lemma_source();
            }
            let ghost before = body@;
            let node: Node = match self.stmt() {
                Ok(n) => n,
                Err(e) => {
                    return Err(e);
                },
            };
            body.push(node);
            proof {
                lemma_nodes_push(before, node);
                assert(body@ == before.push(node));
            }
        }
        proof {
            self.lemma_source();
        }
        match self.check_next(Token::RightBrace) {
            Ok(()) => Ok(Stmt::Block(body)),
            Err(e) => Err(e),
        }
    }

    /// A statement as a block: a statement that is no block is a block of
    /// that one statement.
    fn block(&mut self) -> (r: Result<Node, String>)
        requires
            old(self).wf(),
        ensures
            stepped(*old(self), *final(self)),
            r is Ok ==> advanced(*old(self), *final(self)),
            r matches Ok(n) ==> n.stmt is Block,
            parsed(r, *final(self), block(old(self).source(), old(self).idx as int)),
        decreases old(self).left(), 22nat,
    {
        let node: Node = match self.stmt() {
            Ok(n) => n,
            Err(e) => {
                return Err(e);
            },
        };
        let line: usize = node.line;
        let is_block: bool = match &node.stmt {
            Stmt::Block(..) => true,
            _ => false,
        };
        if is_block {
            Ok(node)
        } else {
            let mut body: Vec<Node> = Vec::new();
            body.push(node);
            proof {
                lemma_nodes_push(Seq::empty(), node);
                assert(body@ == Seq::<Node>::empty().push(node));
                assert(nodes_view(body@, 1) =~= seq![node_view(node)]);
            }
            Ok(Node { line, stmt: Stmt::Block(body) })
        }
    }

    /// A name, or an expression in parentheses.
    fn prefix_expr(&mut self) -> (r: Result<Expr, String>)
        requires
            old(self).wf(),
        ensures
            stepped(*old(self), *final(self)),
            r is Ok ==> advanced(*old(self), *final(self)),
            parsed(r, *final(self), prefix_expr(old(self).source(), old(self).idx as int)),
        decreases old(self).left(), 1nat,
    {
        proof {
            self.lemma_source();
        }
        match self.token {
            Token::LeftParen => {
                self.next();
                let exp: Expr = match self.expr() {
                    Ok(e) => e,
                    Err(e) => {
                        return Err(e);
                    },
                };
                proof {
                    self.lemma_source();
                }
                match self.check_next(Token::RightParen) {
                    Ok(()) => Ok(exp),
                    Err(e) => Err(e),
                }
            },
            Token::Name => {
                let name: String = self.text();
                self.next();
                Ok(Expr::Name(name))
            },
            _ => Err(self.error("unexpected token", self.token)),
        }
    }

    /// A name or an expression in parentheses, followed by any number of
    /// indexes in square brackets, fields behind a dot, and calls.
    fn primary_expr(&mut self) -> (r: Result<Expr, String>)
        requires
            old(self).wf(),
        ensures
            stepped(*old(self), *final(self)),
            r is Ok ==> advanced(*old(self), *final(self)),
            parsed(r, *final(self), primary_expr(old(self).source(), old(self).idx as int)),
        decreases old(self).left(), 2nat,
    {
        let mut exp: Expr = match self.prefix_expr() {
            Ok(e) => e,
            Err(e) => {
                return Err(e);
            },
        };
        let ghost src = self.source();
        let ghost goal = suffixes(src, self.idx as int, exp@);
        proof {
            self.lemma_source();
        }
        let mut more: bool = true;
        while more
            invariant
                advanced(*old(self), *self),
                src == self.source(),
                goal == primary_expr(old(self).source(), old(self).idx as int),
                more ==> goal == suffixes(src, self.idx as int, exp@),
                !more ==> goal == Ok::<(ExprM, int), Seq<char>>((exp@, self.idx as int)),
            decreases self.left() + (if more { 1int } else { 0int }),
        {
            proof {
                self.lemma_source();
            }
            match self.token {
                Token::LeftSquare => {
                    self.next();
                    exp = match self.index(exp) {
                        Ok(e) => e,
                        Err(e) => {
                            return Err(e);
                        },
                    };
                },
                Token::Dot => {
                    self.next();
                    exp = match self.dot_index(exp) {
                        Ok(e) => e,
                        Err(e) => {
                            return Err(e);
                        },
                    };
                },
                Token::LeftParen => {
                    self.next();
                    exp = match self.call(exp) {
                        Ok(e) => e,
                        Err(e) => {
                            return Err(e);
                        },
                    };
                },
                _ => {
                    more = false;
                },
            }
        }
        Ok(exp)
    }

    /// A literal, a function literal, a table, an array, or a primary
    /// expression.
    fn simple_expr(&mut self) -> (r: Result<Expr, String>)
        requires
            old(self).wf(),
        ensures
            stepped(*old(self), *final(self)),
            r is Ok ==> advanced(*old(self), *final(self)),
            parsed(r, *final(self), simple_expr(old(self).source(), old(self).idx as int)),
        decreases old(self).left(), 3nat,
    {
        proof {
            self.lemma_source();
        }
        match self.token {
            Token::True => {
                self.next();
                Ok(Expr::Bool(true))
            },
            Token::False => {
                self.next();
                Ok(Expr::Bool(false))
            },
            Token::String => {
                let s: String = self.text();
                self.next();
                Ok(Expr::String(s))
            },
            Token::Number => {
                let n: u64 = self.lexemes[self.idx].number;
                self.next();
                Ok(Expr::Number(n))
            },
            Token::Line => {
                self.next();
                let params: Vec<String> = match self.name_list(Token::Line) {
                    Ok(p) => p,
                    Err(e) => {
                        return Err(e);
                    },
                };
                proof {
                    self.lemma_source();
                }
                self.anon_func(params)
            },
            Token::Or => {
                self.next();
                let params: Vec<String> = Vec::new();
                self.anon_func(params)
            },
            Token::Nil => {
                self.next();
                Ok(Expr::Nil)
            },
            Token::LeftBrace => {
                self.next();
                self.table()
            },
            Token::LeftSquare => {
                self.next();
                self.array()
            },
            _ => self.primary_expr(),
        }
    }

    /// An operand: a simple expression, with any number of unary operators
    /// before it.
    fn operand(&mut self) -> (r: Result<Expr, String>)
        requires
            old(self).wf(),
        ensures
            stepped(*old(self), *final(self)),
            r is Ok ==> advanced(*old(self), *final(self)),
            parsed(r, *final(self), operand(old(self).source(), old(self).idx as int)),
        decreases old(self).left(), 4nat,
    {
        proof {
            self.lemma_source();
        }
        match self.get_unop() {
            Some(op) => {
                self.next();
                match self.operand() {
                    Ok(e) => Ok(Expr::Unary(op, Box::new(e))),
                    Err(e) => Err(e),
                }
            },
            None => self.simple_expr(),
        }
    }

    /// An operand with the operators that bind tighter than `priority`.
    /// Operators of one priority group from the left; the assignment
    /// groups from the right, and its left side is a name or an index.
    fn sub_expr(&mut self, priority: u8) -> (r: Result<Expr, String>)
        requires
            old(self).wf(),
        ensures
            stepped(*old(self), *final(self)),
            r is Ok ==> advanced(*old(self), *final(self)),
            parsed(r, *final(self), sub_expr(old(self).source(), old(self).idx as int, priority)),
        decreases old(self).left(), 5nat,
    {
        let mut left: Expr = match self.operand() {
            Ok(e) => e,
            Err(e) => {
                return Err(e);
            },
        };
        let ghost src = self.source();
        let ghost goal = binops(src, self.idx as int, left@, priority);
        proof {
            self.lemma_source();
        }
        let mut more: bool = true;
        while more
            invariant
                advanced(*old(self), *self),
                src == self.source(),
                goal == sub_expr(old(self).source(), old(self).idx as int, priority),
                more ==> goal == binops(src, self.idx as int, left@, priority),
                !more ==> goal == Ok::<(ExprM, int), Seq<char>>((left@, self.idx as int)),
            decreases self.left() + (if more { 1int } else { 0int }),
        {
            proof {
                self.lemma_source();
            }
            match self.get_binop() {
                Some(op) => {
                    if op.priority() > priority {
                        let assign: bool = op == BinOp::Assign;
                        if assign {
                            let fits: bool = match &left {
                                Expr::Name(..) => true,
                                Expr::Index(..) => true,
                                _ => false,
                            };
                            if !fits {
                                return Err(self.error("unexpected token", Token::Equal));
                            }
                        }
                        self.next();
                        let inner: u8 = if assign {
                            op.priority() - 1
                        } else {
                            op.priority()
                        };
                        let right: Expr = match self.sub_expr(inner) {
                            Ok(e) => e,
                            Err(e) => {
                                return Err(e);
                            },
                        };
                        left = Expr::Binary(Box::new(left), op, Box::new(right));
                    } else {
                        more = false;
                    }
                },
                None => {
                    more = false;
                },
            }
        }
        Ok(left)
    }

    /// Parses an expression.
    pub fn expr(&mut self) -> (r: Result<Expr, String>)
        requires
            old(self).wf(),
        ensures
            stepped(*old(self), *final(self)),
            r is Ok ==> advanced(*old(self), *final(self)),
            parsed(r, *final(self), expr(old(self).source(), old(self).idx as int)),
        decreases old(self).left(), 6nat,
    {
        self.sub_expr(0)
    }

    /// The body of a function literal with the given parameters. Where the
    /// body ends with an expression, the function returns its value.
    fn anon_func(&mut self, params: Vec<String>) -> (r: Result<Expr, String>)
        requires
            old(self).wf(),
        ensures
            stepped(*old(self), *final(self)),
            r is Ok ==> advanced(*old(self), *final(self)),
            parsed(
                r,
                *final(self),
                anon_func(old(self).source(), old(self).idx as int, texts(params@, params@.len() as int)),
            ),
        decreases old(self).left(), 23nat,
    {
        let body: Node = match self.block() {
            Ok(n) => n,
            Err(e) => {
                return Err(e);
            },
        };
        let line: usize = body.line;
        let ghost given = node_view(body);
        let mut nodes: Vec<Node> = match body.stmt {
            Stmt::Block(nodes) => nodes,
            other => {
                let mut v: Vec<Node> = Vec::new();
                v.push(Node { line, stmt: other });
                v
            },
        };
        let ghost all = nodes@;
        let ghost views = nodes_view(all, all.len() as int);
        assert(given.stmt == StmtM::Block(views));
        match nodes.pop() {
            Some(last) => {
                let at: usize = last.line;
                let ghost rest = nodes@;
                let ghost head = nodes_view(rest, rest.len() as int);
                proof {
                    assert(all =~= rest.push(last));
                    lemma_nodes_push(rest, last);
                    assert(views == head.push(node_view(last)));
                    assert(views.drop_last() =~= head);
                    assert(views.last() == node_view(last));
                }
                match last.stmt {
                    Stmt::Expr(e) => {
                        let node: Node = Node { line: at, stmt: Stmt::Return(e) };
                        nodes.push(node);
                        proof {
                            lemma_nodes_push(rest, node);
                            assert(nodes@ == rest.push(node));
                            assert(node_view(last).stmt == StmtM::Expr(expr_view(e)));
                            assert(node_view(node) == (NodeM { line: at, stmt: StmtM::Return(expr_view(e)) }));
                            assert(nodes_view(nodes@, nodes@.len() as int) == returning(views));
                        }
                    },
                    other => {
                        let node: Node = Node { line: at, stmt: other };
                        nodes.push(node);
                        proof {
                            lemma_nodes_push(rest, node);
                            assert(nodes@ == rest.push(node));
                            assert(node_view(node) == node_view(last));
                            assert(!(node_view(last).stmt is Expr));
                            assert(nodes_view(nodes@, nodes@.len() as int) == returning(views));
                        }
                    },
                }
            },
            None => {
                assert(nodes_view(nodes@, nodes@.len() as int) == returning(views));
            },
        }
        let ghost done = nodes_view(nodes@, nodes@.len() as int);
        let out: Node = Node { line, stmt: Stmt::Block(nodes) };
        assert(node_view(out) == (NodeM { line, stmt: StmtM::Block(done) }));
        Ok(Expr::AnonFn(params, Box::new(out)))
    }

    /// The index behind an opening square bracket, and the closing one.
    fn index(&mut self, exp: Expr) -> (r: Result<Expr, String>)
        requires
            old(self).wf(),
        ensures
            stepped(*old(self), *final(self)),
            r is Ok ==> advanced(*old(self), *final(self)),
            parsed(r, *final(self), index(old(self).source(), old(self).idx as int, exp@)),
        decreases old(self).left(), 8nat,
    {
        let idx: Expr = match self.expr() {
            Ok(e) => e,
            Err(e) => {
                return Err(e);
            },
        };
        proof {
            self.lemma_source();
        }
        match self.check_next(Token::RightSquare) {
            Ok(()) => Ok(Expr::Index(Box::new(exp), Box::new(idx))),
            Err(e) => Err(e),
        }
    }

    /// The field behind a dot: a name stands for the text of the name.
    fn dot_index(&mut self, exp: Expr) -> (r: Result<Expr, String>)
        requires
            old(self).wf(),
        ensures
            stepped(*old(self), *final(self)),
            r is Ok ==> advanced(*old(self), *final(self)),
            parsed(r, *final(self), dot_index(old(self).source(), old(self).idx as int, exp@)),
    {
        proof {
            self.lemma_source();
        }
        match self.token {
            Token::Number => {
                let n: u64 = self.lexemes[self.idx].number;
                self.next();
                assert(expr_view(Expr::Number(n)) == ExprM::Number(n));
                Ok(Expr::Index(Box::new(exp), Box::new(Expr::Number(n))))
            },
            Token::Name => {
                let name: String = self.text();
                self.next();
                assert(expr_view(Expr::String(name)) == ExprM::String(name@));
                Ok(Expr::Index(Box::new(exp), Box::new(Expr::String(name))))
            },
            _ => Err(self.error("unexpected token", self.token)),
        }
    }

    /// One entry of a table: `name: value` or `[key]: value`.
    fn pair(&mut self) -> (r: Result<Pair, String>)
        requires
            old(self).wf(),
        ensures
            stepped(*old(self), *final(self)),
            r is Ok ==> advanced(*old(self), *final(self)),
            parsed(r, *final(self), pair(old(self).source(), old(self).idx as int)),
        decreases old(self).left(), 8nat,
    {
        proof {
            self.lemma_source();
        }
        let key: Expr = if self.token == Token::Name {
            let name: String = self.text();
            self.next();
            Expr::String(name)
        } else {
            match self.check_next(Token::LeftSquare) {
                Ok(()) => {},
                Err(e) => {
                    return Err(e);
                },
            }
            let exp: Expr = match self.expr() {
                Ok(e) => e,
                Err(e) => {
                    return Err(e);
                },
            };
            proof {
                self.lemma_source();
            }
            match self.check_next(Token::RightSquare) {
                Ok(()) => {},
                Err(e) => {
                    return Err(e);
                },
            }
            exp
        };
        proof {
            self.lemma_source();
        }
        match self.check_next(Token::Colon) {
            Ok(()) => {},
            Err(e) => {
                return Err(e);
            },
        }
        match self.expr() {
            Ok(value) => Ok(Pair { key, value }),
            Err(e) => Err(e),
        }
    }

    /// The entries of a table behind its opening brace, and the closing
    /// one. Commas separate the entries, and one may follow the last.
    fn table(&mut self) -> (r: Result<Expr, String>)
        requires
            old(self).wf(),
        ensures
            stepped(*old(self), *final(self)),
            r is Ok ==> advanced(*old(self), *final(self)),
            parsed(r, *final(self), table(old(self).source(), old(self).idx as int)),
        decreases old(self).left(), 31nat,
    {
        proof {
            self.lemma_source();
        }
        let ghost src = self.source();
        let mut pairs: Vec<Pair> = Vec::new();
        if self.token != Token::RightBrace {
            let first: Pair = match self.pair() {
                Ok(p) => p,
                Err(e) => {
                    return Err(e);
                },
            };
            pairs.push(first);
            proof {
                lemma_pairs_push(Seq::empty(), first);
                assert(pairs@ == Seq::<Pair>::empty().push(first));
                assert(pairs_view(pairs@, 1) =~= seq![first@]);
                self.lemma_source();
            }
            let ghost goal = more_pairs(src, self.idx as int, seq![first@]);
            let mut more: bool = true;
            while more && self.token == Token::Comma
                invariant
                    advanced(*old(self), *self),
                    src == self.source(),
                    table(src, old(self).idx as int) == (match goal {
                        Err(e) => Err(e),
                        Ok((pairs, j)) => match src.check_next(j, Token::RightBrace) {
                            Err(e) => Err(e),
                            Ok(k) => Ok((ExprM::Table(pairs), k)),
                        },
                    }),
                    more ==> goal == more_pairs(src, self.idx as int, pairs_view(pairs@, pairs@.len() as int)),
                    !more ==> goal == Ok::<(Seq<PairM>, int), Seq<char>>(
                        (pairs_view(pairs@, pairs@.len() as int), self.idx as int),
                    ),
                decreases self.left() + (if more { 1int } else { 0int }),
            {
                proof {
                    self.lemma_source();
                }
                self.next();
                proof {
                    self.lemma_source();
                }
                if self.token == Token::RightBrace {
                    more = false;
                } else {
                    let ghost before = pairs@;
                    let pair: Pair = match self.pair() {
                        Ok(p) => p,
                        Err(e) => {
                            return Err(e);
                        },
                    };
                    pairs.push(pair);
                    proof {
                        lemma_pairs_push(before, pair);
                        assert(pairs@ == before.push(pair));
                    }
                }
            }
        }
        proof {
            self.lemma_source();
        }
        match self.check_next(Token::RightBrace) {
            Ok(()) => Ok(Expr::Table(pairs)),
            Err(e) => Err(e),
        }
    }

    /// The items of an array behind its opening bracket, and the closing
    /// one.
    fn array(&mut self) -> (r: Result<Expr, String>)
        requires
            old(self).wf(),
        ensures
            stepped(*old(self), *final(self)),
            r is Ok ==> advanced(*old(self), *final(self)),
            parsed(r, *final(self), array(old(self).source(), old(self).idx as int)),
        decreases old(self).left(), 32nat,
    {
        match self.exp_list(Token::RightSquare) {
            Ok(elems) => Ok(Expr::Array(elems)),
            Err(e) => Err(e),
        }
    }

    /// The arguments of a call behind its opening parenthesis, and the
    /// closing one.
    fn call(&mut self, func: Expr) -> (r: Result<Expr, String>)
        requires
            old(self).wf(),
        ensures
            stepped(*old(self), *final(self)),
            r is Ok ==> advanced(*old(self), *final(self)),
            parsed(r, *final(self), call(old(self).source(), old(self).idx as int, func@)),
        decreases old(self).left(), 32nat,
    {
        match self.exp_list(Token::RightParen) {
            Ok(args) => Ok(Expr::Call(Box::new(func), args)),
            Err(e) => Err(e),
        }
    }

    /// Names separated by commas, up to and with the token `end`.
    fn name_list(&mut self, end: Token) -> (r: Result<Vec<String>, String>)
        requires
            old(self).wf(),
            end != Token::Eof,
        ensures
            stepped(*old(self), *final(self)),
            r is Ok ==> advanced(*old(self), *final(self)),
            parsed_names(r, *final(self), name_list(old(self).source(), old(self).idx as int, end)),
    {
        proof {
            self.lemma_source();
        }
        let ghost src = self.source();
        let mut names: Vec<String> = Vec::new();
        if self.token != end {
            let ghost goal = names_from(src, self.idx as int, Seq::empty());
            let mut more: bool = true;
            while more
                invariant
                    stepped(*old(self), *self),
                    src == self.source(),
                    end != Token::Eof,
                    name_list(src, old(self).idx as int, end) == (match goal {
                        Err(e) => Err(e),
                        Ok((names, j)) => match src.check_next(j, end) {
                            Err(e) => Err(e),
                            Ok(k) => Ok((names, k)),
                        },
                    }),
                    more ==> goal == names_from(src, self.idx as int, texts(names@, names@.len() as int)),
                    !more ==> goal == Ok::<(Seq<Seq<char>>, int), Seq<char>>(
                        (texts(names@, names@.len() as int), self.idx as int),
                    ),
                decreases self.left() + (if more { 1int } else { 0int }),
            {
                proof {
                    self.lemma_source();
                }
                match self.check(Token::Name) {
                    Ok(()) => {},
                    Err(e) => {
                        return Err(e);
                    },
                }
                let ghost before = names@;
                let name: String = self.text();
                names.push(name);
                proof {
                    lemma_texts_push(before, name);
                    assert(names@ == before.push(name));
                }
                self.next();
                proof {
                    self.lemma_source();
                }
                if self.token != Token::Comma {
                    more = false;
                } else {
                    self.next();
                }
            }
        }
        proof {
            self.lemma_source();
        }
        match self.check_next(end) {
            Ok(()) => Ok(names),
            Err(e) => Err(e),
        }
    }

    /// Expressions separated by commas, up to and with the token `end`.
    fn exp_list(&mut self, end: Token) -> (r: Result<Vec<Expr>, String>)
        requires
            old(self).wf(),
            end != Token::Eof,
        ensures
            stepped(*old(self), *final(self)),
            r is Ok ==> advanced(*old(self), *final(self)),
            parsed_exprs(r, *final(self), exp_list(old(self).source(), old(self).idx as int, end)),
        decreases old(self).left(), 31nat,
    {
        proof {
            self.lemma_source();
        }
        let ghost src = self.source();
        let mut exps: Vec<Expr> = Vec::new();
        if self.token != end {
            let first: Expr = match self.expr() {
                Ok(e) => e,
                Err(e) => {
                    return Err(e);
                },
            };
            exps.push(first);
            proof {
                lemma_exprs_push(Seq::empty(), first);
                assert(exps@ == Seq::<Expr>::empty().push(first));
                assert(exprs_view(exps@, 1) =~= seq![first@]);
                self.lemma_source();
            }
            let ghost goal = more_exprs(src, self.idx as int, seq![first@]);
            while self.token == Token::Comma
                invariant
                    advanced(*old(self), *self),
                    src == self.source(),
                    end != Token::Eof,
                    exp_list(src, old(self).idx as int, end) == (match goal {
                        Err(e) => Err(e),
                        Ok((items, j)) => match src.check_next(j, end) {
                            Err(e) => Err(e),
                            Ok(k) => Ok((items, k)),
                        },
                    }),
                    goal == more_exprs(src, self.idx as int, exprs_view(exps@, exps@.len() as int)),
                decreases self.left(),
            {
                proof {
                    self.lemma_source();
                }
                self.next();
                let ghost before = exps@;
                let exp: Expr = match self.expr() {
                    Ok(e) => e,
                    Err(e) => {
                        return Err(e);
                    },
                };
                exps.push(exp);
                proof {
                    lemma_exprs_push(before, exp);
                    assert(exps@ == before.push(exp));
                }
            }
        }
        proof {
            self.lemma_source();
        }
        match self.check_next(end) {
            Ok(()) => Ok(exps),
            Err(e) => Err(e),
        }
    }
}

} // verus!
