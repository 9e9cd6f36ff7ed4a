//! From source text to a compiled program.

use vstd::prelude::*;
use vstd::string::*;
use crate::common::closure::{closure_views, Closure, ClosureView};
use crate::lexer::lexer::{lexeme_views, tokens_from, Lexeme, Lexer, Lx};
use crate::lexer::token::Token;
use crate::parser::ast::{nodes_view, Node, NodeM};
use crate::parser::gen::{error_report, finished, Compiler};
use crate::parser::grammar::{ended, Source};
use crate::parser::model::fresh;
use crate::parser::parser::Parser;

verus! {

/// A compiled program: the main function, and the functions that it and one
/// another refer to by handle.
pub struct Program {
    pub main: Closure,
    pub funcs: Vec<Closure>,
}

/// Reads all tokens of a source text, up to and with the token that marks
/// its end. The number of a number token is left 0: the program that
/// drives the library converts the token's text.
pub fn tokenize(src: String, name: String) -> (r: Result<Vec<Lexeme>, String>)
    ensures
        src@.len() < usize::MAX ==> match tokens_from(src@, name@, 0, 1, Token::Unset) {
            Ok(t) => r matches Ok(v) && lexeme_views(v@) == t,
            Err(e) => r matches Err(x) && x@ == e,
        },
        r matches Ok(v) ==> {
            &&& v.len() > 0
            &&& v@.last().token == Token::Eof
            &&& forall|i: int| 0 <= i < v.len() - 1 ==> (#[trigger] v@[i]).token != Token::Eof
            &&& forall|i: int| 0 <= i < v.len() ==> (#[trigger] v@[i]).number == 0
        },
{
    let mut lexer: Lexer = Lexer::new(src, name);
    lexer.lex_all()
}

/// What compiling the tokens of a source text comes to: the statements
/// that the grammar makes of the tokens are compiled into a fresh function
/// of the file, which gets the name `main`; with it come the functions that
/// it and one another refer to by handle. An error of the grammar is its
/// text, an error of the compiler its report.
pub open spec fn built(toks: Seq<Lx>, name: Seq<char>) -> Result<(ClosureView, Seq<ClosureView>), Seq<char>> {
    match crate::parser::grammar::program(Source { toks: ended(toks), name }, 0, Seq::empty()) {
        Err(e) => Err(e),
        Ok((nodes, _)) => match crate::parser::model::program(fresh(name), nodes) {
            Err(f) => Err(error_report(name, f.line as nat, f.kind)),
            Ok(d) => Ok((ClosureView { name: "main"@, file_name: name, ..d.closure }, d.funcs)),
        },
    }
}

/// Parses and compiles the tokens of a source text, see [`built`]. Every
/// function of the program is finished: it has a line for each instruction,
/// no constant twice, and every jump in it goes to one of its instructions.
pub fn compile_tokens(tokens: Vec<Lexeme>, name: String) -> (r: Result<Program, String>)
    ensures
        match built(lexeme_views(tokens@), name@) {
            Ok((main, funcs)) => r matches Ok(p) && p.main@ == main && closure_views(p.funcs@) == funcs,
            Err(e) => r matches Err(x) && x@ == e,
        },
        r matches Ok(p) ==> {
            &&& finished(p.main@)
            &&& p.main@.name == "main"@
            &&& p.main@.file_name == name@
            &&& forall|k: int| 0 <= k < p.funcs.len() ==> finished(#[trigger] p.funcs@[k]@)
        },
{
    let mut parser: Parser = Parser::new(tokens, name.clone());
    match parser.parse() {
        Ok(()) => {},
        Err(e) => {
            return Err(e);
        },
    }
    assert(nodes_view(Seq::<Node>::empty(), 0) =~= Seq::<NodeM>::empty());
    let mut compiler: Compiler = Compiler::new(name.clone());
    match compiler.compile(parser.nodes) {
        Ok(()) => {},
        Err(e) => {
            return Err(e);
        },
    }
    compiler.closure.name = String::from_str("main");
    compiler.closure.file_name = name;
    Ok(Program { main: compiler.closure, funcs: compiler.funcs })
}

} // verus!
