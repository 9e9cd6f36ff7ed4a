use moon::common::args::{decide, get_name, parse_args, Exec};
use moon::lexer::{Lexeme, Lexer, Token};
use moon::parser::{BinOp, Expr, Node, Pair, Parser, Stmt, UnOp};

fn tokens(src: &str) -> Vec<(Token, String, usize)> {
    let mut lexer = Lexer::new(src.to_string(), "t".to_string());
    lexer.lex_all().unwrap().into_iter().map(|l| (l.token, l.text, l.line)).collect()
}

fn kinds(src: &str) -> Vec<Token> {
    tokens(src).into_iter().map(|t| t.0).collect()
}

fn lex_error(src: &str) -> String {
    let mut lexer = Lexer::new(src.to_string(), "t".to_string());
    lexer.lex_all().unwrap_err()
}

fn parse(src: &str) -> Result<Vec<Node>, String> {
    let mut lexer = Lexer::new(src.to_string(), "t".to_string());
    let mut lexemes: Vec<Lexeme> = lexer.lex_all()?;
    for l in lexemes.iter_mut() {
        if l.token == Token::Number {
            l.number = l.text.parse::<f64>().unwrap().to_bits();
        }
    }
    let mut parser = Parser::new(lexemes, "t".to_string());
    parser.parse()?;
    Ok(parser.nodes)
}

fn expr(src: &str) -> Expr {
    let mut nodes = parse(src).unwrap();
    assert_eq!(nodes.len(), 1);
    match nodes.remove(0).stmt {
        Stmt::Expr(e) => e,
        other => panic!("no expression: {:?}", other),
    }
}

fn num(x: f64) -> Expr {
    Expr::Number(x.to_bits())
}

fn name(s: &str) -> Expr {
    Expr::Name(s.to_string())
}

fn bin(l: Expr, op: BinOp, r: Expr) -> Expr {
    Expr::Binary(Box::new(l), op, Box::new(r))
}

#[test]
fn tokens_with_fixed_spelling() {
    assert_eq!(
        kinds("( ) [ ] { } : | . && || = == != < > <= >= + - * / % ! ; ,"),
        vec![
            Token::LeftParen,
            Token::RightParen,
            Token::LeftSquare,
            Token::RightSquare,
            Token::LeftBrace,
            Token::RightBrace,
            Token::Colon,
            Token::Line,
            Token::Dot,
            Token::And,
            Token::Or,
            Token::Equal,
            Token::Eq,
            Token::Neq,
            Token::Gt,
            Token::Lt,
            Token::Ge,
            Token::Le,
            Token::Plus,
            Token::Dash,
            Token::Star,
            Token::Slash,
            Token::Percent,
            Token::Bang,
            Token::Semi,
            Token::Comma,
            Token::Eof,
        ]
    );
}

#[test]
fn keywords_names_numbers_and_strings() {
    assert_eq!(
        kinds("let if else fn for return while true false nil lets _x"),
        vec![
            Token::Let,
            Token::If,
            Token::Else,
            Token::Fn,
            Token::For,
            Token::Return,
            Token::While,
            Token::True,
            Token::False,
            Token::Nil,
            Token::Name,
            Token::Name,
            Token::Eof,
        ]
    );
    assert_eq!(
        tokens("abc 12 1_000.5_0 'it' \"a\\tb\\n\\\\\\'\\\"\""),
        vec![
            (Token::Name, "abc".to_string(), 1),
            (Token::Number, "12".to_string(), 1),
            (Token::Number, "1000.50".to_string(), 1),
            (Token::String, "it".to_string(), 1),
            (Token::String, "a\tb\n\\'\"".to_string(), 1),
            (Token::Eof, "".to_string(), 1),
        ]
    );
}

#[test]
fn lines_are_counted() {
    assert_eq!(
        tokens("a\nb\n\n  c 'x\\\ny'\nd"),
        vec![
            (Token::Name, "a".to_string(), 1),
            (Token::Name, "b".to_string(), 2),
            (Token::Name, "c".to_string(), 4),
            (Token::String, "xy".to_string(), 5),
            (Token::Name, "d".to_string(), 6),
            (Token::Eof, "".to_string(), 6),
        ]
    );
    assert_eq!(kinds(""), vec![Token::Eof]);
    assert_eq!(kinds("   \n\t "), vec![Token::Eof]);
}

#[test]
fn lexer_errors() {
    assert_eq!(lex_error("a # b"), "t:1: unexpected token near '#'");
    assert_eq!(lex_error("a\n&b"), "t:2: unexpected token near '&'");
    assert_eq!(lex_error("'abc"), "t:1: unfinished string near '<eof>'");
    assert_eq!(lex_error("'abc\nd'"), "t:1: unfinished string near 'abc'");
    assert_eq!(lex_error("'a\\qb'"), "t:1: invalid escape near 'a'");
    assert_eq!(lex_error("x 12ab"), "t:1: malformed number near '<name>'");
    assert_eq!(lex_error("1.2.3x"), "t:1: malformed number near '.'");
    assert_eq!(lex_error("12x"), "t:1: malformed number near '???'");
}

#[test]
fn lexer_step_by_step() {
    let mut lexer = Lexer::new("ab + 1".to_string(), "src".to_string());
    assert_eq!(lexer.token, Token::Unset);
    assert_eq!(lexer.pos, 0);
    assert_eq!(lexer.line, 1);
    assert_eq!(lexer.lex_next(), Ok(()));
    assert_eq!(lexer.token, Token::Name);
    assert_eq!(lexer.text(), "ab");
    assert_eq!(lexer.pos, 2);
    assert_eq!(lexer.lex(), Ok(Token::Plus));
    assert_eq!(lexer.token, Token::Name);
    assert_eq!(lexer.lex_next(), Ok(()));
    assert_eq!(lexer.token, Token::Number);
    assert_eq!(lexer.text(), "1");
    assert_eq!(lexer.lex_next(), Ok(()));
    assert_eq!(lexer.token, Token::Eof);
    assert_eq!(lexer.lex_next(), Ok(()));
    assert_eq!(lexer.token, Token::Eof);
    assert_eq!(lexer.token2str(Token::Ge), "<=");
    assert_eq!(lexer.token2str(Token::Gt), "<");
    assert_eq!(lexer.token2str(Token::Lt), ">");
    assert_eq!(lexer.token2str(Token::SC('#')), "#");
    assert_eq!(lexer.token2str(Token::Name), "<name>");
    assert_eq!(lexer.error("bad", Token::Semi), "src:1: bad near ';'");
}

#[test]
fn operators_bind_by_priority() {
    assert_eq!(BinOp::Mul.priority(), 7);
    assert_eq!(BinOp::Div.priority(), 7);
    assert_eq!(BinOp::Mod.priority(), 7);
    assert_eq!(BinOp::Add.priority(), 6);
    assert_eq!(BinOp::Sub.priority(), 6);
    assert_eq!(BinOp::Lt.priority(), 5);
    assert_eq!(BinOp::Le.priority(), 5);
    assert_eq!(BinOp::Gt.priority(), 5);
    assert_eq!(BinOp::Ge.priority(), 5);
    assert_eq!(BinOp::Eq.priority(), 4);
    assert_eq!(BinOp::Neq.priority(), 4);
    assert_eq!(BinOp::And.priority(), 3);
    assert_eq!(BinOp::Or.priority(), 2);
    assert_eq!(BinOp::Assign.priority(), 1);

    assert_eq!(
        expr("1 + 2 * 3"),
        bin(num(1.0), BinOp::Add, bin(num(2.0), BinOp::Mul, num(3.0)))
    );
    assert_eq!(
        expr("1 - 2 - 3"),
        bin(bin(num(1.0), BinOp::Sub, num(2.0)), BinOp::Sub, num(3.0))
    );
    assert_eq!(
        expr("a = b = c"),
        bin(name("a"), BinOp::Assign, bin(name("b"), BinOp::Assign, name("c")))
    );
    assert_eq!(
        expr("a || b && c == d < e + f % g"),
        bin(
            name("a"),
            BinOp::Or,
            bin(
                name("b"),
                BinOp::And,
                bin(
                    name("c"),
                    BinOp::Eq,
                    bin(name("d"), BinOp::Gt, bin(name("e"), BinOp::Add, bin(name("f"), BinOp::Mod, name("g"))))
                )
            )
        )
    );
    assert_eq!(
        expr("(1 + 2) * 3"),
        bin(bin(num(1.0), BinOp::Add, num(2.0)), BinOp::Mul, num(3.0))
    );
    assert_eq!(
        expr("-a * !b"),
        bin(
            Expr::Unary(UnOp::Neg, Box::new(name("a"))),
            BinOp::Mul,
            Expr::Unary(UnOp::Not, Box::new(name("b")))
        )
    );
}

#[test]
fn expressions_of_every_kind() {
    assert_eq!(
        expr("f(1, 'two')[3].four"),
        Expr::Index(
            Box::new(Expr::Index(
                Box::new(Expr::Call(Box::new(name("f")), vec![num(1.0), Expr::String("two".into())])),
                Box::new(num(3.0))
            )),
            Box::new(Expr::String("four".into()))
        )
    );
    assert_eq!(expr("[]"), Expr::Array(vec![]));
    assert_eq!(expr("[nil, true, false]"), Expr::Array(vec![Expr::Nil, Expr::Bool(true), Expr::Bool(false)]));
    assert_eq!(
        expr("x = { a: 1, [b]: 2, }"),
        bin(
            name("x"),
            BinOp::Assign,
            Expr::Table(vec![
                Pair { key: Expr::String("a".into()), value: num(1.0) },
                Pair { key: name("b"), value: num(2.0) },
            ])
        )
    );
    assert_eq!(
        expr("|a, b| { a }"),
        Expr::AnonFn(
            vec!["a".to_string(), "b".to_string()],
            Box::new(Node { line: 1, stmt: Stmt::Block(vec![Node { line: 1, stmt: Stmt::Return(name("a")) }]) })
        )
    );
    assert_eq!(
        expr("x = || 1"),
        bin(
            name("x"),
            BinOp::Assign,
            Expr::AnonFn(
                vec![],
                Box::new(Node { line: 1, stmt: Stmt::Block(vec![Node { line: 1, stmt: Stmt::Return(num(1.0)) }]) })
            )
        )
    );
}

#[test]
fn statements_of_every_kind() {
    let nodes = parse(
        "let a\nlet b = 1;\nif (a) { b } else b\nwhile (a) { }\nfor (let i = 0; i < 3; i = i + 1) { }\nfn f(x, y) { return x }\nreturn",
    )
    .unwrap();
    let block = |line: usize, nodes: Vec<Node>| Box::new(Node { line, stmt: Stmt::Block(nodes) });
    assert_eq!(
        nodes,
        vec![
            Node { line: 1, stmt: Stmt::Let("a".into(), Expr::Nil) },
            Node { line: 2, stmt: Stmt::Let("b".into(), num(1.0)) },
            Node {
                line: 3,
                stmt: Stmt::If(
                    name("a"),
                    block(3, vec![Node { line: 3, stmt: Stmt::Expr(name("b")) }]),
                    Some(block(3, vec![Node { line: 3, stmt: Stmt::Expr(name("b")) }]))
                )
            },
            Node { line: 4, stmt: Stmt::While(name("a"), block(4, vec![])) },
            Node {
                line: 5,
                stmt: Stmt::For(
                    Box::new(Node { line: 5, stmt: Stmt::Let("i".into(), num(0.0)) }),
                    bin(name("i"), BinOp::Gt, num(3.0)),
                    bin(name("i"), BinOp::Assign, bin(name("i"), BinOp::Add, num(1.0))),
                    block(5, vec![])
                )
            },
            Node {
                line: 6,
                stmt: Stmt::Fn(
                    "f".into(),
                    vec!["x".to_string(), "y".to_string()],
                    block(6, vec![Node { line: 6, stmt: Stmt::Return(name("x")) }])
                )
            },
            Node { line: 7, stmt: Stmt::Return(Expr::Nil) },
        ]
    );
}

#[test]
fn parser_errors() {
    assert_eq!(parse("let = 1").unwrap_err(), "t:1: expected '<name>' near '='");
    assert_eq!(parse("1 = 2").unwrap_err(), "t:1: unexpected token near '='");
    assert_eq!(parse("a + ").unwrap_err(), "t:1: unexpected token near '<eof>'");
    assert_eq!(parse("f(1").unwrap_err(), "t:1: expected ')' near '<eof>'");
    assert_eq!(parse("{ a: 1 }").unwrap_err(), "t:1: unexpected token near ':'");
    assert_eq!(parse("x = { 1 }").unwrap_err(), "t:1: expected '[' near '1'");
    assert_eq!(parse("if a { }").unwrap_err(), "t:1: expected '(' near '<name>'");
    assert_eq!(parse("if 1 { }").unwrap_err(), "t:1: expected '(' near '1'");
    assert_eq!(parse("\n\nfor (if (a) {}; a; a) {}").unwrap_err(), "t:3: unexpected statement near 'if'");
    assert_eq!(parse("a.").unwrap_err(), "t:1: unexpected token near '<eof>'");
    assert_eq!(parse("'x").unwrap_err(), "t:1: unfinished string near '<eof>'");
}

#[test]
fn parser_puts_an_end_behind_tokens_that_have_none() {
    let mut parser = Parser::new(vec![], "t".to_string());
    assert_eq!(parser.lexemes.len(), 1);
    assert_eq!(parser.token, Token::Eof);
    assert_eq!(parser.parse(), Ok(()));
    assert!(parser.nodes.is_empty());
}

#[test]
fn command_line() {
    let args = |v: &[&str]| v.iter().map(|s| s.to_string()).collect::<Vec<String>>();
    assert_eq!(parse_args(args(&[])), Ok(Exec::Exit));
    assert_eq!(parse_args(args(&["moon"])), Ok(Exec::Exit));
    assert_eq!(parse_args(args(&["moon", "a.moon"])), Ok(Exec::DoFile("a.moon".to_string())));
    assert_eq!(parse_args(args(&["moon", " a.moon "])), Ok(Exec::DoFile(" a.moon ".to_string())));
    assert_eq!(parse_args(args(&["moon", "-l", " a.moon\n"])), Ok(Exec::PrintBytecode("a.moon".to_string())));
    assert_eq!(
        parse_args(args(&["moon", " -ll ", "a.moon", "more"])),
        Ok(Exec::PrintBytecodeRecursive("a.moon".to_string()))
    );
    assert_eq!(parse_args(args(&["moon", "-l"])), Err("expected file name".to_string()));
    assert_eq!(parse_args(args(&["moon", "-ll"])), Err("expected file name".to_string()));
    assert_eq!(parse_args(args(&["moon", "-lll"])), Ok(Exec::DoFile("-lll".to_string())));
    assert_eq!(get_name(Some(&"n".to_string()), "err"), Ok("n".to_string()));
    assert_eq!(get_name(None, "err"), Err("err".to_string()));
    assert_eq!(decide(&"x".to_string(), "-l", None), Err("expected file name".to_string()));
}
