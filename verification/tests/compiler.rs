use moon::common::utils::{compile_tokens, tokenize, Program};
use moon::common::{Closure, Opcode, Value};
use moon::lexer::Token;
use moon::parser::gen::report_error;
use moon::parser::{BinOp, CompileError, Compiler, Expr, Node, Stmt, VarInfo};
use moon::vm::code::{
    format_instruction, get_a, get_b, get_bx, get_c, get_op, is_valid, make_abc, nested_functions, plain_constants,
};

fn compile(src: &str) -> Program {
    let mut tokens = tokenize(src.to_string(), "c".to_string()).unwrap();
    for t in tokens.iter_mut() {
        if t.token == Token::Number {
            t.number = t.text.parse::<f64>().unwrap().to_bits();
        }
    }
    compile_tokens(tokens, "c".to_string()).unwrap()
}

fn listing(c: &Closure) -> Vec<String> {
    c.code.iter().map(|w| format_instruction(*w)).collect()
}

fn main_listing(src: &str) -> Vec<String> {
    listing(&compile(src).main)
}

fn num(x: f64) -> Value {
    Value::Number(x.to_bits())
}

fn node(stmt: Stmt) -> Node {
    Node { line: 1, stmt }
}

/// What holds of every finished function.
fn check_finished(c: &Closure) {
    assert_eq!(c.lines.len(), c.code.len());
    assert!(!c.code.is_empty());
    for (i, a) in c.consts.iter().enumerate() {
        for (j, b) in c.consts.iter().enumerate() {
            if a.equals(b) {
                assert_eq!(i, j);
            }
        }
    }
    for (i, w) in c.code.iter().enumerate() {
        assert!(is_valid(*w));
        if get_op(*w) == Opcode::Jmp {
            let target = if get_a(*w) == 1 {
                i as i64 - get_bx(*w) as i64
            } else {
                i as i64 + get_bx(*w) as i64
            };
            assert!(0 <= target && target < c.code.len() as i64, "jump {} of {} goes to {}", i, c.name, target);
        }
        assert_eq!(make_abc(get_op(*w), ((*w >> 17) & 0x1FF) as u16, ((*w >> 8) & 0x1FF) as u16, get_c(*w)), *w);
    }
    assert_eq!(get_op(*c.code.last().unwrap()), Opcode::Return);
}

const PROGRAMS: [&str; 12] = [
    "",
    "print(1 + 2 * 3)",
    "let a = []; a[0] = \"x\"; a[1] = \"y\"; print(a[0] + a[1])",
    "let t = { a: 1, b: 2 }; print(t.a + t.b)",
    "fn fib(n) { if (n < 2) { return n } return fib(n-1) + fib(n-2) } print(fib(10))",
    "let mk = |x| { || { x = x + 1; return x } }; let c = mk(10); print(c()); print(c())",
    "let x=1; (|| { x = 2 })(); x",
    "let i = 0; while (i < 10) { if (i % 2 == 0) { print(i) } else { i = i + 1 } i = i + 1 }",
    "for (let i = 0; i < 3; i = i + 1) { for (j = 0; j < i; j = j + 1) { print(i && j || nil) } }",
    "fn f(c) { if (c) { return 1 } } fn g(c) { while (c) { return 2 } } fn h(c) { if (c) { } else { return 3 } }",
    "let a = 1; let b = 1; let c = 'x'; let d = 'x'; let e = 1 + 1 + 'x' + 'y' + 2; f(1, 'x', nil, true)",
    "let f = |a| { let g = |b| { let h = || a + b; return h }; return g }; f(1)(2)()",
];

#[test]
fn compiled_functions_are_finished() {
    for src in PROGRAMS.iter() {
        let p = compile(src);
        check_finished(&p.main);
        assert_eq!(p.main.name, "main");
        assert_eq!(p.main.file_name, "c");
        for (h, f) in p.funcs.iter().enumerate() {
            check_finished(f);
            assert_eq!(f.file_name, "c");
            for k in f.consts.iter() {
                if let Value::Closure(g) = k {
                    assert!(*g < h);
                }
            }
        }
    }
}

#[test]
fn no_temporary_register_is_in_use_after_a_statement() {
    let mut tokens = tokenize("let a = 1 + f(2, [3, 4]); a = { k: a }; { let b = a }".to_string(), "c".to_string()).unwrap();
    for t in tokens.iter_mut() {
        if t.token == Token::Number {
            t.number = t.text.parse::<f64>().unwrap().to_bits();
        }
    }
    let mut parser = moon::parser::Parser::new(tokens, "c".to_string());
    parser.parse().unwrap();
    let mut c = Compiler::new("c".to_string());
    assert_eq!((c.freereg, c.nvars), (0, 0));
    let expected = [1, 1, 1];
    for (n, want) in parser.nodes.iter().zip(expected.iter()) {
        assert_eq!(c.walk(n), Ok(()));
        assert_eq!(c.freereg, c.nvars);
        assert_eq!(c.nvars, *want);
        assert_eq!(c.vars.len(), *want as usize);
        assert_eq!(c.closure.lines.len(), c.closure.code.len());
        assert_eq!(c.ni, c.closure.code.len());
    }
    assert_eq!(c.vars, vec![VarInfo::new("a".to_string(), 0)]);
}

#[test]
fn constants_are_pooled_once() {
    let p = compile("let a = 1; let b = 1; let c = 'x'; let d = 'x'; let e = 2; print(1, 'x', 2, 1)");
    assert_eq!(p.main.consts, vec![num(1.0), Value::String("x".into()), num(2.0), Value::String("print".into())]);
    let mut c = Compiler::new("c".to_string());
    assert_eq!(c.resolve_const(num(1.0)), Ok(0));
    assert_eq!(c.resolve_const(num(2.0)), Ok(1));
    assert_eq!(c.resolve_const(num(1.0)), Ok(0));
    assert_eq!(c.resolve_const(Value::String("1".into())), Ok(2));
    assert_eq!(c.resolve_const(Value::Nil), Ok(3));
    assert_eq!(c.resolve_const(Value::Closure(0)), Ok(4));
    assert_eq!(c.resolve_const(Value::Closure(1)), Ok(5));
    assert_eq!(c.resolve_const(Value::Closure(0)), Ok(4));
    assert_eq!(c.resolve_const(num(-0.0)), Ok(6));
    assert_eq!(c.resolve_const(num(0.0)), Ok(6));
    assert_eq!(c.resolve_const(num(f64::NAN)), Ok(7));
    assert_eq!(c.resolve_const(num(f64::NAN)), Ok(8));
    assert_eq!(c.closure.consts.len(), 9);
}

#[test]
fn expressions_compile_to_their_instructions() {
    assert_eq!(main_listing("1 + 2 * 3"), vec!["Mul -1 -2 0", "Add -0 0 0", "Return 0 1 0"]);
    assert_eq!(
        main_listing("let a = 5; let b = a - 1; b = -a; !b"),
        vec![
            "LoadConst 0 0",
            "Move 1 0 0",
            "Sub 1 -1 1",
            "Move 3 0 0",
            "Neg 2 3 0",
            "Move 1 2 0",
            "Move 3 1 0",
            "Not 2 3 0",
            "Return 0 1 0"
        ]
    );
    assert_eq!(
        main_listing("a < b; a <= b; a > b; a >= b; a == b; a != b"),
        vec![
            "GetGlobal 0 0",
            "GetGlobal 1 1",
            "Gt 0 1 0",
            "GetGlobal 0 0",
            "GetGlobal 1 1",
            "Ge 0 1 0",
            "GetGlobal 0 0",
            "GetGlobal 1 1",
            "Lt 0 1 0",
            "GetGlobal 0 0",
            "GetGlobal 1 1",
            "Le 0 1 0",
            "GetGlobal 0 0",
            "GetGlobal 1 1",
            "Eq 0 1 0",
            "GetGlobal 0 0",
            "GetGlobal 1 1",
            "Neq 0 1 0",
            "Return 0 1 0"
        ]
    );
    assert_eq!(
        main_listing("x = nil; y = true; z = false"),
        vec![
            "LoadNil 0 0 0",
            "SetGlobal 0 0",
            "LoadBool 0 1 0",
            "SetGlobal 0 1",
            "LoadBool 0 0 0",
            "SetGlobal 0 2",
            "Return 0 1 0"
        ]
    );
    assert_eq!(main_listing("[]"), vec!["NewArray 0 0 0", "Return 0 1 0"]);
    assert_eq!(
        main_listing("[1, f(2), 3]"),
        vec![
            "LoadConst 0 0",
            "GetGlobal 1 1",
            "LoadConst 2 2",
            "Call 1 3 1",
            "LoadConst 2 3",
            "NewArray 0 3 0",
            "Return 0 1 0"
        ]
    );
    assert_eq!(
        main_listing("x = { a: 1, [2]: 'b' }; x = {}"),
        vec![
            "LoadConst 0 0",
            "LoadConst 1 1",
            "LoadConst 2 2",
            "LoadConst 3 3",
            "NewTable 0 4 0",
            "SetGlobal 0 4",
            "NewTable 0 0 0",
            "SetGlobal 0 4",
            "Return 0 1 0"
        ]
    );
    assert_eq!(
        main_listing("let t = 0; t[1] = t; t.k.j = 2"),
        vec![
            "LoadConst 0 0",
            "Move 1 0 0",
            "Move 3 0 0",
            "SetObj -1 3 1",
            "Move 1 0 0",
            "GetObj 1 -2 0",
            "SetObj -3 -4 1",
            "Return 0 1 0"
        ]
    );
    assert_eq!(
        main_listing("a && b; a || b"),
        vec![
            "GetGlobal 0 0",
            "Test 0 0 0",
            "Jmp 0 2",
            "GetGlobal 0 1",
            "GetGlobal 0 0",
            "Test 0 1 0",
            "Jmp 0 2",
            "GetGlobal 0 1",
            "Return 0 1 0"
        ]
    );
}

#[test]
fn statements_compile_to_their_instructions() {
    assert_eq!(
        main_listing("if (a) { b } c"),
        vec!["GetGlobal 0 0", "Test 0 0 0", "Jmp 0 2", "GetGlobal 0 1", "GetGlobal 0 2", "Return 0 1 0"]
    );
    assert_eq!(
        main_listing("if (a) { b } else { c }"),
        vec![
            "GetGlobal 0 0",
            "Test 0 0 0",
            "Jmp 0 3",
            "GetGlobal 0 1",
            "Jmp 0 2",
            "GetGlobal 0 2",
            "Return 0 1 0"
        ]
    );
    assert_eq!(
        main_listing("while (a) { b }"),
        vec!["GetGlobal 0 0", "Test 0 0 0", "Jmp 0 3", "GetGlobal 0 1", "Jmp 1 4", "Return 0 1 0"]
    );
    assert_eq!(
        main_listing("for (let i = 0; i < 3; i = i + 1) { let j = i }"),
        vec![
            "LoadConst 0 0",
            "Move 1 0 0",
            "Gt 1 -1 1",
            "Test 1 0 0",
            "Jmp 0 7",
            "Move 1 0 0",
            "Close 1 0 0",
            "Move 1 0 0",
            "Add 1 -2 1",
            "Move 0 1 0",
            "Jmp 1 9",
            "Close 0 0 0",
            "Return 0 1 0"
        ]
    );
    assert_eq!(main_listing("return 1"), vec!["LoadConst 0 0", "Return 0 0 0"]);
    assert_eq!(
        main_listing("if (a) { return 1 }"),
        vec!["GetGlobal 0 0", "Test 0 0 0", "Jmp 0 3", "LoadConst 0 1", "Return 0 0 0", "Return 0 1 0"]
    );
    assert_eq!(
        main_listing("{ let a = 1; { let b = 2; let c = 3 } let d = 4 }"),
        vec![
            "LoadConst 0 0",
            "LoadConst 1 1",
            "LoadConst 2 2",
            "Close 1 0 0",
            "LoadConst 1 3",
            "Close 0 0 0",
            "Return 0 1 0"
        ]
    );
}

#[test]
fn lines_follow_the_statements() {
    let p = compile("let a = 1\n\nlet b = a +\n 2\nif (a) {\n b\n}");
    assert_eq!(p.main.lines, vec![1, 3, 3, 5, 5, 5, 6, 6]);
}

#[test]
fn functions_capture_through_a_prologue() {
    let p = compile("let x = 1; let y = 2; let f = |a| { y = a; return x + y + g }");
    assert_eq!(p.funcs.len(), 1);
    assert_eq!(p.funcs[0].name, "<anonymous>");
    assert_eq!(p.funcs[0].nparams, 1);
    assert_eq!(
        listing(&p.funcs[0]),
        vec![
            "GetUpVal 1 0 1",
            "GetUpVal 0 1 1",
            "Move 1 0 0",
            "SetUpVal 0 1 0",
            "GetUpVal 1 1 0",
            "GetUpVal 2 0 0",
            "Add 1 2 1",
            "GetGlobal 2 0",
            "Add 1 2 1",
            "Return 1 0 0"
        ]
    );
    assert_eq!(listing(&p.main), vec!["LoadConst 0 0", "LoadConst 1 1", "Closure 2 2", "Return 0 1 0"]);
    assert_eq!(p.main.consts[2], Value::Closure(0));

    let q = compile("fn outer(p) { let l = 1; return || { if (p) { l = p } return l } }");
    assert_eq!(q.funcs.len(), 2);
    assert_eq!(q.funcs[1].name, "outer");
    assert_eq!(q.funcs[0].name, "<anonymous>");
    assert_eq!(
        listing(&q.funcs[0]),
        vec![
            "GetUpVal 1 1 1",
            "GetUpVal 0 0 1",
            "GetUpVal 0 0 0",
            "Test 0 0 0",
            "Jmp 0 3",
            "GetUpVal 0 0 0",
            "SetUpVal 1 0 0",
            "GetUpVal 0 1 0",
            "Return 0 0 0"
        ]
    );
    assert_eq!(get_b(q.funcs[0].code[0]), 1);
    assert_eq!(listing(&q.main), vec!["Closure 0 0", "Return 0 1 0"]);
    assert_eq!(q.main.consts, vec![Value::Closure(1)]);
}

#[test]
fn too_many_registers() {
    let args: Vec<Expr> = (0..255).map(|_| Expr::Nil).collect();
    let call = |args: Vec<Expr>| vec![node(Stmt::Expr(Expr::Call(Box::new(Expr::Name("f".into())), args)))];
    let mut c = Compiler::new("c".to_string());
    assert_eq!(c.compile(call(args.iter().take(254).map(|_| Expr::Nil).collect())), Ok(()));
    let mut c = Compiler::new("c".to_string());
    assert_eq!(c.compile(call(args)), Err("c:1: function or expression too complex".to_string()));
    let mut c = Compiler::new("c".to_string());
    c.freereg = 250;
    assert_eq!(c.reserve_regs(5), Ok(()));
    assert_eq!(c.freereg, 255);
    assert_eq!(c.reserve_regs(1), Err(CompileError::TooComplex));
    assert_eq!(c.freereg, 255);
}

#[test]
fn too_many_local_variables() {
    let lets = |n: usize| -> Vec<Node> {
        (0..n).map(|i| Node { line: i + 1, stmt: Stmt::Let(format!("v{}", i), Expr::Nil) }).collect()
    };
    let mut c = Compiler::new("c".to_string());
    assert_eq!(c.compile(lets(255)), Ok(()));
    assert_eq!(c.nvars, 255);
    assert!(c.compile(lets(300)).is_err());
    let mut c = Compiler::new("c".to_string());
    assert_eq!(c.compile(lets(257)), Err("c:256: function or expression too complex".to_string()));
    let mut c = Compiler::new("c".to_string());
    for i in 0..255 {
        assert_eq!(c.register_var(format!("v{}", i)), Ok(i as u8));
    }
    assert_eq!(c.register_var("last".to_string()), Err(CompileError::TooManyLocals));
    assert_eq!(c.get_var(&"v7".to_string()), Some(7));
    assert_eq!(c.get_var(&"last".to_string()), None);
    let params: Vec<String> = (0..256).map(|i| format!("p{}", i)).collect();
    let f = Stmt::Fn("f".into(), params, Box::new(node(Stmt::Block(vec![]))));
    let mut c = Compiler::new("c".to_string());
    assert_eq!(c.compile(vec![Node { line: 9, stmt: f }]), Err("c:9: too many local variables".to_string()));
}

#[test]
fn too_many_constants() {
    let mut c = Compiler::new("c".to_string());
    c.closure.consts = (0..65535).map(|i| num(i as f64)).collect();
    assert_eq!(c.resolve_const(num(7.0)), Ok(7));
    assert_eq!(c.resolve_const(num(65534.0)), Ok(65534));
    assert_eq!(c.resolve_const(num(0.5)), Err(CompileError::ConstantOverflow));
    assert_eq!(c.closure.consts.len(), 65535);
    assert_eq!(
        c.compile(vec![Node { line: 3, stmt: Stmt::Expr(Expr::String("new".into())) }]),
        Err("c:3: constant overflow".to_string())
    );
    let mut c = Compiler::new("c".to_string());
    c.closure.consts = (0..300).map(|i| num(i as f64)).collect();
    assert_eq!(c.compile(vec![node(Stmt::Expr(Expr::Binary(
        Box::new(Expr::Number(254f64.to_bits())),
        BinOp::Add,
        Box::new(Expr::Number(255f64.to_bits())),
    )))]), Ok(()));
    assert_eq!(listing(&c.closure), vec!["LoadConst 0 255", "Add -254 0 0", "Return 0 1 0"]);
}

#[test]
fn blocks_that_are_too_long() {
    let body = |n: usize| -> Box<Node> {
        Box::new(node(Stmt::Block((0..n).map(|_| node(Stmt::Expr(Expr::Nil))).collect())))
    };
    let mut c = Compiler::new("c".to_string());
    assert_eq!(c.compile(vec![node(Stmt::If(Expr::Nil, body(65534), None))]), Ok(()));
    assert_eq!(get_bx(c.closure.code[2]), 65535);
    let mut c = Compiler::new("c".to_string());
    assert_eq!(
        c.compile(vec![node(Stmt::If(Expr::Nil, body(65535), None))]),
        Err("c:1: block is too long".to_string())
    );
    assert_eq!(c.closure.lines.len(), c.closure.code.len());
    let mut c = Compiler::new("c".to_string());
    assert_eq!(
        c.compile(vec![node(Stmt::While(Expr::Nil, body(65533)))]),
        Err("c:1: block is too long".to_string())
    );
    assert_eq!(c.closure.lines.len(), c.closure.code.len());
    let mut c = Compiler::new("c".to_string());
    assert_eq!(c.compile(vec![node(Stmt::While(Expr::Nil, body(65532)))]), Ok(()));
    assert_eq!(get_bx(c.closure.code[c.closure.code.len() - 2]), 65535);
    assert_eq!(c.jmp(false, 65535).map(|w| get_bx(w)), Ok(65535));
    assert_eq!(c.jmp(true, 65535).map(|w| (get_a(w), get_bx(w))), Ok((1, 65535)));
    assert_eq!(c.jmp(true, 65536), Err(CompileError::BlockTooLong));
    assert_eq!(c.jmp(false, 65536), Err(CompileError::BlockTooLong));
}

#[test]
fn any_word_can_be_emitted() {
    let mut c = Compiler::new("c".to_string());
    c.line = 7;
    c.emit(0xFFFF_FFFF);
    c.emit(0);
    assert_eq!(c.closure.code, vec![0xFFFF_FFFF, 0]);
    assert_eq!(c.closure.lines, vec![7, 7]);
    assert_eq!(c.ni, 2);
    assert_eq!((c.freereg, c.nvars), (0, 0));
    assert!(c.closure.consts.is_empty());
}

#[test]
fn what_cannot_be_assigned_to() {
    let assign = Expr::Binary(Box::new(Expr::Nil), BinOp::Assign, Box::new(Expr::Nil));
    let mut c = Compiler::new("file".to_string());
    assert_eq!(
        c.compile(vec![Node { line: 4, stmt: Stmt::Expr(assign) }]),
        Err("file:4: cannot assign to this expression".to_string())
    );
    assert_eq!(report_error("f", 12, CompileError::TooComplex), "f:12: function or expression too complex");
    assert_eq!(c.error(CompileError::BadAssign), "file:4: cannot assign to this expression");
}

#[test]
fn constants_are_told_from_nested_functions() {
    let mut c = Closure::new("x".to_string());
    assert!(plain_constants(&c).is_empty());
    assert!(nested_functions(&c).is_empty());
    c.consts = vec![
        Value::Number(1),
        Value::Closure(4),
        Value::String("a".to_string()),
        Value::Closure(2),
        Value::Nil,
        Value::Closure(4),
    ];
    assert_eq!(plain_constants(&c), vec![Value::Number(1), Value::String("a".to_string()), Value::Nil]);
    assert_eq!(nested_functions(&c), vec![4, 2, 4]);
    let p = compile("let f = || 1; let s = 'a'; let g = || || 2; print(s)");
    assert_eq!(nested_functions(&p.main).len() + plain_constants(&p.main).len(), p.main.consts.len());
    assert_eq!(nested_functions(&p.main).len(), 2);
    assert!(plain_constants(&p.main).contains(&Value::String("a".to_string())));
}

fn jumps(code: &[u32]) -> Vec<(usize, i64)> {
    code.iter()
        .enumerate()
        .filter(|(_, w)| get_op(**w) == Opcode::Jmp)
        .map(|(i, w)| {
            let by = get_bx(*w) as i64;
            (i, if get_a(*w) == 1 { i as i64 - by } else { i as i64 + by })
        })
        .collect()
}

#[test]
fn jumps_land_where_the_statements_say() {
    // The jump after the test lands behind the block.
    assert_eq!(jumps(&compile("if (nil) { 1 }").main.code), vec![(2, 4)]);
    // With a second block it lands on that block, and the jump that ends
    // the first block lands behind the statement.
    assert_eq!(jumps(&compile("if (nil) { 1 } else { 2 }").main.code), vec![(2, 5), (4, 6)]);
    // The jump that ends the body lands on the condition, and the jump
    // after the test behind it.
    assert_eq!(jumps(&compile("while (nil) { 1 }").main.code), vec![(2, 5), (4, 0)]);
    let p = compile("let a = 1; for (let i = 0; i < 1; i = i + 1) { }");
    let code = &p.main.code;
    let close = code.iter().position(|w| get_op(*w) == Opcode::Close).unwrap();
    assert_eq!(get_a(code[close]), 1);
    let found = jumps(code);
    assert_eq!(found.len(), 2);
    assert_eq!(found[0].1, close as i64);
    assert_eq!(found[1], (close - 1, 2));
}

#[test]
fn a_scope_that_declares_is_closed() {
    let p = compile("let a = 1; { let b = 2; let c = 3 } { a = 2 }");
    let closes: Vec<u8> =
        p.main.code.iter().filter(|w| get_op(**w) == Opcode::Close).map(|w| get_a(*w)).collect();
    assert_eq!(closes, vec![1]);
}

#[test]
fn a_local_operand_is_copied_to_the_scratch_register() {
    assert_eq!(
        main_listing("let x = 1; x + (x = 5)"),
        vec!["LoadConst 0 0", "Move 1 0 0", "LoadConst 2 1", "Move 0 2 0", "Add 1 2 1", "Return 0 1 0"]
    );
    let mut c = Compiler::new("c".to_string());
    assert_eq!(c.register_var("x".to_string()), Ok(0));
    c.freereg = 3;
    assert_eq!(c.rc2reg(&Expr::Name("x".to_string()), 2), Ok(2));
    assert_eq!(listing(&c.closure), vec!["Move 2 0 0"]);
    assert_eq!(c.rc2reg(&Expr::Number(4.0f64.to_bits()), 2), Ok(0x100));
    assert_eq!(c.rc2reg(&Expr::String("s".to_string()), 2), Ok(0x101));
    assert_eq!(c.rc2reg(&Expr::Nil, 2), Ok(2));
    assert_eq!(listing(&c.closure), vec!["Move 2 0 0", "LoadNil 2 0 0"]);
    assert_eq!(c.rc2nextreg(&Expr::Name("x".to_string())), Ok(3));
    assert_eq!(c.rc2nextreg(&Expr::Number(4.0f64.to_bits())), Ok(0x100));
    assert_eq!(c.freereg, 3);
    assert_eq!(listing(&c.closure), vec!["Move 2 0 0", "LoadNil 2 0 0", "Move 3 0 0"]);
    assert_eq!(
        main_listing("!a; -b; !'s'"),
        vec!["GetGlobal 1 0", "Not 0 1 0", "GetGlobal 1 1", "Neg 0 1 0", "Not 0 -2 0", "Return 0 1 0"]
    );
    assert_eq!(c.closure.consts, vec![Value::Number(4.0f64.to_bits()), Value::String("s".to_string())]);
}

fn snapshot(c: &Compiler) -> (Closure, Vec<Closure>, u8, u8, usize, usize, usize) {
    (c.closure.copy(), c.funcs.iter().map(|f| f.copy()).collect(), c.freereg, c.nvars, c.vars.len(), c.line, c.ni)
}

#[test]
fn a_step_that_fails_leaves_the_compiler_as_it_was() {
    let mut c = Compiler::new("c".to_string());
    c.closure.consts = (0..65535u64).map(Value::Number).collect();
    c.emit(make_abc(Opcode::LoadNil, 0, 0, 0));
    let before = snapshot(&c);
    assert_eq!(c.resolve_const(Value::Nil), Err(CompileError::ConstantOverflow));
    assert_eq!(snapshot(&c), before);
    assert_eq!(c.resolve_const(Value::Number(65534)), Ok(65534));
    assert_eq!(snapshot(&c), before);
    c.freereg = 1;
    let before = snapshot(&c);
    assert_eq!(c.rc2reg(&Expr::String("new".to_string()), 0), Err(CompileError::ConstantOverflow));
    assert_eq!(snapshot(&c), before);
    c.freereg = 0;
    assert_eq!(
        c.compile(vec![node(Stmt::Expr(Expr::Nil)), node(Stmt::Expr(Expr::String("new".to_string())))]),
        Err("c:1: constant overflow".to_string())
    );
    assert_eq!(listing(&c.closure), vec!["LoadNil 0 0 0", "LoadNil 0 0 0"]);
    assert_eq!((c.freereg, c.ni, c.closure.lines.len()), (1, 2, 2));
    c.freereg = 255;
    let before = snapshot(&c);
    assert_eq!(c.reserve_regs(1), Err(CompileError::TooComplex));
    assert_eq!(snapshot(&c), before);
}
