use moon::common::utils::{compile_tokens, tokenize, Program};
use moon::common::{Closure, Opcode, Type, Value};
use moon::lexer::Token;
use moon::vm::code::{code_listing, get_a, get_bx, get_fn_info, get_op, make_abc, make_abx};
use moon::vm::env::aux::{get, get_all, tbl_builtin};
use moon::vm::{CallInfo, NativeCallInfo, RuntimeError, Step, VM};

fn compile_named(src: &str, name: &str) -> Result<Program, String> {
    let mut tokens = tokenize(src.to_string(), name.to_string())?;
    for t in tokens.iter_mut() {
        if t.token == Token::Number {
            t.number = t.text.parse::<f64>().unwrap().to_bits();
        }
    }
    compile_tokens(tokens, name.to_string())
}

fn display(vm: &VM, v: &Value) -> String {
    match v {
        Value::String(s) => s.clone(),
        Value::Number(bits) => f64::from_bits(*bits).to_string(),
        Value::Bool(b) => b.to_string(),
        Value::Closure(h) => format!("function: {}", vm.closures[*h].name),
        Value::NativeFunc(h) => format!("function: {}", vm.natives[*h].name),
        Value::Array(h) => {
            let items: Vec<String> = vm.arrays[*h].vec.iter().map(|x| display(vm, x)).collect();
            format!("[{}]", items.join(", "))
        }
        Value::Table(h) => {
            let items: Vec<String> =
                vm.tables[*h].tbl.iter().map(|(k, x)| format!("{}: {}", display(vm, k), display(vm, x))).collect();
            format!("{{{}}}", items.join(", "))
        }
        Value::Nil => "nil".to_string(),
    }
}

/// Runs a source text with the native functions `print` and `error`.
fn exec(src: &str) -> (Vec<String>, VM, Result<(), String>) {
    let program = compile_named(src, "test").unwrap();
    let mut vm = VM::new(program.main, program.funcs);
    let print = vm.builtin("print");
    let error = vm.builtin("error");
    let mut out = Vec::new();
    let mut rounds = 0;
    loop {
        rounds += 1;
        assert!(rounds < 1_000_000, "the program does not end");
        match vm.run(1000) {
            Ok(Step::Done) => return (out, vm, Ok(())),
            Ok(Step::Next) => {}
            Ok(Step::Arith { op, lhs, rhs, dst }) => {
                let (a, b) = (f64::from_bits(lhs), f64::from_bits(rhs));
                let r = match op {
                    Opcode::Add => a + b,
                    Opcode::Sub => a - b,
                    Opcode::Mul => a * b,
                    Opcode::Div => a / b,
                    Opcode::Mod => a % b,
                    other => panic!("no arithmetic: {:?}", other),
                };
                vm.complete(dst, Value::Number(r.to_bits()));
            }
            Ok(Step::Native { func, dst }) => {
                if func == print {
                    let args = get_all(&vm);
                    let line: Vec<String> = args.iter().map(|v| display(&vm, v)).collect();
                    out.push(line.join("\t"));
                    vm.complete(dst, Value::Nil);
                } else {
                    assert_eq!(func, error);
                    let e = match get(&mut vm) {
                        Ok(Value::String(s)) => RuntimeError::CustomError(s),
                        Ok(_) => RuntimeError::CustomError("expected string".to_string()),
                        Err(e) => e,
                    };
                    let text = vm.native_failed(func, &e);
                    return (out, vm, Err(text));
                }
            }
            Err(e) => return (out, vm, Err(e)),
        }
    }
}

fn prints(src: &str) -> Vec<String> {
    let (out, _, r) = exec(src);
    assert_eq!(r, Ok(()), "{}", src);
    out
}

fn fails(src: &str) -> String {
    let (_, _, r) = exec(src);
    r.unwrap_err()
}

#[test]
fn arithmetic_and_text() {
    assert_eq!(prints("print(7 % 4, 7 / 2, 2 - 5, -3 * -2, 1 + 0.5)"), vec!["3\t3.5\t-3\t6\t1.5"]);
    assert_eq!(prints("print('ab' + 'cd')"), vec!["abcd"]);
    assert_eq!(prints("let x = 3; print(-x, !x, !nil)"), vec!["-3\tfalse\ttrue"]);
    assert_eq!(prints("print(1 / 0, -1 / 0)"), vec!["inf\t-inf"]);
}

#[test]
fn comparisons() {
    assert_eq!(prints("print(1 < 2, 2 < 1, 1 <= 1, 1 > 2, 2 > 1, 2 >= 3)"), vec![
        "true\tfalse\ttrue\tfalse\ttrue\tfalse"
    ]);
    assert_eq!(prints("print('a' < 'b', 'b' < 'a', 'a' <= 'a', 'ab' > 'a', 'a' >= 'b')"), vec![
        "true\tfalse\ttrue\ttrue\tfalse"
    ]);
    assert_eq!(prints("print(1 == 1, 1 != 1, 'a' == 'a', 1 == '1', nil == nil, nil == false)"), vec![
        "true\tfalse\ttrue\tfalse\ttrue\tfalse"
    ]);
    assert_eq!(prints("let n = 0 / 0; print(n == n, n != n, n < n, n >= n)"), vec!["false\ttrue\tfalse\tfalse"]);
    assert_eq!(prints("let f = || 1; let g = f; print(f == g, f == || 1, print == print)"), vec![
        "true\tfalse\ttrue"
    ]);
}

#[test]
fn short_circuit_operators() {
    assert_eq!(prints("print(nil || 2, 1 || 2, nil && 2, 1 && 2, false || nil)"), vec!["2\t1\tnil\t2\tnil"]);
    assert_eq!(prints("let x = 0; let y = false && (x = 1); print(x, y)"), vec!["0\tfalse"]);
    assert_eq!(prints("let x = 0; let y = true || (x = 1); print(x, y)"), vec!["0\ttrue"]);
}

#[test]
fn control_flow() {
    assert_eq!(prints("if (1 < 2) { print('a') } else { print('b') } print('c')"), vec!["a", "c"]);
    assert_eq!(prints("if (1 > 2) { print('a') } else { print('b') } print('c')"), vec!["b", "c"]);
    assert_eq!(prints("if (nil) { print('a') } print('c')"), vec!["c"]);
    assert_eq!(prints("if (0) print('zero is truthy')"), vec!["zero is truthy"]);
    assert_eq!(prints("let i = 0; while (i < 3) { print(i); i = i + 1 } print('done')"), vec![
        "0", "1", "2", "done"
    ]);
    assert_eq!(
        prints("let s = 0; for (let i = 1; i <= 4; i = i + 1) { let d = i * 2; s = s + d } print(s)"),
        vec!["20"]
    );
    assert_eq!(prints("for (let i = 0; i < 2; i = i + 1) { } let j = 5; print(j)"), vec!["5"]);
    assert_eq!(
        prints("fn f(c) { if (c) { return 1 } } print(f(true)); print(f(false)); print('after')"),
        vec!["1", "nil", "after"]
    );
}

#[test]
fn scopes_and_shadowing() {
    assert_eq!(prints("let x = 1; { let x = 2; print(x) } print(x)"), vec!["2", "1"]);
    assert_eq!(prints("let x = 1; { let y = 2; x = y } let z = 3; print(x, z)"), vec!["2\t3"]);
    assert_eq!(prints("g = 5; print(g); fn f() { g = g + 1 } f(); print(g)"), vec!["5", "6"]);
    assert_eq!(prints("print(unknown)"), vec!["nil"]);
}

#[test]
fn functions_and_closures() {
    assert_eq!(prints("fn add(a, b) { return a + b } print(add(1, 2))"), vec!["3"]);
    assert_eq!(prints("fn f(a, b) { return b } print(f(1))"), vec!["nil"]);
    assert_eq!(prints("let f = |a| a * 2; print(f(21))"), vec!["42"]);
    assert_eq!(prints("fn f() { } print(f())"), vec!["nil"]);
    assert_eq!(prints("let x = 1; let f = || x; x = 5; print(f())"), vec!["5"]);
    assert_eq!(
        prints("fact = |n| { if (n < 2) { return 1 } return n * fact(n - 1) }; print(fact(10))"),
        vec!["3628800"]
    );
    assert_eq!(prints("fn f(n, me) { if (n < 2) { return 1 } return n * me(n - 1, me) } print(f(10, f))"), vec![
        "3628800"
    ]);
}

/// A call fills the captured variables of the function from the registers
/// of the caller, and a return writes them back there.
#[test]
fn variables_are_captured_where_the_call_is_made() {
    // `k` is register 1 of the program; inside `apply` register 1 is `v`.
    assert_eq!(
        prints("fn apply(f, v) { return f(v) } let k = 10; print(apply(|v| v + k, 1)); print(k)"),
        vec!["2", "10"]
    );
    // `n` is register 0 of `make`; where `a` is called, register 0 is `make`.
    assert!(fails(
        "fn make() { let n = 0; return || { n = n + 1; return n } } let a = make(); print(a())"
    )
    .starts_with("test:1: attempt to perform an arithmetic on a function and number value\n"));
    // Inside `fact` register 0 is `n`.
    assert_eq!(
        fails("fn fact(n) { if (n < 2) { return 1 } return n * fact(n - 1) } print(fact(10))"),
        "test:1: attempt to call a number value\nstack trace:\n\t[test] in function fact\n\t[test] in function fact\n\t[test] in function main\n"
    );
    // The write goes back to the register it was read from.
    assert_eq!(prints("let a = 1; let b = 2; let f = || { b = b + a }; f(); f(); print(a, b)"), vec!["1\t4"]);
    // `x` is register 1 of the program; inside `set` register 1 is `here`.
    assert_eq!(
        prints("fn set(f) { let here = 0; f(); return here } let x = 1; print(set(|| { x = 7 }), x)"),
        vec!["7\t1"]
    );
}

#[test]
fn arrays_and_tables() {
    assert_eq!(prints("let a = [1, 'two', [3]]; print(a, a[1], a[2][0], a[9])"), vec![
        "[1, two, [3]]\ttwo\t3\tnil"
    ]);
    assert_eq!(prints("let a = []; let b = a; b[0] = 1; print(a, a == b)"), vec!["[1]\ttrue"]);
    assert_eq!(prints("let t = { a: 1, ['b' + 'c']: 2, [3]: 'x' }; print(t.a, t.bc, t[3], t.zz)"), vec![
        "1\t2\tx\tnil"
    ]);
    assert_eq!(prints("let t = {}; t.x = 1; t['x'] = t.x + 1; t[true] = 3; print(t)"), vec![
        "{x: 2, true: 3}"
    ]);
    assert_eq!(prints("let t = { a: [] }; t.a[0] = { b: 1 }; print(t.a[0].b)"), vec!["1"]);
    assert_eq!(prints("print([[], {}])"), vec!["[[], {}]"]);
}

#[test]
fn type_errors_are_reported() {
    assert_eq!(
        fails("print(1 + nil)"),
        "test:1: attempt to perform an arithmetic on a number and nil value\nstack trace:\n\t[test] in function main\n"
    );
    assert!(fails("print('a' + 1)").contains("attempt to perform an arithmetic on a string and number value"));
    assert!(fails("print('a' - 'b')").contains("attempt to perform an arithmetic on a string and string value"));
    assert!(fails("print(-'a')").contains("attempt to perform an arithmetic on a string value"));
    assert!(fails("print(1 < 'a')").contains("attempt to compare a number and string value"));
    assert!(fails("print(nil >= nil)").contains("attempt to compare a nil and nil value"));
    assert!(fails("let x = 1; x()").contains("attempt to call a number value"));
    assert!(fails("undefined()").contains("attempt to call a nil value"));
    assert!(fails("let x = 1; print(x[0])").contains("attempt to index a number value"));
    assert!(fails("let x = nil; x.y = 1").contains("attempt to index a nil value"));
    assert!(fails("let a = []; print(a['x'])").contains("attempt to index an array with a string value"));
}

#[test]
fn index_errors_are_reported() {
    assert!(fails("let a = []; a[1] = 0").contains("array index out of bounds"));
    assert!(fails("let a = []; a[0.5] = 0").contains("array index must be an integer"));
    assert!(fails("let a = []; print(a[0 / 0])").contains("array index must be an integer"));
    assert!(fails("let a = []; print(a[0 - 1])").contains("array index must be positive"));
    assert!(fails("let t = {}; t[nil] = 1").contains("table index is nil"));
    assert!(fails("let t = {}; print(t[nil])").contains("table index is nil"));
    assert!(fails("let t = {}; t[0 / 0] = 1").contains("table index is NaN"));
    assert!(fails("let t = { [nil]: 1 }").contains("table index is nil"));
}

#[test]
fn errors_name_file_line_and_frames() {
    assert_eq!(
        fails("let a = 1\nfn f(x) {\n  return x + nil\n}\nfn g() { return f(1) }\nprint(g())"),
        "test:3: attempt to perform an arithmetic on a number and nil value\nstack trace:\n\t[test] in function f\n\t[test] in function g\n\t[test] in function main\n"
    );
    assert_eq!(
        fails("fn f() {\n error('boom') }\nf()"),
        "test:2: boom\nstack trace:\n\t[rust] in function error\n\t[test] in function f\n\t[test] in function main\n"
    );
}

#[test]
fn deep_recursion_overflows_the_stack() {
    let (_, vm, r) = exec("fn f(me) { return me(me) }\nfn g(h) { return h(h) }\ng(f)");
    assert_eq!(
        r.unwrap_err(),
        "test:1: stack overflow\nstack trace:\n\t[test] in function f\n\t...\n\t[test] in function g\n\t[test] in function main\n"
    );
    assert_eq!(vm.ncalls, 20000);
    assert_eq!(vm.call_stack.len(), 20001);
}

#[test]
fn program_ends_with_an_empty_stack() {
    let (_, vm, r) = exec("let a = 1; let b = 'two'");
    assert_eq!(r, Ok(()));
    assert!(vm.call_stack.is_empty());
    assert_eq!(vm.regs[1], Value::String("two".to_string()));
    assert!(!vm.in_code());
    let mut vm = vm;
    assert_eq!(vm.exec(), Ok(Step::Done));
    assert_eq!(vm.run(10), Ok(Step::Done));
}

fn machine(code: Vec<u32>, consts: Vec<Value>) -> VM {
    let mut c = Closure::new("hand".to_string());
    c.name = "main".to_string();
    c.lines = vec![1; code.len()];
    c.code = code;
    c.consts = consts;
    VM::new(c, vec![])
}

fn num(x: f64) -> Value {
    Value::Number(x.to_bits())
}

#[test]
fn instructions_one_by_one() {
    let mut vm = machine(
        vec![
            make_abx(Opcode::LoadConst, 0, 0),
            make_abc(Opcode::Move, 3, 0, 0),
            make_abc(Opcode::LoadBool, 1, 1, 0),
            make_abc(Opcode::LoadBool, 2, 0, 0),
            make_abc(Opcode::LoadNil, 0, 0, 0),
            make_abc(Opcode::Add, 3, 256, 5),
            make_abc(Opcode::Neg, 4, 256, 0),
            make_abc(Opcode::Not, 6, 1, 0),
            make_abc(Opcode::Eq, 256, 256, 7),
            make_abc(Opcode::Close, 2, 0, 0),
        ],
        vec![num(1.5)],
    );
    assert_eq!(vm.call_stack, vec![CallInfo { closure: 0, is_builtin: false, base: 0, pc: 0 }]);
    assert_eq!(vm.nci, NativeCallInfo::new());
    for _ in 0..5 {
        assert_eq!(vm.exec(), Ok(Step::Next));
    }
    assert_eq!(vm.regs, vec![Value::Nil, Value::Bool(true), Value::Bool(false), num(1.5)]);
    assert_eq!(
        vm.exec(),
        Ok(Step::Arith { op: Opcode::Add, lhs: 1.5f64.to_bits(), rhs: 1.5f64.to_bits(), dst: 5 })
    );
    assert_eq!(vm.call_stack[0].pc, 5);
    vm.complete(5, num(3.0));
    assert_eq!(vm.call_stack[0].pc, 6);
    assert_eq!(vm.regs[5], num(3.0));
    assert_eq!(vm.regs[4], Value::Nil);
    assert_eq!(vm.exec(), Ok(Step::Next));
    assert_eq!(vm.regs[4], num(-1.5));
    assert_eq!(vm.exec(), Ok(Step::Next));
    assert_eq!(vm.regs[6], Value::Bool(false));
    assert_eq!(vm.exec(), Ok(Step::Next));
    assert_eq!(vm.regs[7], Value::Bool(true));
    assert_eq!(vm.exec(), Ok(Step::Next));
    assert_eq!(vm.regs.len(), 8);
    assert_eq!(&vm.regs[..2], &[Value::Nil, Value::Bool(true)]);
    assert!(vm.regs[2..].iter().all(|v| *v == Value::Nil));
    assert_eq!(vm.exec(), Ok(Step::Done));
    assert_eq!(vm.call_stack[0].pc, 10);
}

#[test]
fn jumps_and_tests() {
    let mut vm = machine(
        vec![
            make_abc(Opcode::LoadBool, 0, 1, 0),
            make_abc(Opcode::Test, 0, 0, 0),
            make_abx(Opcode::Jmp, 0, 40),
            make_abc(Opcode::Test, 0, 1, 0),
            make_abx(Opcode::Jmp, 0, 2),
            make_abc(Opcode::LoadNil, 0, 0, 0),
            make_abx(Opcode::Jmp, 1, 3),
            make_abx(Opcode::Jmp, 1, 100),
        ],
        vec![],
    );
    let pcs: Vec<usize> = (0..6)
        .map(|_| {
            assert_eq!(vm.exec(), Ok(Step::Next));
            vm.call_stack[0].pc
        })
        .collect();
    // Test skips the jump where the value is truthy and B is 0; with B 1 it
    // does not; then the jumps go forward by 2 and back by 3.
    assert_eq!(pcs, vec![1, 3, 4, 6, 3, 4]);
    vm.call_stack[0].pc = 7;
    assert_eq!(vm.exec(), Ok(Step::Next));
    assert_eq!(vm.call_stack[0].pc, 0);
    // A jump forward goes as far as it says, also past the end of the code.
    vm.call_stack[0].pc = 2;
    assert_eq!(vm.exec(), Ok(Step::Next));
    assert_eq!(vm.call_stack[0].pc, 42);
    assert_eq!(vm.exec(), Ok(Step::Done));
    assert_eq!(vm.call_stack[0].pc, 42);
}

#[test]
fn a_test_at_the_end_of_the_code_skips_past_it() {
    let mut vm = machine(vec![make_abc(Opcode::LoadBool, 0, 1, 0), make_abc(Opcode::Test, 0, 0, 0)], vec![]);
    assert_eq!(vm.exec(), Ok(Step::Next));
    assert_eq!(vm.exec(), Ok(Step::Next));
    assert_eq!(vm.call_stack[0].pc, 3);
    assert_eq!(vm.exec(), Ok(Step::Done));
    let mut vm = machine(vec![make_abc(Opcode::LoadBool, 0, 1, 0), make_abc(Opcode::Test, 0, 1, 0)], vec![]);
    assert_eq!(vm.exec(), Ok(Step::Next));
    assert_eq!(vm.exec(), Ok(Step::Next));
    assert_eq!(vm.call_stack[0].pc, 2);
}

#[test]
fn containers_by_instruction() {
    let mut vm = machine(
        vec![
            make_abc(Opcode::NewArray, 0, 0, 0),
            make_abc(Opcode::NewArray, 1, 1, 0),
            make_abc(Opcode::Eq, 0, 1, 2),
            make_abc(Opcode::Eq, 0, 0, 3),
            make_abc(Opcode::SetObj, 256, 257, 0),
            make_abc(Opcode::GetObj, 0, 256, 0),
            make_abx(Opcode::LoadConst, 4, 1),
            make_abx(Opcode::LoadConst, 5, 0),
            make_abc(Opcode::NewTable, 4, 6, 0),
            make_abc(Opcode::GetObj, 4, 257, 0),
            make_abx(Opcode::SetGlobal, 4, 1),
            make_abx(Opcode::GetGlobal, 9, 1),
            make_abx(Opcode::GetGlobal, 8, 0),
        ],
        vec![num(0.0), Value::String("k".to_string())],
    );
    for _ in 0..4 {
        assert_eq!(vm.exec(), Ok(Step::Next));
    }
    assert_eq!(&vm.regs[..4], &[Value::Array(0), Value::Array(1), Value::Bool(false), Value::Bool(true)]);
    assert_eq!(vm.exec(), Ok(Step::Next));
    assert_eq!(vm.arrays[0].vec, vec![Value::String("k".to_string())]);
    assert!(vm.arrays[1].vec.is_empty());
    assert_eq!(vm.exec(), Ok(Step::Next));
    assert_eq!(vm.regs[0], Value::String("k".to_string()));
    for _ in 0..3 {
        assert_eq!(vm.exec(), Ok(Step::Next));
    }
    assert_eq!(vm.regs[4], Value::Table(0));
    assert_eq!(vm.tables[0].tbl, vec![(Value::String("k".to_string()), num(0.0))]);
    assert_eq!(vm.exec(), Ok(Step::Next));
    assert_eq!(vm.regs[4], num(0.0));
    assert_eq!(vm.exec(), Ok(Step::Next));
    assert_eq!(vm.env.globals.tbl, vec![(Value::String("k".to_string()), num(0.0))]);
    assert_eq!(vm.exec(), Ok(Step::Next));
    assert_eq!(vm.regs[9], num(0.0));
    assert_eq!(vm.exec(), Ok(Step::Next));
    assert_eq!(vm.regs[8], Value::Nil);
}

#[test]
fn native_calls_hand_their_window_to_the_driver() {
    let mut vm = machine(
        vec![
            make_abx(Opcode::GetGlobal, 2, 0),
            make_abx(Opcode::LoadConst, 3, 1),
            make_abx(Opcode::LoadConst, 4, 2),
            make_abc(Opcode::Call, 2, 5, 2),
        ],
        vec![Value::String("f".to_string()), num(1.0), num(2.0)],
    );
    let f = vm.builtin("f");
    assert_eq!(f, 0);
    assert_eq!(vm.natives[0].name, "f");
    for _ in 0..3 {
        assert_eq!(vm.exec(), Ok(Step::Next));
    }
    assert_eq!(vm.exec(), Ok(Step::Native { func: 0, dst: 2 }));
    assert_eq!(vm.nci, NativeCallInfo { base: 3, top: 5 });
    assert_eq!(get_all(&vm), vec![num(1.0), num(2.0)]);
    assert_eq!(get(&mut vm), Ok(num(1.0)));
    assert_eq!(get_all(&vm), vec![num(2.0)]);
    assert_eq!(get(&mut vm), Ok(num(2.0)));
    assert_eq!(get(&mut vm), Err(RuntimeError::CustomError("expected value".to_string())));
    assert_eq!(vm.nci, NativeCallInfo { base: 5, top: 5 });
    vm.complete(2, Value::Bool(true));
    assert_eq!(vm.regs[2], Value::Bool(true));
    assert_eq!(vm.exec(), Ok(Step::Done));
}

#[test]
fn natives_in_tables_and_fresh_objects() {
    let mut vm = machine(vec![], vec![]);
    let t = vm.new_table();
    let u = vm.new_table();
    let a = vm.new_array(vec![num(1.0)]);
    let b = vm.new_array(vec![]);
    assert_eq!((t.clone(), u, a.clone(), b.clone()), (Value::Table(0), Value::Table(1), Value::Array(0), Value::Array(1)));
    assert!(!a.equals(&b) && a.equals(&a) && b.equals(&b));
    assert_eq!(tbl_builtin(&mut vm, 0, "upper"), 0);
    assert_eq!(tbl_builtin(&mut vm, 7, "lost"), 1);
    assert_eq!(vm.native("plain"), 2);
    assert_eq!(vm.tables[0].tbl, vec![(Value::String("upper".to_string()), Value::NativeFunc(0))]);
    assert_eq!(vm.natives.len(), 3);
}

#[test]
fn words_that_are_no_instructions_are_refused() {
    let mut vm = machine(vec![31u32 << 26], vec![]);
    assert_eq!(vm.exec(), Err(RuntimeError::CustomError("invalid instruction".to_string())));
    assert_eq!(vm.call_stack[0].pc, 0);
    assert_eq!(vm.run_once(), Err(
        "hand:1: invalid instruction\nstack trace:\n\t[hand] in function main\n".to_string()
    ));
}

#[test]
fn machines_that_a_run_can_reach_are_sound() {
    let mut vm = machine(vec![make_abc(Opcode::LoadNil, 0, 0, 0)], vec![]);
    assert!(vm.sound());
    vm.call_stack[0].base = 1;
    assert!(!vm.sound());
    vm.ncalls = 1;
    assert!(vm.sound());
    vm.call_stack[0].base = 256;
    assert!(vm.sound());
    vm.call_stack[0].base = 257;
    assert!(!vm.sound());
    vm.call_stack[0].base = 0;
    vm.ncalls = 19999;
    assert!(vm.sound());
    vm.ncalls = 20000;
    assert!(!vm.sound());
    vm.ncalls = 0;
    vm.call_stack.push(CallInfo::new(0, 0));
    assert!(vm.sound());
    vm.call_stack[0].pc = 0x7FFF_0000;
    assert!(!vm.sound());
    vm.call_stack[0].pc = 0x7FFE_FFFF;
    vm.call_stack[1].pc = usize::MAX;
    assert!(vm.sound());
    let (_, vm, r) = exec("fn f(a, b, c) { return [a, b, c] } let t = { k: f(1, 2, 3) }; print(t.k)");
    assert_eq!(r, Ok(()));
    assert!(vm.sound());
}

#[test]
fn a_return_moves_the_caller_on() {
    let mut vm = machine(vec![make_abc(Opcode::Return, 0, 1, 0)], vec![]);
    vm.call_stack[0].pc = 5;
    vm.call_stack.push(CallInfo::new(0, 0));
    assert!(vm.sound());
    assert_eq!(vm.exec(), Ok(Step::Next));
    assert_eq!(vm.call_stack, vec![CallInfo { closure: 0, is_builtin: false, base: 0, pc: 6 }]);
    assert_eq!(vm.exec(), Ok(Step::Done));
    vm.call_stack[0].pc = 0;
    assert_eq!(vm.exec(), Ok(Step::Next));
    assert!(vm.call_stack.is_empty());
}

#[test]
fn programs_are_loaded_behind_the_closures_of_a_machine() {
    let first = compile_named("let f = || 1", "one").unwrap();
    let second = compile_named("let g = || || 2", "two").unwrap();
    assert_eq!(first.funcs.len(), 1);
    assert_eq!(second.funcs.len(), 2);
    let mut vm = VM::new(first.main, first.funcs);
    assert_eq!(vm.closures.len(), 2);
    let h = vm.load(second.main, second.funcs);
    assert_eq!(h, 4);
    assert_eq!(vm.closures.len(), 5);
    assert_eq!(vm.closures[4].consts, vec![Value::Closure(3)]);
    assert_eq!(vm.closures[3].consts, vec![Value::Closure(2)]);
    assert_eq!(vm.closures[1].consts, vec![Value::Closure(0)]);
    vm.run_closure(h);
    assert_eq!(vm.call_stack.len(), 2);
    assert_eq!(vm.call_stack[1], CallInfo { closure: 4, is_builtin: false, base: 0, pc: 0 });
}

#[test]
fn traces_and_reports() {
    let program = compile_named("fn f() { }", "file").unwrap();
    let vm = VM::new(program.main, program.funcs);
    let stack = vec![
        CallInfo::new(1, 0),
        CallInfo::new(0, 1),
        CallInfo::new(0, 2),
        CallInfo::new(9, 3),
    ];
    assert_eq!(
        RuntimeError::ArrayIdxNeg.trace(&stack, &vm.closures),
        "stack trace:\n\t[?] in function ?\n\t[file] in function f\n\t[file] in function f\n\t[file] in function main\n"
    );
    assert_eq!(
        RuntimeError::StackOverflow.trace(&stack[..3].to_vec(), &vm.closures),
        "stack trace:\n\t[file] in function f\n\t...\n\t[file] in function main\n"
    );
    assert_eq!(RuntimeError::StackOverflow.trace(&vec![], &vm.closures), "stack trace:\n");
    assert_eq!(
        RuntimeError::TableIdxNil.to_error(&stack[..1].to_vec(), &vm.closures),
        "table index is nil\nstack trace:\n\t[file] in function main\n"
    );
    assert_eq!(
        RuntimeError::of_types("x", Type::Nil, Type::Bool),
        RuntimeError::TypeError("x".to_string(), Type::Nil, Some(Type::Bool))
    );
}

#[test]
fn listings() {
    let program = compile_named("let a = 1 + 2\nprint(a, 'text')\nfn f(x) { return x }", "file").unwrap();
    assert_eq!(get_fn_info(&program.main), "main <file> (7 instructions)\n0 params, 4 constants, 1 functions");
    assert_eq!(
        code_listing(&program.main),
        "main <file> (7 instructions)\n0 params, 4 constants, 1 functions\n\
         \t1\t[1]\tAdd -0 -1 0\n\
         \t2\t[2]\tGetGlobal 1 2\n\
         \t3\t[2]\tMove 2 0 0\n\
         \t4\t[2]\tLoadConst 3 3\n\
         \t5\t[2]\tCall 1 4 1\n\
         \t6\t[3]\tClosure 1 4\n\
         \t7\t[3]\tReturn 0 1 0\n"
    );
    assert_eq!(get_op(program.main.code[0]), Opcode::Add);
    assert_eq!(get_a(program.main.code[5]), 1);
    assert_eq!(get_bx(program.main.code[5]), 4);
}

#[test]
fn values_are_shown_as_far_as_the_machine_can_tell() {
    let program = compile_named("fn named() { }", "file").unwrap();
    let mut vm = VM::new(program.main, program.funcs);
    let f = vm.builtin("native");
    assert_eq!(Value::String("as it is".to_string()).to_string(&vm), Some("as it is".to_string()));
    assert_eq!(Value::Bool(true).to_string(&vm), Some("true".to_string()));
    assert_eq!(Value::Bool(false).to_string(&vm), Some("false".to_string()));
    assert_eq!(Value::Nil.to_string(&vm), Some("nil".to_string()));
    assert_eq!(Value::Closure(0).to_string(&vm), Some("function: named".to_string()));
    assert_eq!(Value::Closure(1).to_string(&vm), Some("function: main".to_string()));
    assert_eq!(Value::Closure(2).to_string(&vm), None);
    assert_eq!(Value::NativeFunc(f).to_string(&vm), Some("function: native".to_string()));
    assert_eq!(Value::NativeFunc(f + 1).to_string(&vm), None);
    assert_eq!(num(1.0).to_string(&vm), None);
    assert_eq!(Value::Array(0).to_string(&vm), None);
    assert_eq!(Value::Table(0).to_string(&vm), None);
}

#[test]
fn global_variables() {
    let mut env = moon::vm::Env::new();
    assert_eq!(env.globals.len(), 0);
    assert_eq!(env.set_global(Value::String("a".to_string()), num(1.0)), Ok(()));
    assert_eq!(env.set_global(Value::String("a".to_string()), num(2.0)), Ok(()));
    assert_eq!(env.set_global(num(3.0), Value::Nil), Ok(()));
    assert_eq!(env.set_global(Value::Nil, num(1.0)), Err(RuntimeError::TableIdxNil));
    assert_eq!(env.set_global(num(f64::NAN), num(1.0)), Err(RuntimeError::TableIdxNaN));
    assert_eq!(env.globals.tbl, vec![(Value::String("a".to_string()), num(2.0)), (num(3.0), Value::Nil)]);
}

#[test]
fn a_run_spends_its_budget() {
    let program = compile_named("let i = 0; while (true) { i = 1 }", "file").unwrap();
    let mut vm = VM::new(program.main, program.funcs);
    assert_eq!(vm.run(0), Ok(Step::Next));
    assert_eq!(vm.call_stack[0].pc, 0);
    assert_eq!(vm.run(1), Ok(Step::Next));
    assert_eq!(vm.call_stack[0].pc, 1);
    assert_eq!(vm.run(1000), Ok(Step::Next));
    assert!(vm.in_code());
    assert_eq!(vm.run_once(), Ok(Step::Next));
    let program = compile_named("let a = nil; let i = 1 + 2; a = i", "file").unwrap();
    let mut vm = VM::new(program.main, program.funcs);
    assert_eq!(
        vm.run(1000),
        Ok(Step::Arith { op: Opcode::Add, lhs: 1f64.to_bits(), rhs: 2f64.to_bits(), dst: 1 })
    );
    vm.complete(1, num(3.0));
    assert_eq!(vm.run(1000), Ok(Step::Done));
    assert_eq!(vm.regs[1], num(3.0));
    // The value that the program returns goes to the first register.
    assert_eq!(vm.regs[0], Value::Nil);
}

#[test]
fn a_call_captures_and_a_return_writes_back() {
    let mut callee = Closure::new("test".to_string());
    callee.code = vec![
        make_abc(Opcode::GetUpVal, 0, 2, 1),
        make_abc(Opcode::GetUpVal, 1, 4, 1),
        make_abc(Opcode::LoadBool, 0, 1, 0),
        make_abc(Opcode::SetUpVal, 0, 0, 0),
        make_abc(Opcode::Return, 0, 1, 0),
    ];
    callee.lines = vec![1; 5];
    let mut main = Closure::new("test".to_string());
    main.code = vec![make_abc(Opcode::Call, 5, 6, 5)];
    main.lines = vec![1];
    let mut vm = VM::new(main, vec![callee]);
    vm.regs = vec![num(10.0), Value::Nil, num(20.0), Value::Nil, num(40.0), Value::Closure(0)];
    assert_eq!(vm.exec(), Ok(Step::Next));
    assert_eq!(vm.call_stack, vec![
        CallInfo { closure: 1, is_builtin: false, base: 0, pc: 0 },
        CallInfo { closure: 0, is_builtin: false, base: 6, pc: 2 },
    ]);
    assert_eq!(vm.ncalls, 1);
    assert_eq!(vm.closures[0].upvals, vec![(2, num(20.0)), (4, num(40.0))]);
    assert_eq!(vm.exec(), Ok(Step::Next));
    assert_eq!(vm.exec(), Ok(Step::Next));
    assert_eq!(vm.closures[0].upvals, vec![(2, Value::Bool(true)), (4, num(40.0))]);
    assert_eq!(vm.regs[2], num(20.0));
    assert_eq!(vm.exec(), Ok(Step::Next));
    assert_eq!(vm.call_stack, vec![CallInfo { closure: 1, is_builtin: false, base: 0, pc: 1 }]);
    assert_eq!(&vm.regs[..6], &[num(10.0), Value::Nil, Value::Bool(true), Value::Nil, num(40.0), Value::Nil]);
    assert_eq!(vm.exec(), Ok(Step::Done));
}
