use moon::common::utils::{compile_tokens, tokenize, Program};
use moon::common::{Opcode, Value};
use moon::lexer::Token;
use moon::vm::env::aux::get_all;
use moon::vm::{Step, VM};

fn show(vm: &VM, v: &Value) -> String {
    match v {
        Value::String(s) => s.clone(),
        Value::Number(bits) => f64::from_bits(*bits).to_string(),
        Value::Bool(b) => b.to_string(),
        Value::Closure(h) => format!("function: {}", vm.closures[*h].name),
        Value::NativeFunc(h) => format!("function: {}", vm.natives[*h].name),
        Value::Array(h) => {
            let items: Vec<String> = vm.arrays[*h].vec.iter().map(|x| show(vm, x)).collect();
            format!("[{}]", items.join(", "))
        }
        Value::Table(_) => "table".to_string(),
        Value::Nil => "nil".to_string(),
    }
}

fn compile(src: &str) -> Result<Program, String> {
    let mut tokens = tokenize(src.to_string(), "test".to_string())?;
    for t in tokens.iter_mut() {
        if t.token == Token::Number {
            t.number = t.text.parse::<f64>().unwrap().to_bits();
        }
    }
    compile_tokens(tokens, "test".to_string())
}

fn arith(op: Opcode, a: f64, b: f64) -> f64 {
    match op {
        Opcode::Add => a + b,
        Opcode::Sub => a - b,
        Opcode::Mul => a * b,
        Opcode::Div => a / b,
        _ => a % b,
    }
}

/// Runs a source text with `print` as its only native function. Returns
/// what was printed, line by line, the machine, and how the run ended.
fn run(src: &str) -> (Vec<String>, VM, Result<(), String>) {
    let program = match compile(src) {
        Ok(p) => p,
        Err(e) => {
            let empty = compile("").unwrap();
            return (Vec::new(), VM::new(empty.main, empty.funcs), Err(e));
        }
    };
    let mut vm = VM::new(program.main, program.funcs);
    let print = vm.builtin("print");
    let mut out = Vec::new();
    let mut rounds = 0;
    loop {
        rounds += 1;
        assert!(rounds < 1_000_000, "the program does not end");
        match vm.run(10_000) {
            Ok(Step::Done) => return (out, vm, Ok(())),
            Ok(Step::Next) => {}
            Ok(Step::Arith { op, lhs, rhs, dst }) => {
                let r = arith(op, f64::from_bits(lhs), f64::from_bits(rhs));
                vm.complete(dst, Value::Number(r.to_bits()));
            }
            Ok(Step::Native { func, dst }) => {
                assert_eq!(func, print);
                let args = get_all(&vm);
                let line: Vec<String> = args.iter().map(|v| show(&vm, v)).collect();
                out.push(line.join("\t"));
                vm.complete(dst, Value::Nil);
            }
            Err(e) => return (out, vm, Err(e)),
        }
    }
}

#[test]
fn prints_arithmetic_with_precedence() {
    let (out, _, r) = run("print(1 + 2 * 3)");
    assert_eq!(r, Ok(()));
    assert_eq!(out, vec!["7".to_string()]);
}

#[test]
fn array_items_are_stored_and_read() {
    let (out, _, r) = run("let a = []; a[0] = \"x\"; a[1] = \"y\"; print(a[0] + a[1])");
    assert_eq!(r, Ok(()));
    assert_eq!(out, vec!["xy".to_string()]);
}

#[test]
fn table_fields_are_read_by_name() {
    let (out, _, r) = run("let t = { a: 1, b: 2 }; print(t.a + t.b)");
    assert_eq!(r, Ok(()));
    assert_eq!(out, vec!["3".to_string()]);
}

/// A call captures from the caller's registers. Inside `fib` the caller's
/// register 0 holds `n`, so the recursive call finds a number where the
/// function was.
#[test]
fn recursion_by_a_captured_name_reads_the_callers_register() {
    let (out, _, r) =
        run("fn fib(n) { if (n < 2) { return n } return fib(n-1) + fib(n-2) } print(fib(10))");
    assert!(out.is_empty());
    let e = r.unwrap_err();
    assert!(e.starts_with("test:1: attempt to call a number value\n"), "{}", e);
    let (out, _, r) = run("fn fib(n) { if (n < 2) { return n } return fib(n-1) + fib(n-2) } print(fib(1))");
    assert_eq!(r, Ok(()));
    assert_eq!(out, vec!["1".to_string()]);
}

/// A call captures from the caller's registers. Where `c` is called, the
/// caller's register 0 holds `mk`, so `x + 1` adds to a function.
#[test]
fn closure_called_elsewhere_captures_from_its_caller() {
    let (out, _, r) = run(
        "let mk = |x| { || { x = x + 1; return x } }; let c = mk(10); print(c()); print(c())",
    );
    assert!(out.is_empty());
    let e = r.unwrap_err();
    assert!(
        e.starts_with("test:1: attempt to perform an arithmetic on a function and number value\n"),
        "{}",
        e
    );
}

#[test]
fn captured_variable_is_read_where_the_call_is_made() {
    let (out, _, r) = run("let x = 10; let c = || { x = x + 1; return x }; print(c()); print(c()); print(x)");
    assert_eq!(r, Ok(()));
    assert_eq!(out, vec!["11".to_string(), "12".to_string(), "12".to_string()]);
}

#[test]
fn arithmetic_on_nil_is_a_runtime_error() {
    let (out, _, r) = run("print(1 + nil)");
    assert!(out.is_empty());
    let e = r.unwrap_err();
    assert!(
        e.contains("attempt to perform an arithmetic on a number and nil value"),
        "{}",
        e
    );
    assert!(e.starts_with("test:1: "), "{}", e);
    assert!(e.contains("\nstack trace:\n\t[test] in function main\n"), "{}", e);
}

#[test]
fn captured_variable_is_written_back() {
    let (out, _, r) = run("let x=1; (|| { x = 2 })(); print(x)");
    assert_eq!(r, Ok(()));
    assert_eq!(out, vec!["2".to_string()]);
}

#[test]
fn fresh_arrays_are_different_and_equal_to_themselves() {
    let (out, _, r) = run("let a = []; let b = []; print(a != b); print(a == a); print(a == b)");
    assert_eq!(r, Ok(()));
    assert_eq!(out, vec!["true".to_string(), "true".to_string(), "false".to_string()]);
}

#[test]
fn not_not_is_truthiness() {
    let (out, _, r) = run(
        "print(!!nil); print(!!false); print(!!0); print(!!\"\"); print(!![]); print(!!true)",
    );
    assert_eq!(r, Ok(()));
    assert_eq!(out, vec!["false", "false", "true", "true", "true", "true"]);
}

#[test]
fn an_operand_holds_what_it_was_when_it_was_evaluated() {
    let (out, _, r) = run("let x = 1; print(x + (x = 5)); print(x)");
    assert_eq!(r, Ok(()));
    assert_eq!(out, vec!["6".to_string(), "5".to_string()]);
    let (out, _, r) = run("let x = 2; let y = 3; print(x * y + (y = 1), y, x < (x = 0), x)");
    assert_eq!(r, Ok(()));
    assert_eq!(out, vec!["7\t1\tfalse\t0".to_string()]);
}
