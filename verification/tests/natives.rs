use moon::common::number::{count_bits, from_whole};
use moon::common::utils::{compile_tokens, tokenize};
use moon::common::{Opcode, Type, Value};
use moon::lexer::Token;
use moon::vm::env::aux::{expect_number, expect_string, expected, optional_number, optional_string, get_all};
use moon::vm::env::globals::{argcheck, error, gettype, len, next, to_count, tonumber};
use moon::vm::env::strlib::{str_byte, str_lower, str_split, str_sub, str_trim, str_upper};
use moon::vm::{RuntimeError, Step, VM};

type Native = fn(&mut VM) -> Result<Value, RuntimeError>;

const NATIVES: [(&str, Native); 12] = [
    ("type", gettype),
    ("len", len),
    ("next", next),
    ("tonumber", tonumber),
    ("error", error),
    ("argcheck", argcheck),
    ("upper", str_upper),
    ("lower", str_lower),
    ("trim", str_trim),
    ("split", str_split),
    ("byte", str_byte),
    ("sub", str_sub),
];

fn text(vm: &VM, v: &Value) -> String {
    match v {
        Value::String(s) => format!("{:?}", s),
        Value::Number(bits) => f64::from_bits(*bits).to_string(),
        Value::Bool(b) => b.to_string(),
        Value::Array(h) => {
            let items: Vec<String> = vm.arrays[*h].vec.iter().map(|x| text(vm, x)).collect();
            format!("[{}]", items.join(", "))
        }
        Value::Nil => "nil".to_string(),
        other => format!("{:?}", other),
    }
}

/// Runs a source text with the natives of the library and `print`.
fn go(src: &str) -> Result<Vec<String>, String> {
    let mut tokens = tokenize(src.to_string(), "n".to_string())?;
    for t in tokens.iter_mut() {
        if t.token == Token::Number {
            t.number = t.text.parse::<f64>().unwrap().to_bits();
        }
    }
    let program = compile_tokens(tokens, "n".to_string())?;
    let mut vm = VM::new(program.main, program.funcs);
    for (name, _) in NATIVES.iter() {
        vm.builtin(name);
    }
    let print = vm.builtin("print");
    let mut out = Vec::new();
    loop {
        match vm.run(100_000)? {
            Step::Done => return Ok(out),
            Step::Next => {}
            Step::Arith { op, lhs, rhs, dst } => {
                let (a, b) = (f64::from_bits(lhs), f64::from_bits(rhs));
                let r = match op {
                    Opcode::Add => a + b,
                    Opcode::Sub => a - b,
                    Opcode::Mul => a * b,
                    Opcode::Div => a / b,
                    _ => a % b,
                };
                vm.complete(dst, Value::Number(r.to_bits()));
            }
            Step::Native { func, dst } => {
                if func == print {
                    let line: Vec<String> = get_all(&vm).iter().map(|v| text(&vm, v)).collect();
                    out.push(line.join(" "));
                    vm.complete(dst, Value::Nil);
                } else {
                    match NATIVES[func].1(&mut vm) {
                        Ok(v) => vm.complete(dst, v),
                        Err(e) => return Err(vm.native_failed(func, &e)),
                    }
                }
            }
        }
    }
}

fn one(src: &str) -> String {
    let out = go(src).unwrap();
    assert_eq!(out.len(), 1, "{:?}", out);
    out[0].clone()
}

fn message(src: &str) -> String {
    let e = go(src).unwrap_err();
    let first = e.lines().next().unwrap().to_string();
    first.strip_prefix("n:1: ").unwrap().to_string()
}

#[test]
fn whole_numbers_become_the_nearest_doubles() {
    let mut samples: Vec<u64> = vec![0, 1, 2, 3, 255, 256, 1000, u32::MAX as u64, u64::MAX, u64::MAX - 1];
    for k in 0..64 {
        let p = 1u64 << k;
        for d in [0u64, 1, 2, 3] {
            samples.push(p.wrapping_add(d));
            samples.push(p.wrapping_sub(d));
            samples.push((p | (p >> 1)).wrapping_add(d));
            samples.push((p | (p >> 53)).wrapping_add(d));
            samples.push((p | (p >> 54)).wrapping_add(d));
            samples.push(p.wrapping_add(p >> 52).wrapping_sub(d));
            samples.push(p.wrapping_add(p >> 53).wrapping_add(d));
            samples.push(p.wrapping_add(3 * (p >> 54)).wrapping_sub(d));
        }
    }
    let mut x: u64 = 0x9E37_79B9_7F4A_7C15;
    for _ in 0..20_000 {
        x ^= x << 13;
        x ^= x >> 7;
        x ^= x << 17;
        samples.push(x);
        samples.push(x >> (x % 64));
    }
    for n in samples {
        assert_eq!(from_whole(n), (n as f64).to_bits(), "{}", n);
    }
    assert_eq!(count_bits(0), 0);
    assert_eq!(count_bits(1), 1);
    assert_eq!(count_bits(255), 8);
    assert_eq!(count_bits(256), 9);
    assert_eq!(count_bits(u64::MAX), 64);
}

#[test]
fn doubles_are_read_as_counts() {
    assert_eq!(to_count(3.9f64.to_bits(), 100), 3);
    assert_eq!(to_count(0.5f64.to_bits(), 100), 0);
    assert_eq!(to_count(100.0f64.to_bits(), 100), 100);
    assert_eq!(to_count(101.0f64.to_bits(), 100), 100);
    assert_eq!(to_count(f64::INFINITY.to_bits(), 100), 100);
    assert_eq!(to_count((-1.0f64).to_bits(), 100), 0);
    assert_eq!(to_count((-0.0f64).to_bits(), 100), 0);
    assert_eq!(to_count(f64::NAN.to_bits(), 100), 0);
    assert_eq!(to_count(1e30f64.to_bits(), u64::MAX), u64::MAX);
    assert_eq!(to_count(7.0f64.to_bits(), u64::MAX), 7);
}

#[test]
fn kinds_and_lengths() {
    assert_eq!(
        one("print(type(1), type('a'), type(nil), type(true), type([]), type({}), type(print), type(|| 1))"),
        "\"number\" \"string\" \"nil\" \"bool\" \"array\" \"table\" \"function\" \"function\""
    );
    assert_eq!(one("print(len([]), len([1, 2, 3]), len({ a: 1 }), len(''), len('abc'), len('\u{e9}'))"), "0 3 1 0 3 2");
    assert_eq!(message("len(1)"), "attempt to get the length of a number value");
    assert_eq!(message("len(nil)"), "attempt to get the length of a nil value");
}

#[test]
fn walking_containers() {
    assert_eq!(one("let a = ['x', 'y']; print(next(a), next(a, 0), next(a, 1), next(a, 2), next(a, 1.7))"), "\"x\" \"x\" \"y\" nil \"y\"");
    assert_eq!(one("let t = { a: 1, b: 2 }; print(next(t), next(t, 1), next(t, 2), next(t, 0 - 1))"), "1 2 nil 1");
    assert_eq!(message("next(1)"), "bad argument #1");
}

#[test]
fn numbers_from_text() {
    assert_eq!(one("print(tonumber('42'), tonumber('ff', 16), tonumber('101', 2), tonumber('z', 36))"), "42 255 5 nil");
    assert_eq!(one("print(tonumber('vv', 32), tonumber('11', 1), tonumber('11', 0 - 5), tonumber('11', 99))"), "1023 3 3 33");
    assert_eq!(one("print(tonumber('x'), tonumber(''), tonumber('-1'), tonumber(12), tonumber(nil))"), "nil nil nil nil nil");
    assert_eq!(one("print(tonumber('18446744073709551615'), tonumber('18446744073709551616'))"), "18446744073709552000 nil");
    assert_eq!(one("print(tonumber('9007199254740993'))"), "9007199254740992");
}

#[test]
fn raised_errors() {
    assert_eq!(
        go("fn f() { error('it broke') }\nf()").unwrap_err(),
        "n:1: it broke\nstack trace:\n\t[rust] in function error\n\t[n] in function f\n\t[n] in function main\n"
    );
    assert_eq!(message("error(1)"), "expected string got number");
    assert_eq!(message("error(nil)"), "expected string got nil");
}

#[test]
fn checked_arguments() {
    assert_eq!(one("fn f(a, b) { argcheck('number', 'string'); return a } print(f(1, 'x'))"), "1");
    assert_eq!(one("fn f(a, b) { argcheck('number'); return b } print(f(1, 2))"), "2");
    assert_eq!(one("fn f(a) { argcheck(); return a } print(f(1))"), "1");
    assert_eq!(one("fn f(a, b) { argcheck('nil', 'nil', 'nil'); return 0 } print(f())"), "0");
    assert_eq!(
        message("fn f(a, b) { argcheck('number', 'string') } f(1, 2)"),
        "bad argument #2: expected string got number"
    );
    assert_eq!(message("fn f(a) { argcheck('table') } f([])"), "bad argument #1: expected table got array");
    assert_eq!(message("fn f(a) { argcheck(1) } f(1)"), "expected string got number");
}

#[test]
fn text_functions() {
    assert_eq!(one("print(upper('abc d\u{e9}'), lower('ABC D\u{c9}'))"), "\"ABC D\u{c9}\" \"abc d\u{e9}\"");
    assert_eq!(one("print(trim('  a b \\t\\n'), trim(''), trim('x'))"), "\"a b\" \"\" \"x\"");
    assert_eq!(one("print(split('a b  c'), split('a,b', ','), split('abc', 'x'), split('', ','))"), "[\"a\", \"b\", \"\", \"c\"] [\"a\", \"b\"] [\"abc\"] [\"\"]");
    assert_eq!(one("print(split('a--b--c', '--'), split('a b', 1))"), "[\"a\", \"b\", \"c\"] [\"a\", \"b\"]");
    assert_eq!(one("print(byte('A'), byte('AB', 1), byte('A', 5), byte(''), byte('\u{e9}'), byte('\u{e9}', 1))"), "65 66 0 0 195 169");
    assert_eq!(one("print(sub('hello', 1, 3), sub('hello', 2), sub('hello', 0, 99), sub('hello', 4, 2), sub('hello', 9))"), "\"el\" \"llo\" \"hello\" \"\" \"\"");
    assert_eq!(one("print(sub('a\u{e9}b', 1, 3), sub('a\u{e9}b', 3))"), "\"\u{e9}\" \"b\"");
    assert_eq!(message("sub('a\u{e9}b', 2)"), "byte index is not a character boundary");
    assert_eq!(message("sub('a\u{e9}b', 0, 2)"), "byte index is not a character boundary");
    assert_eq!(message("sub('abc')"), "expected value");
    assert_eq!(message("upper(1)"), "expected string got number");
    assert_eq!(message("lower([])"), "expected string got array");
    assert_eq!(message("trim(nil)"), "expected string got nil");
    assert_eq!(message("split(1)"), "expected string got number");
    assert_eq!(message("byte(1)"), "expected string got number");
}

#[test]
fn arguments_are_taken_in_order() {
    let mut vm = VM::new(moon::common::Closure::new("x".to_string()), vec![]);
    vm.regs = vec![Value::String("a".to_string()), Value::Number(5), Value::Nil, Value::Bool(true)];
    vm.nci.base = 0;
    vm.nci.top = 4;
    assert_eq!(expect_string(&mut vm), Ok("a".to_string()));
    assert_eq!(expect_number(&mut vm), Ok(5));
    assert_eq!(optional_number(&mut vm, 9), Ok(9));
    assert_eq!(optional_string(&mut vm, "d".to_string()), Ok("d".to_string()));
    assert_eq!(vm.nci.base, 4);
    assert_eq!(optional_string(&mut vm, "e".to_string()), Ok("e".to_string()));
    assert_eq!(optional_number(&mut vm, 1), Ok(1));
    assert_eq!(vm.nci.base, 4);
    assert_eq!(expect_number(&mut vm), Err(RuntimeError::CustomError("expected value".to_string())));
    assert_eq!(expect_string(&mut vm), Err(RuntimeError::CustomError("expected value".to_string())));
    assert_eq!(vm.nci.base, 4);
    vm.nci.base = 1;
    assert_eq!(expect_string(&mut vm), Err(RuntimeError::CustomError("expected string got number".to_string())));
    assert_eq!(vm.nci.base, 2);
    assert_eq!(expect_number(&mut vm), Err(RuntimeError::CustomError("expected number got nil".to_string())));
    assert_eq!(expected("table", Type::Bool), RuntimeError::CustomError("expected table got bool".to_string()));
}
