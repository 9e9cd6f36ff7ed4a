use moon::common::array::position;
use moon::common::number::{equal, is_integral, is_nan, less, less_eq, negate, truncate};
use moon::common::text::{chars_of, digit_char, push_decimal, push_str, text_less};
use moon::common::{Array, Closure, Table, Type, Value};
use moon::vm::RuntimeError;

fn num(x: f64) -> Value {
    Value::Number(x.to_bits())
}

fn text(s: &str) -> Value {
    Value::String(s.to_string())
}

const SAMPLES: [f64; 19] = [
    0.0,
    -0.0,
    1.0,
    -1.0,
    1.5,
    -1.5,
    2.0,
    0.1,
    -0.1,
    1e300,
    -1e300,
    f64::MIN_POSITIVE,
    5e-324,
    4503599627370496.0,
    9007199254740993.0,
    18446744073709551616.0,
    f64::INFINITY,
    f64::NEG_INFINITY,
    f64::NAN,
];

#[test]
fn doubles_are_ordered_as_the_machine_orders_them() {
    for &a in SAMPLES.iter() {
        for &b in SAMPLES.iter() {
            assert_eq!(less(a.to_bits(), b.to_bits()), a < b, "{} < {}", a, b);
            assert_eq!(less_eq(a.to_bits(), b.to_bits()), a <= b, "{} <= {}", a, b);
            assert_eq!(equal(a.to_bits(), b.to_bits()), a == b, "{} == {}", a, b);
        }
    }
}

#[test]
fn doubles_are_negated_and_classified() {
    for &a in SAMPLES.iter() {
        assert_eq!(negate(a.to_bits()), (-a).to_bits());
        assert_eq!(is_nan(a.to_bits()), a.is_nan());
        assert_eq!(is_integral(a.to_bits()), a.floor() == a, "{}", a);
        if !a.is_nan() {
            assert_eq!(truncate(a.to_bits()), a.abs() as u64, "{}", a);
        }
    }
    assert!(is_nan(0x7FF0_0000_0000_0001));
    assert!(is_nan(0xFFF8_0000_0000_0000));
    assert!(!is_nan(0x7FF0_0000_0000_0000));
}

#[test]
fn array_positions() {
    assert_eq!(position(&num(0.0)), Ok(0));
    assert_eq!(position(&num(3.0)), Ok(3));
    assert_eq!(position(&num(4294967296.0)), Ok(4294967296.0f64 as usize));
    assert_eq!(position(&num(f64::INFINITY)), Ok(usize::MAX));
    assert_eq!(position(&num(1e300)), Ok(usize::MAX));
    assert_eq!(position(&num(1.5)), Err(RuntimeError::ArrayIdxFloat));
    assert_eq!(position(&num(-1.5)), Err(RuntimeError::ArrayIdxFloat));
    assert_eq!(position(&num(f64::NAN)), Err(RuntimeError::ArrayIdxFloat));
    assert_eq!(position(&num(-1.0)), Err(RuntimeError::ArrayIdxNeg));
    assert_eq!(position(&num(-0.0)), Err(RuntimeError::ArrayIdxNeg));
    assert_eq!(position(&num(f64::NEG_INFINITY)), Err(RuntimeError::ArrayIdxNeg));
    assert_eq!(
        position(&text("1")),
        Err(RuntimeError::TypeError("index an array with".to_string(), Type::String, None))
    );
    assert_eq!(
        position(&Value::Nil),
        Err(RuntimeError::TypeError("index an array with".to_string(), Type::Nil, None))
    );
}

#[test]
fn array_grows_at_its_end_only() {
    let mut a = Array::new(vec![]);
    assert_eq!(a.len(), 0);
    assert_eq!(a.insert(&num(0.0), text("x")), Ok(()));
    assert_eq!(a.insert(&num(1.0), text("y")), Ok(()));
    assert_eq!(a.insert(&num(0.0), text("z")), Ok(()));
    assert_eq!(a.len(), 2);
    assert_eq!(a.get(&num(0.0)), Ok(text("z")));
    assert_eq!(a.get(&num(1.0)), Ok(text("y")));
    assert_eq!(a.get(&num(2.0)), Ok(Value::Nil));
    assert_eq!(a.get(&num(1e18)), Ok(Value::Nil));
    assert_eq!(a.insert(&num(3.0), text("w")), Err(RuntimeError::ArrayIdxBound));
    assert_eq!(a.insert(&num(0.5), text("w")), Err(RuntimeError::ArrayIdxFloat));
    assert_eq!(a.insert(&num(-2.0), text("w")), Err(RuntimeError::ArrayIdxNeg));
    assert_eq!(a.get(&num(0.5)), Err(RuntimeError::ArrayIdxFloat));
    assert_eq!(a.validate_index(&num(7.0)), Ok(7));
    assert_eq!(a.len(), 2);
    assert_eq!(a.vec, vec![text("z"), text("y")]);
}

#[test]
fn table_keys() {
    let mut t = Table::new();
    assert_eq!(t.len(), 0);
    assert_eq!(t.insert(text("a"), num(1.0)), Ok(()));
    assert_eq!(t.insert(num(0.0), num(2.0)), Ok(()));
    assert_eq!(t.insert(num(-0.0), num(3.0)), Ok(()));
    assert_eq!(t.insert(Value::Bool(true), num(4.0)), Ok(()));
    assert_eq!(t.insert(Value::Array(1), num(5.0)), Ok(()));
    assert_eq!(t.insert(Value::Table(1), num(6.0)), Ok(()));
    assert_eq!(t.len(), 6);
    assert_eq!(t.insert(text("a"), num(7.0)), Ok(()));
    assert_eq!(t.len(), 6);
    assert_eq!(t.get(&text("a")), Ok(num(7.0)));
    assert_eq!(t.get(&num(0.0)), Ok(num(2.0)));
    assert_eq!(t.get(&num(-0.0)), Ok(num(3.0)));
    assert_eq!(t.get(&Value::Array(1)), Ok(num(5.0)));
    assert_eq!(t.get(&Value::Array(2)), Ok(Value::Nil));
    assert_eq!(t.get(&text("b")), Ok(Value::Nil));
    assert_eq!(t.insert(Value::Nil, num(1.0)), Err(RuntimeError::TableIdxNil));
    assert_eq!(t.insert(num(f64::NAN), num(1.0)), Err(RuntimeError::TableIdxNaN));
    assert_eq!(t.get(&Value::Nil), Err(RuntimeError::TableIdxNil));
    assert_eq!(t.get(&num(f64::NAN)), Err(RuntimeError::TableIdxNaN));
    assert_eq!(t.validate_index(&Value::Nil), Err(RuntimeError::TableIdxNil));
    assert_eq!(t.validate_index(&num(1.0)), Ok(()));
    assert_eq!(t.len(), 6);
    assert_eq!(t.position(&Value::Bool(true)), 3);
    assert_eq!(t.position(&Value::Bool(false)), 6);
}

#[test]
fn truthiness() {
    assert!(!Value::Nil.truthy());
    assert!(!Value::Bool(false).truthy());
    assert!(Value::Bool(true).truthy());
    assert!(num(0.0).truthy());
    assert!(num(f64::NAN).truthy());
    assert!(text("").truthy());
    assert!(Value::Array(0).truthy());
    assert!(Value::Table(0).truthy());
    assert!(Value::Closure(0).truthy());
    assert!(Value::NativeFunc(0).truthy());
    for v in [Value::Nil, Value::Bool(false), Value::Bool(true), num(0.0), text("")] {
        let not = Value::Bool(!v.truthy());
        let not_not = Value::Bool(!not.truthy());
        assert_eq!(not_not, Value::Bool(v.truthy()));
    }
}

#[test]
fn equality_of_values() {
    assert!(text("a").equals(&text("a")));
    assert!(!text("a").equals(&text("b")));
    assert!(!text("1").equals(&num(1.0)));
    assert!(num(0.0).equals(&num(-0.0)));
    assert!(!num(f64::NAN).equals(&num(f64::NAN)));
    assert!(Value::Nil.equals(&Value::Nil));
    assert!(!Value::Nil.equals(&Value::Bool(false)));
    assert!(Value::Array(3).equals(&Value::Array(3)));
    assert!(!Value::Array(3).equals(&Value::Array(4)));
    assert!(!Value::Array(3).equals(&Value::Table(3)));
    assert!(Value::Closure(1).equals(&Value::Closure(1)));
    assert!(!Value::Closure(1).equals(&Value::NativeFunc(1)));
    assert_eq!(text("copy").copy(), text("copy"));
}

#[test]
fn kinds_of_values() {
    assert_eq!(Type::of(&text("")).to_string(), "string");
    assert_eq!(Type::of(&num(1.0)).to_string(), "number");
    assert_eq!(Type::of(&Value::Bool(true)).to_string(), "bool");
    assert_eq!(Type::of(&Value::Closure(0)).to_string(), "function");
    assert_eq!(Type::of(&Value::NativeFunc(0)).to_string(), "function");
    assert_eq!(Type::of(&Value::Array(0)).to_string(), "array");
    assert_eq!(Type::of(&Value::Table(0)).to_string(), "table");
    assert_eq!(Type::of(&Value::Nil).to_string(), "nil");
}

#[test]
fn text_helpers() {
    let mut out = Vec::new();
    push_decimal(&mut out, 0);
    push_str(&mut out, " ");
    push_decimal(&mut out, 7);
    push_str(&mut out, " ");
    push_decimal(&mut out, 1234567890);
    push_str(&mut out, " ");
    push_decimal(&mut out, u64::MAX);
    let s: String = out.iter().collect();
    assert_eq!(s, "0 7 1234567890 18446744073709551615");
    assert_eq!(digit_char(9), '9');

    let words = ["", "a", "ab", "abc", "b", "B", "é", "z"];
    for a in words.iter() {
        for b in words.iter() {
            let x: Vec<char> = a.chars().collect();
            let y: Vec<char> = b.chars().collect();
            assert_eq!(text_less(&x, &y), a < b, "{:?} < {:?}", a, b);
        }
    }
}

#[test]
fn errors_have_their_messages() {
    let cases = [
        (
            RuntimeError::TypeError("perform an arithmetic on".into(), Type::Number, Some(Type::Nil)),
            "attempt to perform an arithmetic on a number and nil value",
        ),
        (RuntimeError::TypeError("call".into(), Type::Nil, None), "attempt to call a nil value"),
        (RuntimeError::TypeError("index".into(), Type::Bool, None), "attempt to index a bool value"),
        (RuntimeError::CustomError("as it is".into()), "as it is"),
        (RuntimeError::StackOverflow, "stack overflow"),
        (RuntimeError::ArrayIdxBound, "array index out of bounds"),
        (RuntimeError::ArrayIdxFloat, "array index must be an integer"),
        (RuntimeError::ArrayIdxNeg, "array index must be positive"),
        (RuntimeError::TableIdxNil, "table index is nil"),
        (RuntimeError::TableIdxNaN, "table index is NaN"),
    ];
    for (e, text) in cases.iter() {
        assert_eq!(e.stringify(), *text);
        assert_eq!(e.copy(), *e);
    }
}

#[test]
fn new_closure_is_empty() {
    let c = Closure::new("file".to_string());
    assert_eq!(c.file_name, "file");
    assert_eq!(c.name, "<anonymous>");
    assert!(c.code.is_empty() && c.lines.is_empty() && c.consts.is_empty() && c.upvals.is_empty());
    assert_eq!(c.nparams, 0);
    assert_eq!(c.copy(), c);
}

#[test]
fn characters_of_a_text() {
    assert_eq!(chars_of(""), Vec::<char>::new());
    assert_eq!(chars_of("a\u{e9}\u{1F600}b"), vec!['a', '\u{e9}', '\u{1F600}', 'b']);
}
