use vstd::prelude::*;
use vstd::string::*;
use crate::common::number::{equal, num_eq};
use crate::common::text::{chars_of, same_chars};

verus! {

/// A native function as the machine knows it: its name. The function itself
/// belongs to the program that drives the machine, which finds it by the
/// handle under which the name was registered.
#[derive(Debug, Clone, PartialEq)]
pub struct RustFunc {
    pub name: String,
}

/// A value of the language.
///
/// A closure, a native function, an array and a table are references: the
/// value holds a handle, the machine holds what the handle stands for.
/// Copying such a value copies the handle, and two of them are the same
/// object exactly if their handles are equal.
///
/// The derived `==` compares representations: numbers by their bits. The
/// language's own equality is [`Value::equals`].
#[derive(Debug, Clone, PartialEq)]
pub enum Value {
    String(String),
    /// An IEEE-754 double, as its bits.
    Number(u64),
    Bool(bool),
    Closure(usize),
    NativeFunc(usize),
    Array(usize),
    Table(usize),
    Nil,
}

/// What a [`Value`] is, with text as a sequence of characters.
pub ghost enum Val {
    String(Seq<char>),
    Number(u64),
    Bool(bool),
    Closure(usize),
    NativeFunc(usize),
    Array(usize),
    Table(usize),
    Nil,
}

impl View for Value {
    type V = Val;

    open spec fn view(&self) -> Val {
        match *self {
            Value::String(s) => Val::String(s@),
            Value::Number(n) => Val::Number(n),
            Value::Bool(b) => Val::Bool(b),
            Value::Closure(h) => Val::Closure(h),
            Value::NativeFunc(h) => Val::NativeFunc(h),
            Value::Array(h) => Val::Array(h),
            Value::Table(h) => Val::Table(h),
            Value::Nil => Val::Nil,
        }
    }
}

/// The views of a sequence of values.
pub open spec fn vals(s: Seq<Value>) -> Seq<Val> {
    Seq::new(s.len(), |i: int| s[i]@)
}

/// The kinds of value that the language tells apart.
#[derive(Debug, Clone, Copy, PartialEq, Eq, Structural)]
pub enum Type {
    String,
    Number,
    Bool,
    Function,
    Array,
    Table,
    Nil,
}

/// The kind of a value. Closures and native functions are both functions.
pub open spec fn type_of(v: Val) -> Type {
    match v {
        Val::String(_) => Type::String,
        Val::Number(_) => Type::Number,
        Val::Bool(_) => Type::Bool,
        Val::Closure(_) => Type::Function,
        Val::NativeFunc(_) => Type::Function,
        Val::Array(_) => Type::Array,
        Val::Table(_) => Type::Table,
        Val::Nil => Type::Nil,
    }
}

/// Truthiness: `false` and `nil` are falsey, every other value is truthy.
pub open spec fn truthy(v: Val) -> bool {
    match v {
        Val::Bool(b) => b,
        Val::Nil => false,
        _ => true,
    }
}

/// Logical negation, as the `Not` instruction computes it.
pub open spec fn negation(v: Val) -> Val {
    Val::Bool(!truthy(v))
}

/// The language's equality. Text is equal by its characters, booleans by
/// value, numbers as doubles (a NaN equals nothing, the two zeros are
/// equal), references by identity, `nil` equals `nil`. Values of different
/// kinds are never equal.
pub open spec fn val_eq(a: Val, b: Val) -> bool {
    match (a, b) {
        (Val::String(x), Val::String(y)) => x == y,
        (Val::Number(x), Val::Number(y)) => num_eq(x, y),
        (Val::Bool(x), Val::Bool(y)) => x == y,
        (Val::Closure(x), Val::Closure(y)) => x == y,
        (Val::NativeFunc(x), Val::NativeFunc(y)) => x == y,
        (Val::Array(x), Val::Array(y)) => x == y,
        (Val::Table(x), Val::Table(y)) => x == y,
        (Val::Nil, Val::Nil) => true,
        _ => false,
    }
}

impl Type {
    /// The name of a kind in messages.
    pub open spec fn name(self) -> Seq<char> {
        match self {
            Type::String => "string"@,
            Type::Number => "number"@,
            Type::Bool => "bool"@,
            Type::Function => "function"@,
            Type::Array => "array"@,
            Type::Table => "table"@,
            Type::Nil => "nil"@,
        }
    }

    /// Gives the name of a kind as a string slice.
    pub fn as_str(&self) -> (s: &'static str)
        ensures
            s@ == self.name(),
    {
        match self {
            Type::String => "string",
            Type::Number => "number",
            Type::Bool => "bool",
            Type::Function => "function",
            Type::Array => "array",
            Type::Table => "table",
            Type::Nil => "nil",
        }
    }

    /// Gives the name of a kind.
    pub fn to_string(&self) -> (s: String)
        ensures
            s@ == self.name(),
    {
        String::from_str(self.as_str())
    }

    /// Gives the kind of a value.
    pub fn of(val: &Value) -> (t: Type)
        ensures
            t == type_of(val@),
    {
        match val {
            Value::NativeFunc(..) | Value::Closure(..) => Type::Function,
            Value::String(..) => Type::String,
            Value::Number(..) => Type::Number,
            Value::Bool(..) => Type::Bool,
            Value::Array(..) => Type::Array,
            Value::Table(..) => Type::Table,
            Value::Nil => Type::Nil,
        }
    }
}

impl Value {
    /// Copies a value: text is copied, of a reference the handle.
    pub fn copy(&self) -> (r: Value)
        ensures
            r@ == self@,
    {
        match self {
            Value::String(s) => Value::String(s.clone()),
            Value::Number(n) => Value::Number(*n),
            Value::Bool(b) => Value::Bool(*b),
            Value::Closure(h) => Value::Closure(*h),
            Value::NativeFunc(h) => Value::NativeFunc(*h),
            Value::Array(h) => Value::Array(*h),
            Value::Table(h) => Value::Table(*h),
            Value::Nil => Value::Nil,
        }
    }

    /// Tells whether a value counts as true.
    pub fn truthy(&self) -> (r: bool)
        ensures
            r == truthy(self@),
    {
        match self {
            Value::Bool(b) => *b,
            Value::Nil => false,
            _ => true,
        }
    }

    /// The language's `==`.
    pub fn equals(&self, other: &Value) -> (r: bool)
        ensures
            r == val_eq(self@, other@),
    {
        match (self, other) {
            (Value::String(x), Value::String(y)) => {
                let xs: Vec<char> = chars_of(x.as_str());
                let ys: Vec<char> = chars_of(y.as_str());
                same_chars(&xs, &ys)
            },
            (Value::Number(x), Value::Number(y)) => equal(*x, *y),
            (Value::Bool(x), Value::Bool(y)) => *x == *y,
            (Value::Closure(x), Value::Closure(y)) => *x == *y,
            (Value::NativeFunc(x), Value::NativeFunc(y)) => *x == *y,
            (Value::Array(x), Value::Array(y)) => *x == *y,
            (Value::Table(x), Value::Table(y)) => *x == *y,
            (Value::Nil, Value::Nil) => true,
            _ => false,
        }
    }
}

/// Copies a vector of values.
pub fn copy_values(v: &Vec<Value>) -> (r: Vec<Value>)
    ensures
        vals(r@) == vals(v@),
        r.len() == v.len(),
{
    let mut r: Vec<Value> = Vec::new();
    let mut i: usize = 0;
    while i < v.len()
        invariant
            i <= v.len(),
            r.len() == i,
            forall|j: int| 0 <= j < i ==> r@[j]@ == v@[j]@,
        decreases v.len() - i,
    {
        r.push(v[i].copy());
        i += 1;
    }
    assert(vals(r@) =~= vals(v@));
    r
}

/// Negating twice gives the truth value: `not not x` is `bool(x)`, where
/// `bool(nil)` and `bool(false)` are false and every other value is true.
pub proof fn lemma_not_not(x: Val)
    ensures
        negation(negation(x)) == Val::Bool(truthy(x)),
        truthy(Val::Nil) == false,
        truthy(Val::Bool(false)) == false,
        x != Val::Nil && x != Val::Bool(false) ==> truthy(x),
{
}

/// Two references of one kind are equal exactly if they are the same
/// object, and every value that is not a NaN equals itself.
pub proof fn lemma_identity(a: usize, b: usize)
    ensures
        val_eq(Val::Array(a), Val::Array(b)) <==> a == b,
        val_eq(Val::Table(a), Val::Table(b)) <==> a == b,
        val_eq(Val::Closure(a), Val::Closure(b)) <==> a == b,
        val_eq(Val::NativeFunc(a), Val::NativeFunc(b)) <==> a == b,
{
}

} // verus!
