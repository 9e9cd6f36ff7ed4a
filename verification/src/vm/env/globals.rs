//! The native functions of the standard library that compute on values.
//! Each reads its arguments from the window that the machine has set for
//! the call, and returns its result or raises an error.

use vstd::prelude::*;
use vstd::string::*;
use crate::common::number::{from_whole, is_nan, nan, negative, of_whole, truncate, whole_part, SIGN};
use crate::common::text::{decimal, parse_radix, push_decimal, push_str, radix_value, string_of};
use crate::common::value::{type_of, Type, Val, Value};
use crate::vm::env::aux::{expect_string, get, native_gave, optional_number};
use crate::vm::error::{Fault, RuntimeError};
use crate::vm::machine::VM;
use crate::vm::state::{reg_at, State};

verus! {

/// The whole number that a double is read as where a position or a count is
/// wanted: the whole part of a double that is a number and not negative,
/// at most `max`, and 0 for any other double.
pub open spec fn count_of(bits: u64, max: u64) -> u64 {
    if nan(bits) || negative(bits) {
        0
    } else if whole_part(bits) > max {
        max
    } else {
        whole_part(bits)
    }
}

/// Reads a double as a count of at most `max`.
pub fn to_count(bits: u64, max: u64) -> (n: u64)
    ensures
        n == count_of(bits, max),
{
    if is_nan(bits) || bits & SIGN != 0 {
        0
    } else {
        let w: u64 = truncate(bits);
        if w > max {
            max
        } else {
            w
        }
    }
}

/// What is attempted where the length of a value that has none is asked.
pub open spec fn len_action() -> Seq<char> {
    "get the length of"@
}

/// The message of `next` for a value that it cannot walk.
pub open spec fn bad_argument() -> Seq<char> {
    "bad argument #1"@
}

/// The message of `argcheck` for an argument of the wrong kind.
pub open spec fn bad_kind(n: nat, expected: Seq<char>, got: Seq<char>) -> Seq<char> {
    "bad argument #"@ + decimal(n) + ": expected "@ + expected + " got "@ + got
}

impl State {
    /// `type(v)`: the name of the kind of a value.
    pub open spec fn native_type(self) -> Result<(State, Val), Fault> {
        match self.take() {
            Err(f) => Err(f),
            Ok((s, v)) => Ok((s, Val::String(type_of(v).name()))),
        }
    }

    /// `error(text)`: raises an error with the given message.
    pub open spec fn native_error(self) -> Result<(State, Val), Fault> {
        match self.take_string() {
            Err(f) => Err(f),
            Ok((s, t)) => Err(Fault::CustomError(t)),
        }
    }

    /// `len(v)`: the number of items of an array, of entries of a table,
    /// and of bytes of a text; nothing else has a length.
    pub open spec fn native_len(self) -> Result<(State, Val), Fault> {
        match self.take() {
            Err(f) => Err(f),
            Ok((s, v)) => match v {
                Val::Array(h) if h < self.arrays.len() => Ok(
                    (s, Val::Number(of_whole(self.arrays[h as int].len() as u64))),
                ),
                Val::Table(h) if h < self.tables.len() => Ok(
                    (s, Val::Number(of_whole(self.tables[h as int].len() as u64))),
                ),
                Val::String(t) => Ok((s, Val::Number(of_whole(vstd::utf8::encode_utf8(t).len() as u64)))),
                _ => Err(Fault::TypeError(len_action(), type_of(v), None)),
            },
        }
    }

    /// `next(v, i)`: the item of an array at position `i`, and the value of
    /// the entry of a table at place `i` in the order in which the entries
    /// came; `nil` where there is none. Without `i` the position is 0.
    pub open spec fn native_next(self) -> Result<(State, Val), Fault> {
        match self.take() {
            Err(f) => Err(f),
            Ok((s1, v)) => match s1.take_number_or(0) {
                Err(f) => Err(f),
                Ok((s2, bits)) => {
                    let i = count_of(bits, usize::MAX as u64) as int;
                    match v {
                        Val::Array(h) if h < self.arrays.len() => Ok(
                            (
                                s2,
                                if i < self.arrays[h as int].len() {
                                    self.arrays[h as int][i]
                                } else {
                                    Val::Nil
                                },
                            ),
                        ),
                        Val::Table(h) if h < self.tables.len() => Ok(
                            (
                                s2,
                                if i < self.tables[h as int].len() {
                                    self.tables[h as int][i].1
                                } else {
                                    Val::Nil
                                },
                            ),
                        ),
                        _ => Err(Fault::CustomError(bad_argument())),
                    }
                },
            },
        }
    }

    /// `tonumber(text, base)`: the whole number that a text writes in a
    /// base, as a double, and `nil` where the text writes none or the value
    /// is no text. The base is at least 2 and at most 32, and 10 where none
    /// is given.
    pub open spec fn native_tonumber(self) -> Result<(State, Val), Fault> {
        match self.take() {
            Err(f) => Err(f),
            Ok((s1, v)) => match s1.take_number_or(TEN) {
                Err(f) => Err(f),
                Ok((s2, bits)) => {
                    let base = if count_of(bits, 32) < 2 {
                        2u32
                    } else {
                        count_of(bits, 32) as u32
                    };
                    match v {
                        Val::String(t) => match radix_value(t, base) {
                            Some(n) => Ok((s2, Val::Number(of_whole(n)))),
                            None => Ok((s2, Val::Nil)),
                        },
                        _ => Ok((s2, Val::Nil)),
                    }
                },
            },
        }
    }

    /// The arguments of `argcheck` from the `k`-th on are checked: each is
    /// to be the name of the kind of the `k`-th register of the running
    /// frame, of which the first `count` registers are looked at.
    pub open spec fn argcheck_from(self, k: nat, count: nat) -> Result<(State, Val), Fault>
        decreases self.nci.top - self.nci.base,
    {
        if self.nci.base >= self.nci.top {
            Ok((self, Val::Nil))
        } else {
            match self.next_arg() {
                Val::String(expected) => {
                    let arg = if k < count && self.frames.len() > 0 {
                        reg_at(self.regs, self.frames.last().base + k)
                    } else {
                        Val::Nil
                    };
                    if type_of(arg).name() == expected {
                        self.taken().argcheck_from(k + 1, count)
                    } else {
                        Err(Fault::CustomError(bad_kind(k + 1, expected, type_of(arg).name())))
                    }
                },
                v => Err(Fault::CustomError(crate::vm::env::aux::expected_text("string"@, type_of(v)))),
            }
        }
    }

    /// The number of registers that `argcheck` looks at: the number of
    /// parameters of the running function, and 256 where it has none.
    pub open spec fn checked_count(self) -> nat {
        if self.frames.len() > 0 && self.frames.last().closure < self.closures.len() {
            let p = self.closures[self.frames.last().closure as int].nparams;
            if p == 0 {
                256
            } else {
                p as nat
            }
        } else {
            0
        }
    }

    /// `argcheck(kind, ...)`: checks the arguments of the running function
    /// against the names of kinds given, in order.
    pub open spec fn native_argcheck(self) -> Result<(State, Val), Fault> {
        self.argcheck_from(0, self.checked_count())
    }
}

/// The double 10.
pub const TEN: u64 = 0x4024_0000_0000_0000;

/// `type(v)`.
pub fn gettype(vm: &mut VM) -> (r: Result<Value, RuntimeError>)
    ensures
        native_gave(r, *final(vm), old(vm)@.native_type()),
{
    match get(vm) {
        Err(e) => Err(e),
        Ok(v) => Ok(Value::String(Type::of(&v).to_string())),
    }
}

/// `error(text)`.
pub fn error(vm: &mut VM) -> (r: Result<Value, RuntimeError>)
    ensures
        native_gave(r, *final(vm), old(vm)@.native_error()),
{
    match expect_string(vm) {
        Err(e) => Err(e),
        Ok(s) => Err(RuntimeError::CustomError(s)),
    }
}

/// `len(v)`.
pub fn len(vm: &mut VM) -> (r: Result<Value, RuntimeError>)
    ensures
        native_gave(r, *final(vm), old(vm)@.native_len()),
{
    let val: Value = match get(vm) {
        Ok(v) => v,
        Err(e) => {
            return Err(e);
        },
    };
    proof {
        assert(vm@.arrays.len() == vm.arrays.len());
        assert(vm@.tables.len() == vm.tables.len());
        assert(forall|h: int| 0 <= h < vm.arrays.len() ==> vm@.arrays[h] == vm.arrays@[h]@);
        assert(forall|h: int| 0 <= h < vm.tables.len() ==> vm@.tables[h] == vm.tables@[h]@);
    }
    let kind: Type = Type::of(&val);
    match val {
        Value::Array(h) => {
            if h < vm.arrays.len() {
                assert(old(vm)@.arrays[h as int].len() == vm.arrays@[h as int]@.len());
                Ok(Value::Number(from_whole(vm.arrays[h].len() as u64)))
            } else {
                Err(RuntimeError::of_type("get the length of", kind))
            }
        },
        Value::Table(h) => {
            if h < vm.tables.len() {
                assert(old(vm)@.tables[h as int].len() == vm.tables@[h as int]@.len());
                Ok(Value::Number(from_whole(vm.tables[h].len() as u64)))
            } else {
                Err(RuntimeError::of_type("get the length of", kind))
            }
        },
        Value::String(s) => {
            let t: &str = s.as_str();
            let n: usize = t.as_bytes().len();
            assert(t.spec_bytes() == vstd::utf8::encode_utf8(t@));
            Ok(Value::Number(from_whole(n as u64)))
        },
        _ => Err(RuntimeError::of_type("get the length of", kind)),
    }
}

/// `next(v, i)`.
pub fn next(vm: &mut VM) -> (r: Result<Value, RuntimeError>)
    ensures
        native_gave(r, *final(vm), old(vm)@.native_next()),
{
    let val: Value = match get(vm) {
        Ok(v) => v,
        Err(e) => {
            return Err(e);
        },
    };
    let bits: u64 = match optional_number(vm, 0) {
        Ok(n) => n,
        Err(e) => {
            return Err(e);
        },
    };
    let i: usize = to_count(bits, usize::MAX as u64) as usize;
    proof {
        assert(vm@.arrays.len() == vm.arrays.len());
        assert(vm@.tables.len() == vm.tables.len());
        assert(forall|h: int| 0 <= h < vm.arrays.len() ==> vm@.arrays[h] == vm.arrays@[h]@);
        assert(forall|h: int| 0 <= h < vm.tables.len() ==> vm@.tables[h] == vm.tables@[h]@);
    }
    match val {
        Value::Array(h) => {
            if h < vm.arrays.len() {
                if i < vm.arrays[h].vec.len() {
                    Ok(vm.arrays[h].vec[i].copy())
                } else {
                    Ok(Value::Nil)
                }
            } else {
                Err(RuntimeError::CustomError(String::from_str("bad argument #1")))
            }
        },
        Value::Table(h) => {
            if h < vm.tables.len() {
                if i < vm.tables[h].tbl.len() {
                    Ok(vm.tables[h].tbl[i].1.copy())
                } else {
                    Ok(Value::Nil)
                }
            } else {
                Err(RuntimeError::CustomError(String::from_str("bad argument #1")))
            }
        },
        _ => Err(RuntimeError::CustomError(String::from_str("bad argument #1"))),
    }
}

/// `tonumber(text, base)`.
pub fn tonumber(vm: &mut VM) -> (r: Result<Value, RuntimeError>)
    ensures
        native_gave(r, *final(vm), old(vm)@.native_tonumber()),
{
    let val: Value = match get(vm) {
        Ok(v) => v,
        Err(e) => {
            return Err(e);
        },
    };
    let bits: u64 = match optional_number(vm, TEN) {
        Ok(n) => n,
        Err(e) => {
            return Err(e);
        },
    };
    let given: u64 = to_count(bits, 32);
    let base: u32 = if given < 2 {
        2
    } else {
        given as u32
    };
    match val {
        Value::String(s) => Ok(number_or_nil(parse_radix(s.as_str(), base))),
        _ => Ok(Value::Nil),
    }
}

/// Makes a value of a whole number that was read from text: the double
/// nearest to the number, and `nil` where none was read.
pub fn number_or_nil(read: Option<u64>) -> (v: Value)
    ensures
        v@ == (match read {
            Some(n) => Val::Number(of_whole(n)),
            None => Val::Nil,
        }),
{
    match read {
        Some(n) => Value::Number(from_whole(n)),
        None => Value::Nil,
    }
}

/// Writes the message of `argcheck` for an argument of the wrong kind.
fn bad_kind_error(n: usize, expected: &str, got: Type) -> (e: RuntimeError)
    ensures
        e@ == Fault::CustomError(bad_kind(n as nat, expected@, got.name())),
{
    let mut out: Vec<char> = Vec::new();
    push_str(&mut out, "bad argument #");
    push_decimal(&mut out, n as u64);
    push_str(&mut out, ": expected ");
    push_str(&mut out, expected);
    push_str(&mut out, " got ");
    push_str(&mut out, got.as_str());
    assert(out@ =~= bad_kind(n as nat, expected@, got.name()));
    RuntimeError::CustomError(string_of(&out))
}

/// `argcheck(kind, ...)`.
pub fn argcheck(vm: &mut VM) -> (r: Result<Value, RuntimeError>)
    ensures
        native_gave(r, *final(vm), old(vm)@.native_argcheck()),
{
    let depth: usize = vm.call_stack.len();
    let mut count: usize = 0;
    let mut base: usize = 0;
    if depth > 0 {
        base = vm.call_stack[depth - 1].base;
        let h: usize = vm.call_stack[depth - 1].closure;
        if h < vm.closures.len() {
            let p: u8 = vm.closures[h].nparams;
            count = if p == 0 {
                256
            } else {
                p as usize
            };
        }
    }
    let mut k: usize = 0;
    while vm.nci.base < vm.nci.top
        invariant
            count == old(vm)@.checked_count(),
            count <= 256,
            depth == vm@.frames.len(),
            depth > 0 ==> base == vm@.frames.last().base,
            k <= vm.nci.base,
            old(vm)@.native_argcheck() == vm@.argcheck_from(k as nat, count as nat),
        decreases vm.nci.top - vm.nci.base,
    {
        let ghost before = vm@;
        assert(vm@.regs.len() == vm.regs.len());
        let arg: Value = if k < count && depth > 0 {
            if base <= usize::MAX - k {
                vm.read(base + k)
            } else {
                Value::Nil
            }
        } else {
            Value::Nil
        };
        assert(arg@ == (if k < count && before.frames.len() > 0 {
            reg_at(before.regs, before.frames.last().base + k)
        } else {
            Val::Nil
        }));
        match get(vm) {
            Err(e) => {
                return Err(e);
            },
            Ok(Value::String(expected)) => {
                let kind: Type = Type::of(&arg);
                let same: bool = kind.to_string() == expected;
                if !same {
                    return Err(bad_kind_error(k + 1, expected.as_str(), kind));
                }
            },
            Ok(v) => {
                return Err(crate::vm::env::aux::expected("string", Type::of(&v)));
            },
        }
        k = k + 1;
    }
    Ok(Value::Nil)
}

} // verus!
