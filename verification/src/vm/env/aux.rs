//! What a native function needs of the machine: its arguments.

use vstd::prelude::*;
use vstd::string::*;
use crate::common::table::put;
use crate::common::text::{push_str, string_of};
use crate::common::value::{type_of, Type, Val, Value};
use crate::vm::error::{Fault, RuntimeError};
use crate::vm::machine::VM;
use crate::vm::state::{reg_at, reg_range, NativeCallInfo, State};

verus! {

/// The message for a native function that asks for more than it was given.
pub open spec fn expected_value() -> Seq<char> {
    "expected value"@
}

/// Takes the next argument of the native call under way: the register at
/// the start of the window, which then starts one register further. The
/// window ends below its top: where it is spent, there is no argument to
/// take.
pub fn get(vm: &mut VM) -> (r: Result<Value, RuntimeError>)
    ensures
        match old(vm)@.take() {
            Ok((s, v)) => r matches Ok(x) && x@ == v && final(vm)@ == s,
            Err(f) => r matches Err(e) && e@ == f && final(vm)@ == old(vm)@,
        },
{
    if vm.nci.base >= vm.nci.top {
        Err(RuntimeError::CustomError(String::from_str("expected value")))
    } else {
        let pos: usize = vm.nci.base;
        vm.nci.base = pos + 1;
        Ok(vm.read(pos))
    }
}

/// Reads all arguments of the native call under way that were not taken
/// yet: the registers of the window.
pub fn get_all(vm: &VM) -> (vals: Vec<Value>)
    ensures
        crate::common::value::vals(vals@) == reg_range(vm@.regs, vm.nci.base as int, vm.nci.top as int),
{
    let mut vals: Vec<Value> = Vec::new();
    let mut i: usize = vm.nci.base;
    while i < vm.nci.top
        invariant
            vm.nci.base <= i,
            i <= vm.nci.top || i == vm.nci.base,
            vals.len() == i - vm.nci.base,
            forall|j: int| 0 <= j < vals.len() ==> vals@[j]@ == reg_at(vm@.regs, vm.nci.base + j),
        decreases vm.nci.top - i,
    {
        vals.push(vm.read(i));
        i += 1;
    }
    assert(crate::common::value::vals(vals@) =~= reg_range(vm@.regs, vm.nci.base as int, vm.nci.top as int));
    vals
}

/// Registers a native function under a name and puts it under that name
/// in the table with handle `tbl`. Returns the handle by which the machine
/// will ask for the function. Where the machine has no such table, the
/// function is registered all the same.
pub fn tbl_builtin(vm: &mut VM, tbl: usize, name: &str) -> (id: usize)
    ensures
        id == old(vm)@.natives.len(),
        tbl < old(vm)@.tables.len() ==> final(vm)@ == (State {
            natives: old(vm)@.natives.push(name@),
            tables: old(vm)@.tables.update(
                tbl as int,
                put(old(vm)@.tables[tbl as int], Val::String(name@), Val::NativeFunc(id)),
            ),
            ..old(vm)@
        }),
        tbl >= old(vm)@.tables.len() ==> final(vm)@ == (State {
            natives: old(vm)@.natives.push(name@),
            ..old(vm)@
        }),
{
    let id: usize = vm.native(name);
    if tbl < vm.tables.len() {
        let ghost before = vm.tables@;
        let _ = vm.tables[tbl].insert(Value::String(String::from_str(name)), Value::NativeFunc(id));
        assert(vm@.tables =~= old(vm)@.tables.update(
            tbl as int,
            put(old(vm)@.tables[tbl as int], Val::String(name@), Val::NativeFunc(id)),
        ));
    }
    id
}

/// The message for an argument of the wrong kind.
pub open spec fn expected_text(kind: Seq<char>, got: Type) -> Seq<char> {
    "expected "@ + kind + " got "@ + got.name()
}

/// Writes the error for an argument of the wrong kind.
pub fn expected(kind: &str, got: Type) -> (e: RuntimeError)
    ensures
        e@ == Fault::CustomError(expected_text(kind@, got)),
{
    let mut out: Vec<char> = Vec::new();
    push_str(&mut out, "expected ");
    push_str(&mut out, kind);
    push_str(&mut out, " got ");
    push_str(&mut out, got.as_str());
    assert(out@ =~= expected_text(kind@, got));
    RuntimeError::CustomError(string_of(&out))
}

impl State {
    /// The state after a native function took an argument.
    pub open spec fn taken(self) -> State {
        State { nci: NativeCallInfo { base: (self.nci.base + 1) as usize, top: self.nci.top }, ..self }
    }

    /// Whether a native function can take an argument: the window is not
    /// spent.
    pub open spec fn can_take(self) -> bool {
        self.nci.base < self.nci.top
    }

    /// The next argument of the native call under way.
    pub open spec fn next_arg(self) -> Val {
        reg_at(self.regs, self.nci.base as int)
    }

    /// A native function takes its next argument.
    pub open spec fn take(self) -> Result<(State, Val), Fault> {
        if self.can_take() {
            Ok((self.taken(), self.next_arg()))
        } else {
            Err(Fault::CustomError(expected_value()))
        }
    }

    /// A native function takes its next argument, which is to be text.
    pub open spec fn take_string(self) -> Result<(State, Seq<char>), Fault> {
        match self.take() {
            Err(f) => Err(f),
            Ok((s, Val::String(t))) => Ok((s, t)),
            Ok((s, v)) => Err(Fault::CustomError(expected_text("string"@, type_of(v)))),
        }
    }

    /// A native function takes its next argument, which is to be a number.
    pub open spec fn take_number(self) -> Result<(State, u64), Fault> {
        match self.take() {
            Err(f) => Err(f),
            Ok((s, Val::Number(n))) => Ok((s, n)),
            Ok((s, v)) => Err(Fault::CustomError(expected_text("number"@, type_of(v)))),
        }
    }

    /// A native function takes its next argument if it is a number, and
    /// the given number in place of anything else; where the window is
    /// spent, it takes nothing and has the given number.
    pub open spec fn take_number_or(self, or: u64) -> Result<(State, u64), Fault> {
        match self.take() {
            Err(f) => Ok((self, or)),
            Ok((s, Val::Number(n))) => Ok((s, n)),
            Ok((s, v)) => Ok((s, or)),
        }
    }

    /// A native function takes its next argument if it is text, and the
    /// given text in place of anything else; where the window is spent, it
    /// takes nothing and has the given text.
    pub open spec fn take_string_or(self, or: Seq<char>) -> Result<(State, Seq<char>), Fault> {
        match self.take() {
            Err(f) => Ok((self, or)),
            Ok((s, Val::String(t))) => Ok((s, t)),
            Ok((s, v)) => Ok((s, or)),
        }
    }
}

/// A native function came to what is wanted of it: it returned the wanted
/// value and left the machine in the wanted state; or it raised the wanted
/// error.
pub open spec fn native_gave(r: Result<Value, RuntimeError>, vm: VM, want: Result<(State, Val), Fault>) -> bool {
    match want {
        Ok((s, v)) => r matches Ok(x) && x@ == v && vm@ == s,
        Err(f) => r matches Err(e) && e@ == f,
    }
}

/// Takes the next argument, which is to be text.
pub fn expect_string(vm: &mut VM) -> (r: Result<String, RuntimeError>)
    ensures
        match old(vm)@.take_string() {
            Ok((s, t)) => r matches Ok(x) && x@ == t && final(vm)@ == s,
            Err(f) => r matches Err(e) && e@ == f,
        },
{
    match get(vm) {
        Err(e) => Err(e),
        Ok(Value::String(s)) => Ok(s),
        Ok(v) => Err(expected("string", Type::of(&v))),
    }
}

/// Takes the next argument, which is to be a number.
pub fn expect_number(vm: &mut VM) -> (r: Result<u64, RuntimeError>)
    ensures
        match old(vm)@.take_number() {
            Ok((s, n)) => r == Ok::<u64, RuntimeError>(n) && final(vm)@ == s,
            Err(f) => r matches Err(e) && e@ == f,
        },
{
    match get(vm) {
        Err(e) => Err(e),
        Ok(Value::Number(n)) => Ok(n),
        Ok(v) => Err(expected("number", Type::of(&v))),
    }
}

/// Takes the next argument if it is a number, and `or` in place of
/// anything else, and of an argument that is not there.
pub fn optional_number(vm: &mut VM, or: u64) -> (r: Result<u64, RuntimeError>)
    ensures
        match old(vm)@.take_number_or(or) {
            Ok((s, n)) => r == Ok::<u64, RuntimeError>(n) && final(vm)@ == s,
            Err(f) => r matches Err(e) && e@ == f,
        },
{
    match get(vm) {
        Err(_) => Ok(or),
        Ok(Value::Number(n)) => Ok(n),
        Ok(_) => Ok(or),
    }
}

/// Takes the next argument if it is text, and `or` in place of anything
/// else, and of an argument that is not there.
pub fn optional_string(vm: &mut VM, or: String) -> (r: Result<String, RuntimeError>)
    ensures
        match old(vm)@.take_string_or(or@) {
            Ok((s, t)) => r matches Ok(x) && x@ == t && final(vm)@ == s,
            Err(f) => r matches Err(e) && e@ == f,
        },
{
    match get(vm) {
        Err(_) => Ok(or),
        Ok(Value::String(s)) => Ok(s),
        Ok(_) => Ok(or),
    }
}

} // verus!
