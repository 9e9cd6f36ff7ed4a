//! How values are shown.

use vstd::prelude::*;
use vstd::string::*;
use crate::common::text::{push_str, string_of};
use crate::common::value::{Val, Value};
use crate::vm::machine::VM;
use crate::vm::state::State;

verus! {

/// How a function is shown: the word `function`, a colon, and its name.
pub open spec fn function_text(name: Seq<char>) -> Seq<char> {
    "function: "@ + name
}

/// How a value is shown, as far as the machine alone can tell: text as
/// itself, a boolean as `true` or `false`, `nil` as `nil`, a closure and a
/// native function as a function with its name. A number, an array and a
/// table are shown by the driver, which writes the doubles.
pub open spec fn shown(v: Val, s: State) -> Option<Seq<char>> {
    match v {
        Val::String(t) => Some(t),
        Val::Bool(b) => Some(
            if b {
                "true"@
            } else {
                "false"@
            },
        ),
        Val::Nil => Some("nil"@),
        Val::Closure(h) => if h < s.closures.len() {
            Some(function_text(s.closures[h as int].name))
        } else {
            None
        },
        Val::NativeFunc(h) => if h < s.natives.len() {
            Some(function_text(s.natives[h as int]))
        } else {
            None
        },
        _ => None,
    }
}

impl Value {
    /// Writes a value as it is shown, see [`shown`].
    pub fn to_string(&self, vm: &VM) -> (r: Option<String>)
        ensures
            match shown(self@, vm@) {
                Some(t) => r matches Some(x) && x@ == t,
                None => r is None,
            },
    {
        proof {
            assert(vm@.closures.len() == vm.closures.len());
            assert(vm@.natives.len() == vm.natives.len());
            assert(forall|h: int| 0 <= h < vm.closures.len() ==> vm@.closures[h] == vm.closures@[h]@);
            assert(forall|h: int| 0 <= h < vm.natives.len() ==> vm@.natives[h] == vm.natives@[h].name@);
        }
        match self {
            Value::String(s) => Some(s.clone()),
            Value::Bool(b) => {
                if *b {
                    Some(String::from_str("true"))
                } else {
                    Some(String::from_str("false"))
                }
            },
            Value::Nil => Some(String::from_str("nil")),
            Value::Closure(h) => {
                if *h < vm.closures.len() {
                    let mut out: Vec<char> = Vec::new();
                    push_str(&mut out, "function: ");
                    push_str(&mut out, vm.closures[*h].name.as_str());
                    assert(out@ =~= function_text(vm.closures@[*h as int].name@));
                    Some(string_of(&out))
                } else {
                    None
                }
            },
            Value::NativeFunc(h) => {
                if *h < vm.natives.len() {
                    let mut out: Vec<char> = Vec::new();
                    push_str(&mut out, "function: ");
                    push_str(&mut out, vm.natives[*h].name.as_str());
                    assert(out@ =~= function_text(vm.natives@[*h as int].name@));
                    Some(string_of(&out))
                } else {
                    None
                }
            },
            _ => None,
        }
    }
}

} // verus!
