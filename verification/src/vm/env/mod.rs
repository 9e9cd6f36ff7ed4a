pub mod aux;
pub mod globals;
pub mod strlib;

use vstd::prelude::*;
use crate::common::table::{distinct, key_fault, put, Table};
use crate::common::value::{Val, Value};
use crate::vm::error::RuntimeError;

verus! {

/// The environment of a program: its global variables.
#[derive(Debug, Clone, PartialEq)]
pub struct Env {
    pub globals: Table,
}

impl Env {
    /// An environment without global variables.
    pub fn new() -> (env: Env)
        ensures
            env.globals@ == Seq::<(Val, Val)>::empty(),
    {
        Env { globals: Table::new() }
    }

    /// Sets a global variable. `nil` and NaN name no variable: they are
    /// refused, and the environment is then unchanged.
    pub fn set_global(&mut self, idx: Value, val: Value) -> (r: Result<(), RuntimeError>)
        ensures
            match key_fault(idx@) {
                Some(f) => r matches Err(e) && e@ == f && final(self).globals@ == old(self).globals@,
                None => r is Ok && final(self).globals@ == put(old(self).globals@, idx@, val@),
            },
            distinct(old(self).globals@) ==> distinct(final(self).globals@),
    {
        self.globals.insert(idx, val)
    }
}

} // verus!
