use vstd::prelude::*;
use vstd::string::*;
use crate::common::array::{array_views, Array};
use crate::common::closure::{closure_views, upval_views, Closure};
use crate::common::table::{table_views, Table};
use crate::common::value::{vals, RustFunc, Val, Value};
use crate::vm::env::Env;
use crate::vm::error::{Fault, RuntimeError};
use crate::vm::state::{
    captured, grown, reg_at, reg_set, upval_set, CallInfo, NativeCallInfo, Outcome, State, Step, MAX_BASE, MAX_CODE,
};

verus! {

impl NativeCallInfo {
    /// The empty window at register 0.
    pub fn new() -> (n: NativeCallInfo)
        ensures
            n.base == 0,
            n.top == 0,
    {
        NativeCallInfo { base: 0, top: 0 }
    }
}

impl CallInfo {
    /// A frame for the closure with the given handle, at the start of its
    /// code, with its window at `base`.
    pub fn new(closure: usize, base: usize) -> (c: CallInfo)
        ensures
            c == (CallInfo { closure, is_builtin: false, base, pc: 0 }),
    {
        CallInfo { closure, is_builtin: false, base, pc: 0 }
    }
}

/// The machine: call stack, register file, and the objects that values
/// refer to by handle.
#[derive(Debug, Clone, PartialEq)]
pub struct VM {
    pub env: Env,
    pub call_stack: Vec<CallInfo>,
    pub nci: NativeCallInfo,
    pub regs: Vec<Value>,
    pub ncalls: usize,
    pub closures: Vec<Closure>,
    pub arrays: Vec<Array>,
    pub tables: Vec<Table>,
    pub natives: Vec<RustFunc>,
}

/// The names of a sequence of native functions.
pub open spec fn native_names(s: Seq<RustFunc>) -> Seq<Seq<char>> {
    Seq::new(s.len(), |i: int| s[i].name@)
}

impl View for VM {
    type V = State;

    open spec fn view(&self) -> State {
        State {
            frames: self.call_stack@,
            regs: vals(self.regs@),
            closures: closure_views(self.closures@),
            arrays: array_views(self.arrays@),
            tables: table_views(self.tables@),
            natives: native_names(self.natives@),
            globals: self.env.globals@,
            nci: self.nci,
            ncalls: self.ncalls,
        }
    }
}

/// What an error or a step is, with text as sequences of characters.
pub open spec fn result_view(r: Result<Step, RuntimeError>) -> Result<Step, Fault> {
    match r {
        Ok(s) => Ok(s),
        Err(e) => Err(e@),
    }
}

/// The machine and what it returned are the given outcome.
pub open spec fn came_out(vm: VM, r: Result<Step, RuntimeError>, o: Outcome) -> bool {
    vm@ == o.state && result_view(r) == o.result
}

/// Sets a slot of captured variables, growing them to hold it.
pub fn set_upval(u: &mut Vec<(u8, Value)>, slot: u8, source: u8, v: Value)
    ensures
        upval_views(final(u)@) == upval_set(upval_views(old(u)@), slot as int, (source, v@)),
{
    let ghost before = upval_views(u@);
    while u.len() <= slot as usize
        invariant
            u.len() <= slot + 1 || u.len() == before.len(),
            before.len() <= u.len(),
            upval_views(u@) =~= before + Seq::new((u.len() - before.len()) as nat, |i: int| (0u8, Val::Nil)),
        decreases slot + 1 - u.len(),
    {
        let ghost prev = upval_views(u@);
        u.push((0u8, Value::Nil));
        assert(upval_views(u@) =~= prev.push((0u8, Val::Nil)));
    }
    u[slot as usize] = (source, v);
    assert(upval_views(u@) =~= upval_set(before, slot as int, (source, v@)));
}

impl VM {
    /// A machine that is to run `closure`. The functions that `closure` and
    /// one another refer to by handle are `funcs`, each at its handle; the
    /// handle of `closure` is the next one. The machine has one frame, at
    /// the start of `closure`, and no global variable.
    pub fn new(closure: Closure, funcs: Vec<Closure>) -> (vm: VM)
        ensures
            vm@ == (State {
                frames: seq![CallInfo { closure: funcs.len(), is_builtin: false, base: 0, pc: 0 }],
                regs: Seq::empty(),
                closures: closure_views(funcs@).push(closure@),
                arrays: Seq::empty(),
                tables: Seq::empty(),
                natives: Seq::empty(),
                globals: Seq::empty(),
                nci: NativeCallInfo { base: 0, top: 0 },
                ncalls: 0,
            }),
            closure.code.len() <= MAX_CODE && (forall|k: int|
                0 <= k < funcs.len() ==> (#[trigger] funcs@[k]).code.len() <= MAX_CODE) ==> vm@.wf(),
    {
        let mut closures = funcs;
        let main: usize = closures.len();
        closures.push(closure);
        let mut call_stack: Vec<CallInfo> = Vec::new();
        call_stack.push(CallInfo::new(main, 0));
        let vm = VM {
            env: Env::new(),
            call_stack,
            nci: NativeCallInfo::new(),
            regs: Vec::new(),
            ncalls: 0,
            closures,
            arrays: Vec::new(),
            tables: Vec::new(),
            natives: Vec::new(),
        };
        assert(vm@.frames =~= seq![CallInfo { closure: funcs.len(), is_builtin: false, base: 0, pc: 0 }]);
        assert(vm@.regs =~= Seq::empty());
        assert(vm@.closures =~= closure_views(funcs@).push(closure@));
        assert(vm@.arrays =~= Seq::empty());
        assert(vm@.tables =~= Seq::empty());
        assert(vm@.natives =~= Seq::empty());
        vm
    }

    /// Tells whether there is an instruction to run.
    pub fn in_code(&self) -> (r: bool)
        ensures
            r == self@.in_code(),
    {
        let n: usize = self.call_stack.len();
        if n == 0 {
            return false;
        }
        let call: &CallInfo = &self.call_stack[n - 1];
        call.closure < self.closures.len() && call.pc < self.closures[call.closure].code.len()
    }

    /// Reads a register of the register file, `nil` past its end.
    pub fn read(&self, pos: usize) -> (v: Value)
        ensures
            v@ == reg_at(self@.regs, pos as int),
    {
        if pos < self.regs.len() {
            self.regs[pos].copy()
        } else {
            Value::Nil
        }
    }

    /// Grows the register file with `nil` to at least `n` registers.
    pub fn grow(&mut self, n: usize)
        ensures
            final(self)@ == (State { regs: grown(old(self)@.regs, n as int), ..old(self)@ }),
            final(self).regs.len() >= n,
            final(self).regs.len() >= old(self).regs.len(),
    {
        let ghost before = self@.regs;
        while self.regs.len() < n
            invariant
                before.len() <= self.regs.len(),
                self.regs.len() <= n || self.regs.len() == before.len(),
                self@.regs =~= before + Seq::new((self.regs.len() - before.len()) as nat, |i: int| Val::Nil),
                self@ == (State { regs: self@.regs, ..old(self)@ }),
            decreases n - self.regs.len(),
        {
            let ghost prev = self@.regs;
            self.regs.push(Value::Nil);
            assert(self@.regs =~= prev.push(Val::Nil));
        }
        assert(self@.regs =~= grown(before, n as int));
    }

    /// Writes a register of the register file, growing the file to hold it.
    pub fn write(&mut self, pos: usize, v: Value)
        requires
            pos < usize::MAX,
        ensures
            final(self)@ == old(self)@.with_reg(pos as int, v@),
    {
        self.grow(pos + 1);
        self.regs[pos] = v;
        assert(self@.regs =~= reg_set(old(self)@.regs, pos as int, v@));
    }

    /// Reads a constant of the running closure, `nil` past the pool's end.
    pub fn konst(&self, k: usize) -> (v: Value)
        requires
            self@.in_code(),
        ensures
            v@ == self@.konst(k as int),
    {
        let call: &CallInfo = &self.call_stack[self.call_stack.len() - 1];
        let consts: &Vec<Value> = &self.closures[call.closure].consts;
        if k < consts.len() {
            consts[k].copy()
        } else {
            Value::Nil
        }
    }

    /// Reads register `x` of the running frame.
    pub fn reg(&self, x: u8) -> (v: Value)
        requires
            self@.in_code(),
            self@.top().base <= MAX_BASE,
        ensures
            v@ == self@.reg(x),
    {
        let base: usize = self.call_stack[self.call_stack.len() - 1].base;
        self.read(base + x as usize)
    }

    /// Reads an operand: a constant where `mode` is 1, else a register of
    /// the running frame.
    pub fn rk(&self, mode: u8, x: u8) -> (v: Value)
        requires
            self@.in_code(),
            self@.top().base <= MAX_BASE,
        ensures
            v@ == self@.rk(mode, x),
    {
        if mode == 1 {
            self.konst(x as usize)
        } else {
            self.reg(x)
        }
    }

    /// Sets the `pc` of the running frame.
    pub(crate) fn set_pc(&mut self, pc: usize)
        requires
            old(self).call_stack.len() > 0,
        ensures
            final(self)@ == old(self)@.with_pc(pc),
    {
        let n: usize = self.call_stack.len();
        self.call_stack[n - 1].pc = pc;
        assert(self@.frames =~= old(self)@.with_pc(pc).frames);
    }

    /// Moves the `pc` of the running frame forward by `n`.
    pub fn forward(&mut self, n: usize)
        requires
            old(self)@.in_code(),
            old(self)@.closure().code.len() <= MAX_CODE,
            n <= 65536,
        ensures
            final(self)@ == old(self)@.forward(n as int),
    {
        let call: CallInfo = self.call_stack[self.call_stack.len() - 1];
        assert(self@.closure().code.len() == self.closures@[call.closure as int].code.len());
        self.set_pc(call.pc + n);
    }

    /// Moves the `pc` of the running frame back by `n`, at most to the
    /// start of the code.
    pub fn backward(&mut self, n: usize)
        requires
            old(self)@.in_code(),
        ensures
            final(self)@ == old(self)@.backward(n as int),
    {
        let call: CallInfo = self.call_stack[self.call_stack.len() - 1];
        if call.pc < n {
            self.set_pc(0);
        } else {
            self.set_pc(call.pc - n);
        }
    }

    /// Ends an instruction whose result goes to register `x` of the running
    /// frame.
    pub(crate) fn done_with(&mut self, x: u8, v: Value) -> (r: Result<Step, RuntimeError>)
        requires
            old(self)@.ready(),
        ensures
            came_out(*final(self), r, old(self)@.done_with(x, v@)),
    {
        let base: usize = self.call_stack[self.call_stack.len() - 1].base;
        self.write(base + x as usize, v);
        self.forward(1);
        Ok(Step::Next)
    }
}

} // verus!
