//! What the machine is and does, as mathematics: the state of a machine and
//! the effect of one instruction on it. The executable machine is held to
//! this.
//!
//! Captured variables are captured by value, at the call: whenever a
//! closure is called, it takes the variables that its capture prologue
//! names from the registers of the caller, and when it returns, it writes
//! them back to the registers of the caller that they were taken from.
//! Closures of one variable that run side by side each see their own copy
//! until they return.

use vstd::prelude::*;
use crate::common::array::{index_of, stored_at, value_at};
use crate::common::closure::ClosureView;
use crate::common::number::{negated, num_le, num_lt};
use crate::common::opcode::Opcode;
use crate::common::table::{key_fault, lookup, put};
use crate::common::text::text_lt;
use crate::common::value::{negation, truthy, type_of, val_eq, Val};
use crate::vm::code::{
    a_field, a_mode_field, b_field, b_mode_field, bx_field, c_field, is_instruction, op_of,
};
use crate::vm::error::{arith_action, call_action, index_action, order_action, Fault};

verus! {

/// The window of registers that a native function reads its arguments from:
/// the registers from `base` up to, not including, `top`.
#[derive(Debug, Clone, Copy, PartialEq, Eq, Structural)]
pub struct NativeCallInfo {
    pub base: usize,
    pub top: usize,
}

/// A call frame: one per function that is running.
#[derive(Debug, Clone, Copy, PartialEq, Eq, Structural)]
pub struct CallInfo {
    /// The handle of the closure that runs.
    pub closure: usize,
    /// Set on the frame that stands for a failed native function in a trace.
    pub is_builtin: bool,
    /// Where the frame's register window starts in the register file.
    pub base: usize,
    /// The index of the next instruction.
    pub pc: usize,
}

/// What an instruction leaves for the program that drives the machine.
#[derive(Debug, Clone, Copy, PartialEq, Eq, Structural)]
pub enum Step {
    /// There was nothing to run: no frame, or the top frame is at its end.
    Done,
    /// The instruction is done.
    Next,
    /// The instruction is arithmetic on two numbers. The driver computes
    /// `lhs op rhs` on doubles and completes the instruction with the result
    /// for register `dst` of the running frame.
    Arith { op: Opcode, lhs: u64, rhs: u64, dst: u8 },
    /// The instruction calls the native function with handle `func`, whose
    /// arguments lie in the window that the machine has set. The driver runs
    /// the function and completes the instruction with what it returns, for
    /// register `dst` of the running frame.
    Native { func: usize, dst: u8 },
}

/// No register window of a sound machine starts higher than this: a call
/// moves the window up by at most 256 registers, and a sound machine has
/// made less than [`MAX_CALLS`] calls.
pub const MAX_BASE: usize = 5_120_000;

/// The most instructions that a closure of a sound machine has.
pub const MAX_CODE: usize = 0x7FFF_0000;

/// The number of calls after which the stack counts as overflowed.
pub const MAX_CALLS: usize = 20000;

/// The state of a machine.
pub ghost struct State {
    /// The call stack, the running frame last.
    pub frames: Seq<CallInfo>,
    /// The register file.
    pub regs: Seq<Val>,
    /// The closures, each at its handle.
    pub closures: Seq<ClosureView>,
    /// The arrays, each at its handle.
    pub arrays: Seq<Seq<Val>>,
    /// The tables, each at its handle.
    pub tables: Seq<Seq<(Val, Val)>>,
    /// The names of the native functions, each at its handle.
    pub natives: Seq<Seq<char>>,
    /// The global variables.
    pub globals: Seq<(Val, Val)>,
    /// The window of the native call under way.
    pub nci: NativeCallInfo,
    /// The number of closure calls made so far.
    pub ncalls: usize,
}

/// The outcome of an instruction: the state after it, and what it leaves to
/// the driver or the error that it raised.
pub ghost struct Outcome {
    pub state: State,
    pub result: Result<Step, Fault>,
}

/// A register file read at a position: `nil` past its end.
pub open spec fn reg_at(regs: Seq<Val>, pos: int) -> Val {
    if 0 <= pos < regs.len() {
        regs[pos]
    } else {
        Val::Nil
    }
}

/// A register file grown with `nil` to at least `n` registers.
pub open spec fn grown(regs: Seq<Val>, n: int) -> Seq<Val> {
    if n <= regs.len() {
        regs
    } else {
        regs + Seq::new((n - regs.len()) as nat, |i: int| Val::Nil)
    }
}

/// A register file written at a position, grown to hold it.
pub open spec fn reg_set(regs: Seq<Val>, pos: int, v: Val) -> Seq<Val>
    recommends
        0 <= pos,
{
    grown(regs, pos + 1).update(pos, v)
}

/// A register file with `nil` in every register from a position on.
pub open spec fn closed(regs: Seq<Val>, from: int) -> Seq<Val> {
    Seq::new(regs.len(), |i: int| if i >= from { Val::Nil } else { regs[i] })
}

/// The captured variables with one slot set, grown to hold it. A slot that
/// the growth makes is `nil` taken from register 0.
pub open spec fn upval_set(u: Seq<(u8, Val)>, slot: int, entry: (u8, Val)) -> Seq<(u8, Val)>
    recommends
        0 <= slot,
{
    (if slot < u.len() {
        u
    } else {
        u + Seq::new((slot + 1 - u.len()) as nat, |i: int| (0u8, Val::Nil))
    }).update(slot, entry)
}

/// An instruction of a capture prologue: `GetUpVal` with `C = 1`.
pub open spec fn is_capture(i: u32) -> bool {
    is_instruction(i) && op_of(i) == Opcode::GetUpVal && c_field(i) == 1
}

/// The number of capture instructions in a row from `from` on.
pub open spec fn prologue_len(code: Seq<u32>, from: int) -> int
    decreases code.len() - from,
{
    if 0 <= from < code.len() && is_capture(code[from]) {
        1 + prologue_len(code, from + 1)
    } else {
        0
    }
}

/// The captured variables after the first `n` instructions of a prologue
/// took theirs from the registers of the window at `base`: the instruction
/// with operands A and B puts in slot A the register B and its value.
pub open spec fn captured(u: Seq<(u8, Val)>, code: Seq<u32>, n: int, regs: Seq<Val>, base: int) -> Seq<
    (u8, Val),
>
    decreases n,
{
    if n <= 0 || n > code.len() {
        u
    } else {
        let i = code[n - 1];
        upval_set(
            captured(u, code, n - 1, regs, base),
            a_field(i) as int,
            (b_field(i), reg_at(regs, base + b_field(i))),
        )
    }
}

/// The register file after the first `n` captured variables were written
/// back to the registers, in the window at `base`, that they were taken
/// from.
pub open spec fn written_back(regs: Seq<Val>, u: Seq<(u8, Val)>, n: int, base: int) -> Seq<Val>
    decreases n,
{
    if n <= 0 || n > u.len() {
        regs
    } else {
        reg_set(written_back(regs, u, n - 1, base), base + u[n - 1].0, u[n - 1].1)
    }
}

/// The table built from the registers `from` up to `to`, read as keys and
/// values in turn, on top of the entries `acc`; or the error of the first
/// key that cannot be one.
pub open spec fn table_built(regs: Seq<Val>, from: int, to: int, acc: Seq<(Val, Val)>) -> Result<
    Seq<(Val, Val)>,
    Fault,
>
    decreases
        (if to > from {
            to - from
        } else {
            0
        }),
{
    if from >= to {
        Ok(acc)
    } else {
        match key_fault(reg_at(regs, from)) {
            Some(f) => Err(f),
            None => table_built(regs, from + 2, to, put(acc, reg_at(regs, from), reg_at(regs, from + 1))),
        }
    }
}

/// The registers `from` up to `to` as a sequence, empty where `to <= from`.
pub open spec fn reg_range(regs: Seq<Val>, from: int, to: int) -> Seq<Val> {
    Seq::new(
        if to > from {
            (to - from) as nat
        } else {
            0
        },
        |i: int| reg_at(regs, from + i),
    )
}

/// The result of an order instruction on two values: numbers are ordered as
/// doubles, text as in a dictionary, and nothing else has an order. `Gt`
/// asks for `a < b`, `Ge` for `a <= b`, `Lt` for `a > b`, `Le` for `a >= b`.
pub open spec fn ordered(op: Opcode, a: Val, b: Val) -> Result<bool, Fault> {
    match (a, b) {
        (Val::Number(x), Val::Number(y)) => Ok(
            match op {
                Opcode::Gt => num_lt(x, y),
                Opcode::Ge => num_le(x, y),
                Opcode::Lt => num_lt(y, x),
                _ => num_le(y, x),
            },
        ),
        (Val::String(x), Val::String(y)) => Ok(
            match op {
                Opcode::Gt => text_lt(x, y),
                Opcode::Ge => !text_lt(y, x),
                Opcode::Lt => text_lt(y, x),
                _ => !text_lt(x, y),
            },
        ),
        _ => Err(Fault::TypeError(order_action(), type_of(a), Some(type_of(b)))),
    }
}

impl State {
    /// There is an instruction to run: a top frame whose closure exists and
    /// whose `pc` lies in its code.
    pub open spec fn in_code(self) -> bool {
        self.frames.len() > 0 && self.frames.last().closure < self.closures.len() && self.frames.last().pc
            < self.closures[self.frames.last().closure as int].code.len()
    }

    /// The running frame.
    pub open spec fn top(self) -> CallInfo {
        self.frames.last()
    }

    /// The closure of the running frame.
    pub open spec fn closure(self) -> ClosureView {
        self.closures[self.top().closure as int]
    }

    /// The instruction to run.
    pub open spec fn word(self) -> u32 {
        self.closure().code[self.top().pc as int]
    }

    /// Register `x` of the running frame.
    pub open spec fn reg(self, x: u8) -> Val {
        reg_at(self.regs, self.top().base + x)
    }

    /// Constant `k` of the running closure, `nil` past the pool's end.
    pub open spec fn konst(self, k: int) -> Val {
        if 0 <= k < self.closure().consts.len() {
            self.closure().consts[k]
        } else {
            Val::Nil
        }
    }

    /// An operand that names a constant where its mode bit is 1, and a
    /// register of the running frame where it is not.
    pub open spec fn rk(self, mode: u8, x: u8) -> Val {
        if mode == 1 {
            self.konst(x as int)
        } else {
            self.reg(x)
        }
    }

    /// The state with a value in a register of the register file.
    pub open spec fn with_reg(self, pos: int, v: Val) -> State {
        State { regs: reg_set(self.regs, pos, v), ..self }
    }

    /// The state with the running frame's `pc` set.
    pub open spec fn with_pc(self, pc: usize) -> State {
        State { frames: self.frames.update(self.frames.len() - 1, CallInfo { pc, ..self.top() }), ..self }
    }

    /// The state with the running frame's `pc` moved forward by `n`. A `pc`
    /// behind the code ends the frame's run.
    pub open spec fn forward(self, n: int) -> State {
        self.with_pc((self.top().pc + n) as usize)
    }

    /// The state with the running frame's `pc` moved back by `n`, at most
    /// to the start of the code.
    pub open spec fn backward(self, n: int) -> State {
        if self.top().pc < n {
            self.with_pc(0)
        } else {
            self.with_pc((self.top().pc - n) as usize)
        }
    }

    /// The instruction is done and left nothing to the driver: the value is
    /// in register `x` of the running frame and `pc` is one further.
    pub open spec fn done_with(self, x: u8, v: Val) -> Outcome {
        Outcome { state: self.with_reg(self.top().base + x, v).forward(1), result: Ok(Step::Next) }
    }

    /// The instruction raised an error and changed nothing.
    pub open spec fn failed(self, f: Fault) -> Outcome {
        Outcome { state: self, result: Err(f) }
    }

    /// The captured variables of the running closure with one slot's value
    /// set; the slot keeps the register it was taken from.
    pub open spec fn with_upval(self, slot: u8, v: Val) -> State {
        let u = self.closure().upvals;
        let source = if slot < u.len() {
            u[slot as int].0
        } else {
            0u8
        };
        State {
            closures: self.closures.update(
                self.top().closure as int,
                ClosureView { upvals: upval_set(u, slot as int, (source, v)), ..self.closure() },
            ),
            ..self
        }
    }

    /// Captured variable `slot` of the running closure, `nil` where the
    /// closure has no such slot.
    pub open spec fn upval(self, slot: u8) -> Val {
        if slot < self.closure().upvals.len() {
            self.closure().upvals[slot as int].1
        } else {
            Val::Nil
        }
    }

    /// A new closure made of the function with handle `p`, for register `x`
    /// of the running frame: the closure is a copy of the function, and its
    /// handle, which is the next free one, goes to register `x`.
    pub open spec fn instantiate(self, x: u8, p: usize) -> State {
        State {
            regs: reg_set(self.regs, self.top().base + x, Val::Closure(self.closures.len() as usize)),
            closures: self.closures.push(self.closures[p as int]),
            ..self
        }
    }

    /// `Closure A Bx`: where the constant is a function, a new closure of
    /// it goes to the register; any other constant is loaded as it is.
    pub open spec fn do_closure(self, i: u32) -> Outcome {
        match self.konst(bx_field(i) as int) {
            Val::Closure(p) => if p < self.closures.len() && self.closures.len() < usize::MAX {
                Outcome { state: self.instantiate(a_field(i), p).forward(1), result: Ok(Step::Next) }
            } else {
                self.done_with(a_field(i), Val::Closure(p))
            },
            v => self.done_with(a_field(i), v),
        }
    }

    /// `GetGlobal A Bx`.
    pub open spec fn do_get_global(self, i: u32) -> Outcome {
        let k = self.konst(bx_field(i) as int);
        match key_fault(k) {
            Some(f) => self.failed(f),
            None => self.done_with(a_field(i), lookup(self.globals, k)),
        }
    }

    /// `SetGlobal A Bx`.
    pub open spec fn do_set_global(self, i: u32) -> Outcome {
        let k = self.konst(bx_field(i) as int);
        match key_fault(k) {
            Some(f) => self.failed(f),
            None => Outcome {
                state: (State { globals: put(self.globals, k, self.reg(a_field(i))), ..self }).forward(1),
                result: Ok(Step::Next),
            },
        }
    }

    /// `NewTable A B`.
    pub open spec fn do_new_table(self, i: u32) -> Outcome {
        let from = self.top().base + a_field(i);
        let to = self.top().base + b_field(i);
        match table_built(self.regs, from, to, Seq::empty()) {
            Err(f) => self.failed(f),
            Ok(t) => (State { tables: self.tables.push(t), ..self }).done_with(
                a_field(i),
                Val::Table(self.tables.len() as usize),
            ),
        }
    }

    /// `NewArray A B`.
    pub open spec fn do_new_array(self, i: u32) -> Outcome {
        let from = self.top().base + a_field(i);
        let to = self.top().base + b_field(i);
        (State { arrays: self.arrays.push(reg_range(self.regs, from, to)), ..self }).done_with(
            a_field(i),
            Val::Array(self.arrays.len() as usize),
        )
    }

    /// `GetObj A B`.
    pub open spec fn do_get_obj(self, i: u32) -> Outcome {
        let obj = self.reg(a_field(i));
        let key = self.rk(b_mode_field(i), b_field(i));
        match obj {
            Val::Array(h) if h < self.arrays.len() => match index_of(key) {
                Ok(p) => self.done_with(a_field(i), value_at(self.arrays[h as int], p)),
                Err(f) => self.failed(f),
            },
            Val::Table(h) if h < self.tables.len() => match key_fault(key) {
                None => self.done_with(a_field(i), lookup(self.tables[h as int], key)),
                Some(f) => self.failed(f),
            },
            _ => self.failed(Fault::TypeError(index_action(), type_of(obj), None)),
        }
    }

    /// `SetObj A B C`.
    pub open spec fn do_set_obj(self, i: u32) -> Outcome {
        let key = self.rk(a_mode_field(i), a_field(i));
        let val = self.rk(b_mode_field(i), b_field(i));
        let obj = self.reg(c_field(i));
        match obj {
            Val::Array(h) if h < self.arrays.len() => match index_of(key) {
                Ok(p) => match stored_at(self.arrays[h as int], p, val) {
                    Ok(a) => Outcome {
                        state: (State { arrays: self.arrays.update(h as int, a), ..self }).forward(1),
                        result: Ok(Step::Next),
                    },
                    Err(f) => self.failed(f),
                },
                Err(f) => self.failed(f),
            },
            Val::Table(h) if h < self.tables.len() => match key_fault(key) {
                None => Outcome {
                    state: (State {
                        tables: self.tables.update(h as int, put(self.tables[h as int], key, val)),
                        ..self
                    }).forward(1),
                    result: Ok(Step::Next),
                },
                Some(f) => self.failed(f),
            },
            _ => self.failed(Fault::TypeError(index_action(), type_of(obj), None)),
        }
    }

    /// `Add`, `Sub`, `Mul`, `Div`, `Mod`: on two numbers the operation is
    /// left to the driver; `Add` on text joins it; anything else is an
    /// error.
    pub open spec fn do_arith(self, i: u32) -> Outcome {
        let a = self.rk(a_mode_field(i), a_field(i));
        let b = self.rk(b_mode_field(i), b_field(i));
        match (a, b) {
            (Val::Number(x), Val::Number(y)) => Outcome {
                state: self,
                result: Ok(
                    Step::Arith { op: op_of(i), lhs: x, rhs: y, dst: c_field(i) },
                ),
            },
            (Val::String(x), Val::String(y)) if op_of(i) == Opcode::Add => self.done_with(
                c_field(i),
                Val::String(x + y),
            ),
            _ => self.failed(Fault::TypeError(arith_action(), type_of(a), Some(type_of(b)))),
        }
    }

    /// `Eq` and `Neq`.
    pub open spec fn do_equal(self, i: u32) -> Outcome {
        let a = self.rk(a_mode_field(i), a_field(i));
        let b = self.rk(b_mode_field(i), b_field(i));
        self.done_with(c_field(i), Val::Bool(val_eq(a, b) == (op_of(i) == Opcode::Eq)))
    }

    /// `Gt`, `Ge`, `Lt`, `Le`.
    pub open spec fn do_order(self, i: u32) -> Outcome {
        let a = self.rk(a_mode_field(i), a_field(i));
        let b = self.rk(b_mode_field(i), b_field(i));
        match ordered(op_of(i), a, b) {
            Ok(r) => self.done_with(c_field(i), Val::Bool(r)),
            Err(f) => self.failed(f),
        }
    }

    /// `Neg A B`.
    pub open spec fn do_neg(self, i: u32) -> Outcome {
        match self.rk(b_mode_field(i), b_field(i)) {
            Val::Number(n) => self.done_with(a_field(i), Val::Number(negated(n))),
            v => self.failed(Fault::TypeError(arith_action(), type_of(v), None)),
        }
    }

    /// `Jmp A Bx`.
    pub open spec fn do_jmp(self, i: u32) -> Outcome {
        Outcome {
            state: if a_field(i) == 1 {
                self.backward(bx_field(i) as int)
            } else {
                self.forward(bx_field(i) as int)
            },
            result: Ok(Step::Next),
        }
    }

    /// `Test A B`.
    pub open spec fn do_test(self, i: u32) -> Outcome {
        Outcome {
            state: if truthy(self.reg(a_field(i))) == (b_field(i) == 0) {
                self.forward(2)
            } else {
                self.forward(1)
            },
            result: Ok(Step::Next),
        }
    }

    /// `Call A B C` of the closure with handle `h`: the register file
    /// covers the arguments; the closure takes its captured variables from
    /// the caller's registers, as its capture prologue names them; a frame
    /// for the closure goes on the stack, its window behind the register of
    /// the function, its `pc` behind the capture prologue; and the call is
    /// counted. The call that makes the count reach [`MAX_CALLS`] overflows
    /// the stack, with the frame on it.
    pub open spec fn call_closure(self, i: u32, h: usize) -> Outcome {
        let caller = self.top();
        let callee = self.closures[h as int];
        let n = prologue_len(callee.code, 0);
        let regs = grown(self.regs, caller.base + b_field(i) + 1);
        let ncalls = (self.ncalls + 1) as usize;
        Outcome {
            state: State {
                frames: self.frames.push(
                    CallInfo {
                        closure: h,
                        is_builtin: false,
                        base: (caller.base + a_field(i) + 1) as usize,
                        pc: n as usize,
                    },
                ),
                regs,
                closures: self.closures.update(
                    h as int,
                    ClosureView { upvals: captured(callee.upvals, callee.code, n, regs, caller.base as int), ..callee },
                ),
                ncalls,
                ..self
            },
            result: if ncalls >= MAX_CALLS {
                Err(Fault::StackOverflow)
            } else {
                Ok(Step::Next)
            },
        }
    }

    /// `Call A B C`: a native function is left to the driver, with the
    /// window of its arguments set; a closure is called; anything else
    /// cannot be called.
    pub open spec fn do_call(self, i: u32) -> Outcome {
        let f = self.reg(a_field(i));
        match f {
            Val::NativeFunc(id) => Outcome {
                state: State {
                    nci: NativeCallInfo {
                        base: (self.top().base + a_field(i) + 1) as usize,
                        top: (self.top().base + b_field(i)) as usize,
                    },
                    ..self
                },
                result: Ok(Step::Native { func: id, dst: c_field(i) }),
            },
            Val::Closure(h) if h < self.closures.len() => self.call_closure(i, h),
            _ => self.failed(Fault::TypeError(call_action(), type_of(f), None)),
        }
    }

    /// `Return A B`: the value that is returned, `nil` where B is 1, goes to
    /// the register below the frame's window, which is where the function
    /// stood, and to register 0 from the frame at the bottom; the frame
    /// comes off the stack; the captured variables of the closure that
    /// returns are written back to the registers of the caller that they
    /// were taken from; and the caller goes on behind its call.
    pub open spec fn do_return(self, i: u32) -> Outcome {
        let done = self.top();
        let v = if b_field(i) == 1 {
            Val::Nil
        } else {
            self.rk(a_mode_field(i), a_field(i))
        };
        let dst = if done.base == 0 {
            0int
        } else {
            done.base - 1
        };
        let regs = reg_set(self.regs, dst, v);
        let frames = self.frames.drop_last();
        if frames.len() == 0 {
            Outcome { state: State { frames, regs, ..self }, result: Ok(Step::Next) }
        } else {
            let back = State {
                frames,
                regs: written_back(
                    regs,
                    self.closure().upvals,
                    self.closure().upvals.len() as int,
                    frames.last().base as int,
                ),
                ..self
            };
            Outcome { state: back.forward(1), result: Ok(Step::Next) }
        }
    }

    /// `Close A`.
    pub open spec fn do_close(self, i: u32) -> Outcome {
        Outcome {
            state: (State { regs: closed(self.regs, self.top().base + a_field(i)), ..self }).forward(1),
            result: Ok(Step::Next),
        }
    }

    /// The effect of the instruction `i` on a state that is to run it.
    pub open spec fn perform(self, i: u32) -> Outcome {
        match op_of(i) {
            Opcode::Move => self.done_with(a_field(i), self.reg(b_field(i))),
            Opcode::LoadConst => self.done_with(a_field(i), self.konst(bx_field(i) as int)),
            Opcode::LoadBool => self.done_with(a_field(i), Val::Bool(b_field(i) != 0)),
            Opcode::LoadNil => self.done_with(a_field(i), Val::Nil),
            Opcode::GetUpVal => self.done_with(a_field(i), self.upval(b_field(i))),
            Opcode::SetUpVal => Outcome {
                state: self.with_upval(a_field(i), self.reg(b_field(i))).forward(1),
                result: Ok(Step::Next),
            },
            Opcode::GetGlobal => self.do_get_global(i),
            Opcode::SetGlobal => self.do_set_global(i),
            Opcode::NewTable => self.do_new_table(i),
            Opcode::NewArray => self.do_new_array(i),
            Opcode::GetObj => self.do_get_obj(i),
            Opcode::SetObj => self.do_set_obj(i),
            Opcode::Add | Opcode::Sub | Opcode::Mul | Opcode::Div | Opcode::Mod => self.do_arith(i),
            Opcode::Eq | Opcode::Neq => self.do_equal(i),
            Opcode::Gt | Opcode::Ge | Opcode::Lt | Opcode::Le => self.do_order(i),
            Opcode::Neg => self.do_neg(i),
            Opcode::Not => self.done_with(a_field(i), negation(self.rk(b_mode_field(i), b_field(i)))),
            Opcode::Jmp => self.do_jmp(i),
            Opcode::Test => self.do_test(i),
            Opcode::Call => self.do_call(i),
            Opcode::Closure => self.do_closure(i),
            Opcode::Return => self.do_return(i),
            Opcode::Close => self.do_close(i),
        }
    }

    /// One step of the machine. A machine with nothing to run stays as it
    /// is, and so does one whose next word is no instruction, which is an
    /// error. Otherwise the instruction at `pc` of the running frame is
    /// performed.
    pub open spec fn step(self) -> Outcome {
        if !self.in_code() {
            Outcome { state: self, result: Ok(Step::Done) }
        } else if !is_instruction(self.word()) {
            self.failed(Fault::CustomError(bad_instruction()))
        } else {
            self.perform(self.word())
        }
    }

    /// The driver completes an instruction that was left to it: the value
    /// goes to register `dst` of the running frame, and `pc` is one further.
    /// A machine that has nothing to run stays as it is.
    pub open spec fn complete(self, dst: u8, v: Val) -> State {
        if self.in_code() {
            self.done_with(dst, v).state
        } else {
            self
        }
    }

    /// There is an instruction to run, in a frame and a closure within the
    /// bounds of a sound machine.
    pub open spec fn ready(self) -> bool {
        self.in_code() && self.top().base <= MAX_BASE && self.closure().code.len() <= MAX_CODE
    }

    /// A machine is sound if it has made less than [`MAX_CALLS`] calls, no
    /// register window starts above what that many calls can reach, every
    /// frame that waits for a call to return has its `pc` below
    /// [`MAX_CODE`], and no closure has more than [`MAX_CODE`] instructions.
    /// A new machine is sound, and a step that raises no error leaves a
    /// sound machine sound: the machines that a run goes through are sound.
    pub open spec fn wf(self) -> bool {
        &&& self.ncalls < MAX_CALLS
        &&& forall|k: int| 0 <= k < self.frames.len() ==> (#[trigger] self.frames[k]).base <= 256 * self.ncalls
        &&& forall|k: int| 0 <= k < self.frames.len() - 1 ==> (#[trigger] self.frames[k]).pc < MAX_CODE
        &&& forall|h: int| 0 <= h < self.closures.len() ==> (#[trigger] self.closures[h]).code.len() <= MAX_CODE
    }
}

/// A step that raises no error leaves a sound machine sound, and so does a
/// step that raises an error other than the overflow of the stack, which
/// leaves the machine as it was.
pub proof fn lemma_step_sound(s: State)
    requires
        s.wf(),
    ensures
        s.step().result is Ok ==> s.step().state.wf(),
        s.step().result is Err && s.step().result != Err::<Step, Fault>(Fault::StackOverflow) ==> s.step().state
            == s,
{
    if s.in_code() && is_instruction(s.word()) {
        let i = s.word();
        let t = s.step().state;
        let n = s.frames.len() as int;
        assert(s.frames[n - 1].base <= 256 * s.ncalls);
        assert(s.closures[s.top().closure as int].code.len() <= MAX_CODE);
        match op_of(i) {
            Opcode::Call => {
                if s.step().result is Ok {
                    assert forall|k: int| 0 <= k < t.frames.len() implies (#[trigger] t.frames[k]).base <= 256
                        * t.ncalls by {
                        if k < n {
                            assert(t.frames[k] == s.frames[k]);
                        }
                    }
                    assert forall|k: int| 0 <= k < t.frames.len() - 1 implies (#[trigger] t.frames[k]).pc
                        < MAX_CODE by {
                        assert(t.frames[k] == s.frames[k]);
                    }
                    assert forall|h: int| 0 <= h < t.closures.len() implies (#[trigger] t.closures[h]).code.len()
                        <= MAX_CODE by {
                        assert(t.closures[h].code == s.closures[h].code);
                    }
                }
            },
            Opcode::Return => {
                assert forall|k: int| 0 <= k < t.frames.len() implies (#[trigger] t.frames[k]).base <= 256
                    * t.ncalls by {
                    assert(t.frames[k].base == s.frames[k].base);
                }
                assert forall|k: int| 0 <= k < t.frames.len() - 1 implies (#[trigger] t.frames[k]).pc
                    < MAX_CODE by {
                    assert(t.frames[k] == s.frames[k]);
                }
                assert(t.closures == s.closures);
            },
            Opcode::Closure => {
                assert forall|k: int| 0 <= k < t.frames.len() implies (#[trigger] t.frames[k]).base <= 256
                    * t.ncalls by {
                    assert(t.frames[k].base == s.frames[k].base);
                }
                assert forall|k: int| 0 <= k < t.frames.len() - 1 implies (#[trigger] t.frames[k]).pc
                    < MAX_CODE by {
                    assert(t.frames[k] == s.frames[k]);
                }
                assert forall|h: int| 0 <= h < t.closures.len() implies (#[trigger] t.closures[h]).code.len()
                    <= MAX_CODE by {
                    if h < s.closures.len() {
                        assert(t.closures[h] == s.closures[h]);
                    }
                }
            },
            Opcode::SetUpVal => {
                assert forall|k: int| 0 <= k < t.frames.len() implies (#[trigger] t.frames[k]).base <= 256
                    * t.ncalls by {
                    assert(t.frames[k].base == s.frames[k].base);
                }
                assert forall|k: int| 0 <= k < t.frames.len() - 1 implies (#[trigger] t.frames[k]).pc
                    < MAX_CODE by {
                    assert(t.frames[k] == s.frames[k]);
                }
                assert forall|h: int| 0 <= h < t.closures.len() implies (#[trigger] t.closures[h]).code.len()
                    <= MAX_CODE by {
                    assert(t.closures[h].code == s.closures[h].code);
                }
            },
            _ => {
                assert(t.ncalls == s.ncalls);
                assert(t.closures == s.closures);
                assert forall|k: int| 0 <= k < t.frames.len() implies (#[trigger] t.frames[k]).base <= 256
                    * t.ncalls by {
                    assert(t.frames[k].base == s.frames[k].base);
                }
                assert forall|k: int| 0 <= k < t.frames.len() - 1 implies (#[trigger] t.frames[k]).pc
                    < MAX_CODE by {
                    assert(t.frames[k] == s.frames[k]);
                }
            },
        }
    }
}

/// The message for a word that is no instruction.
pub open spec fn bad_instruction() -> Seq<char> {
    "invalid instruction"@
}

} // verus!
