//! The instructions, one function each, and the step of the machine that
//! picks among them.

use vstd::prelude::*;
use vstd::string::*;
use crate::common::array::Array;
use crate::common::closure::{Closure, ClosureView};
use crate::common::number::{less, less_eq, negate};
use crate::common::opcode::Opcode;
use crate::common::table::Table;
use crate::common::text::{chars_of, text_less};
use crate::common::value::{vals, Type, Val, Value};
use crate::vm::code::{
    a_field, b_field, get_a, get_a_mode, get_b, get_b_mode, get_bx, get_c, get_op, is_instruction, is_valid,
    op_of,
};
use crate::vm::error::{Fault, RuntimeError};
use crate::vm::machine::{came_out, set_upval, VM};
use crate::vm::state::{
    upval_set, captured, closed, is_capture, ordered, prologue_len, reg_at, reg_range, table_built,
    written_back, lemma_step_sound, CallInfo, NativeCallInfo, State, Step, MAX_BASE, MAX_CALLS, MAX_CODE,
};

verus! {

/// Tells whether a word is an instruction of a capture prologue.
pub fn capture_word(i: u32) -> (r: bool)
    ensures
        r == is_capture(i),
{
    is_valid(i) && get_op(i) == Opcode::GetUpVal && get_c(i) == 1
}

/// Decides an order instruction: numbers are ordered as doubles, text as in
/// a dictionary, and nothing else has an order.
pub fn decide_order(op: Opcode, a: &Value, b: &Value) -> (r: Result<bool, RuntimeError>)
    ensures
        match ordered(op, a@, b@) {
            Ok(x) => r == Ok::<bool, RuntimeError>(x),
            Err(f) => r matches Err(e) && e@ == f,
        },
{
    match (a, b) {
        (Value::Number(x), Value::Number(y)) => Ok(
            match op {
                Opcode::Gt => less(*x, *y),
                Opcode::Ge => less_eq(*x, *y),
                Opcode::Lt => less(*y, *x),
                _ => less_eq(*y, *x),
            },
        ),
        (Value::String(x), Value::String(y)) => {
            let xs: Vec<char> = chars_of(x.as_str());
            let ys: Vec<char> = chars_of(y.as_str());
            Ok(
                match op {
                    Opcode::Gt => text_less(&xs, &ys),
                    Opcode::Ge => !text_less(&ys, &xs),
                    Opcode::Lt => text_less(&ys, &xs),
                    _ => !text_less(&xs, &ys),
                },
            )
        },
        _ => Err(RuntimeError::of_types("compare", Type::of(a), Type::of(b))),
    }
}

impl VM {
    /// The base of the running frame.
    fn base(&self) -> (b: usize)
        requires
            self@.in_code(),
        ensures
            b == self@.top().base,
    {
        self.call_stack[self.call_stack.len() - 1].base
    }

    /// The handle of the running closure.
    fn running(&self) -> (h: usize)
        requires
            self@.in_code(),
        ensures
            h == self@.top().closure,
            h < self.closures.len(),
    {
        self.call_stack[self.call_stack.len() - 1].closure
    }

    fn op_get_upval(&mut self, i: u32) -> (r: Result<Step, RuntimeError>)
        requires
            old(self)@.ready(),
            is_instruction(i),
            op_of(i) == Opcode::GetUpVal,
        ensures
            came_out(*final(self), r, old(self)@.perform(i)),
    {
        let h: usize = self.running();
        let slot: usize = get_b(i) as usize;
        let v: Value = if slot < self.closures[h].upvals.len() {
            self.closures[h].upvals[slot].1.copy()
        } else {
            Value::Nil
        };
        self.done_with(get_a(i), v)
    }

    fn op_set_upval(&mut self, i: u32) -> (r: Result<Step, RuntimeError>)
        requires
            old(self)@.ready(),
            is_instruction(i),
            op_of(i) == Opcode::SetUpVal,
        ensures
            came_out(*final(self), r, old(self)@.perform(i)),
    {
        let h: usize = self.running();
        let slot: u8 = get_a(i);
        let v: Value = self.reg(get_b(i));
        let source: u8 = if (slot as usize) < self.closures[h].upvals.len() {
            self.closures[h].upvals[slot as usize].0
        } else {
            0
        };
        set_upval(&mut self.closures[h].upvals, slot, source, v);
        assert(self@.closures =~= old(self)@.with_upval(a_field(i), old(self)@.reg(b_field(i))).closures);
        self.forward(1);
        Ok(Step::Next)
    }

    fn op_get_global(&mut self, i: u32) -> (r: Result<Step, RuntimeError>)
        requires
            old(self)@.ready(),
            is_instruction(i),
            op_of(i) == Opcode::GetGlobal,
        ensures
            came_out(*final(self), r, old(self)@.perform(i)),
    {
        let k: Value = self.konst(get_bx(i) as usize);
        match self.env.globals.get(&k) {
            Ok(v) => self.done_with(get_a(i), v),
            Err(e) => Err(e),
        }
    }

    fn op_set_global(&mut self, i: u32) -> (r: Result<Step, RuntimeError>)
        requires
            old(self)@.ready(),
            is_instruction(i),
            op_of(i) == Opcode::SetGlobal,
        ensures
            came_out(*final(self), r, old(self)@.perform(i)),
    {
        let k: Value = self.konst(get_bx(i) as usize);
        let v: Value = self.reg(get_a(i));
        match self.env.set_global(k, v) {
            Ok(()) => {
                self.forward(1);
                Ok(Step::Next)
            },
            Err(e) => Err(e),
        }
    }

    fn op_new_array(&mut self, i: u32) -> (r: Result<Step, RuntimeError>)
        requires
            old(self)@.ready(),
            is_instruction(i),
            op_of(i) == Opcode::NewArray,
        ensures
            came_out(*final(self), r, old(self)@.perform(i)),
    {
        let from: usize = self.base() + get_a(i) as usize;
        let to: usize = self.base() + get_b(i) as usize;
        let mut items: Vec<Value> = Vec::new();
        let mut k: usize = from;
        while k < to
            invariant
                from <= k,
                k <= to || k == from,
                to <= MAX_BASE + 255,
                items.len() == k - from,
                forall|j: int| 0 <= j < items.len() ==> items@[j]@ == reg_at(self@.regs, from + j),
            decreases to - k,
        {
            items.push(self.read(k));
            k += 1;
        }
        assert(vals(items@).len() == reg_range(self@.regs, from as int, to as int).len());
        assert(vals(items@) =~= reg_range(self@.regs, from as int, to as int));
        let h: usize = self.arrays.len();
        self.arrays.push(Array::new(items));
        assert(self@.arrays =~= old(self)@.arrays.push(reg_range(old(self)@.regs, from as int, to as int)));
        self.done_with(get_a(i), Value::Array(h))
    }

    /// Builds a table from the registers `from` up to `to`, read as keys
    /// and values in turn.
    fn build_table(&self, from: usize, to: usize) -> (r: Result<Table, RuntimeError>)
        requires
            to <= MAX_BASE + 255,
        ensures
            match table_built(self@.regs, from as int, to as int, Seq::empty()) {
                Ok(t) => r matches Ok(x) && x@ == t,
                Err(f) => r matches Err(e) && e@ == f,
            },
    {
        let mut tbl: Table = Table::new();
        let mut k: usize = from;
        while k < to
            invariant
                from <= k,
                to <= MAX_BASE + 255,
                k <= to + 1 || k == from,
                table_built(self@.regs, from as int, to as int, Seq::empty()) == table_built(
                    self@.regs,
                    k as int,
                    to as int,
                    tbl@,
                ),
            decreases to + 1 - k,
        {
            let key: Value = self.read(k);
            let val: Value = self.read(k + 1);
            match tbl.insert(key, val) {
                Ok(()) => {},
                Err(e) => {
                    return Err(e);
                },
            }
            k += 2;
        }
        Ok(tbl)
    }

    fn op_new_table(&mut self, i: u32) -> (r: Result<Step, RuntimeError>)
        requires
            old(self)@.ready(),
            is_instruction(i),
            op_of(i) == Opcode::NewTable,
        ensures
            came_out(*final(self), r, old(self)@.perform(i)),
    {
        let from: usize = self.base() + get_a(i) as usize;
        let to: usize = self.base() + get_b(i) as usize;
        match self.build_table(from, to) {
            Ok(tbl) => {
                let h: usize = self.tables.len();
                self.tables.push(tbl);
                assert(self@.tables =~= old(self)@.tables.push(tbl@));
                self.done_with(get_a(i), Value::Table(h))
            },
            Err(e) => Err(e),
        }
    }

    fn op_get_obj(&mut self, i: u32) -> (r: Result<Step, RuntimeError>)
        requires
            old(self)@.ready(),
            is_instruction(i),
            op_of(i) == Opcode::GetObj,
        ensures
            came_out(*final(self), r, old(self)@.perform(i)),
    {
        let obj: Value = self.reg(get_a(i));
        let key: Value = self.rk(get_b_mode(i), get_b(i));
        proof {
            assert(self@.perform(i) == self@.do_get_obj(i));
            assert(self@.arrays.len() == self.arrays.len());
            assert(self@.tables.len() == self.tables.len());
            assert(forall|h: int| 0 <= h < self.arrays.len() ==> self@.arrays[h] == self.arrays@[h]@);
            assert(forall|h: int| 0 <= h < self.tables.len() ==> self@.tables[h] == self.tables@[h]@);
        }
        match obj {
            Value::Array(h) => {
                if h < self.arrays.len() {
                    match self.arrays[h].get(&key) {
                        Ok(v) => self.done_with(get_a(i), v),
                        Err(e) => Err(e),
                    }
                } else {
                    Err(RuntimeError::of_type("index", Type::Array))
                }
            },
            Value::Table(h) => {
                if h < self.tables.len() {
                    match self.tables[h].get(&key) {
                        Ok(v) => self.done_with(get_a(i), v),
                        Err(e) => Err(e),
                    }
                } else {
                    Err(RuntimeError::of_type("index", Type::Table))
                }
            },
            _ => Err(RuntimeError::of_type("index", Type::of(&obj))),
        }
    }

    fn op_set_obj(&mut self, i: u32) -> (r: Result<Step, RuntimeError>)
        requires
            old(self)@.ready(),
            is_instruction(i),
            op_of(i) == Opcode::SetObj,
        ensures
            came_out(*final(self), r, old(self)@.perform(i)),
    {
        let key: Value = self.rk(get_a_mode(i), get_a(i));
        let val: Value = self.rk(get_b_mode(i), get_b(i));
        let obj: Value = self.reg(get_c(i));
        proof {
            assert(self@.perform(i) == self@.do_set_obj(i));
            assert(self@.arrays.len() == self.arrays.len());
            assert(self@.tables.len() == self.tables.len());
            assert(forall|h: int| 0 <= h < self.arrays.len() ==> self@.arrays[h] == self.arrays@[h]@);
            assert(forall|h: int| 0 <= h < self.tables.len() ==> self@.tables[h] == self.tables@[h]@);
        }
        match obj {
            Value::Array(h) => {
                if h < self.arrays.len() {
                    match self.arrays[h].insert(&key, val) {
                        Ok(()) => {
                            assert(self@.arrays =~= old(self)@.arrays.update(h as int, self.arrays[h as int]@));
                            self.forward(1);
                            Ok(Step::Next)
                        },
                        Err(e) => {
                            assert(self@.arrays =~= old(self)@.arrays);
                            Err(e)
                        },
                    }
                } else {
                    Err(RuntimeError::of_type("index", Type::Array))
                }
            },
            Value::Table(h) => {
                if h < self.tables.len() {
                    match self.tables[h].insert(key, val) {
                        Ok(()) => {
                            assert(self@.tables =~= old(self)@.tables.update(h as int, self.tables[h as int]@));
                            self.forward(1);
                            Ok(Step::Next)
                        },
                        Err(e) => {
                            assert(self@.tables =~= old(self)@.tables);
                            Err(e)
                        },
                    }
                } else {
                    Err(RuntimeError::of_type("index", Type::Table))
                }
            },
            _ => Err(RuntimeError::of_type("index", Type::of(&obj))),
        }
    }

    fn op_arith(&mut self, i: u32) -> (r: Result<Step, RuntimeError>)
        requires
            old(self)@.ready(),
            is_instruction(i),
            op_of(i) == Opcode::Add || op_of(i) == Opcode::Sub || op_of(i) == Opcode::Mul || op_of(i)
                == Opcode::Div || op_of(i) == Opcode::Mod,
        ensures
            came_out(*final(self), r, old(self)@.perform(i)),
    {
        let a: Value = self.rk(get_a_mode(i), get_a(i));
        let b: Value = self.rk(get_b_mode(i), get_b(i));
        let op: Opcode = get_op(i);
        assert(self@.perform(i) == self@.do_arith(i));
        match (&a, &b) {
            (Value::Number(x), Value::Number(y)) => Ok(Step::Arith { op, lhs: *x, rhs: *y, dst: get_c(i) }),
            (Value::String(x), Value::String(y)) => {
                if op == Opcode::Add {
                    let mut s: String = x.clone();
                    s.append(y.as_str());
                    self.done_with(get_c(i), Value::String(s))
                } else {
                    Err(RuntimeError::of_types("perform an arithmetic on", Type::String, Type::String))
                }
            },
            _ => Err(RuntimeError::of_types("perform an arithmetic on", Type::of(&a), Type::of(&b))),
        }
    }

    fn op_equal(&mut self, i: u32) -> (r: Result<Step, RuntimeError>)
        requires
            old(self)@.ready(),
            is_instruction(i),
            op_of(i) == Opcode::Eq || op_of(i) == Opcode::Neq,
        ensures
            came_out(*final(self), r, old(self)@.perform(i)),
    {
        let a: Value = self.rk(get_a_mode(i), get_a(i));
        let b: Value = self.rk(get_b_mode(i), get_b(i));
        let same: bool = a.equals(&b);
        let wanted: bool = get_op(i) == Opcode::Eq;
        self.done_with(get_c(i), Value::Bool(same == wanted))
    }

    fn op_order(&mut self, i: u32) -> (r: Result<Step, RuntimeError>)
        requires
            old(self)@.ready(),
            is_instruction(i),
            op_of(i) == Opcode::Gt || op_of(i) == Opcode::Ge || op_of(i) == Opcode::Lt || op_of(i)
                == Opcode::Le,
        ensures
            came_out(*final(self), r, old(self)@.perform(i)),
    {
        let a: Value = self.rk(get_a_mode(i), get_a(i));
        let b: Value = self.rk(get_b_mode(i), get_b(i));
        match decide_order(get_op(i), &a, &b) {
            Ok(x) => self.done_with(get_c(i), Value::Bool(x)),
            Err(e) => Err(e),
        }
    }

    fn op_neg(&mut self, i: u32) -> (r: Result<Step, RuntimeError>)
        requires
            old(self)@.ready(),
            is_instruction(i),
            op_of(i) == Opcode::Neg,
        ensures
            came_out(*final(self), r, old(self)@.perform(i)),
    {
        let v: Value = self.rk(get_b_mode(i), get_b(i));
        match v {
            Value::Number(n) => self.done_with(get_a(i), Value::Number(negate(n))),
            _ => Err(RuntimeError::of_type("perform an arithmetic on", Type::of(&v))),
        }
    }

    fn op_jmp(&mut self, i: u32) -> (r: Result<Step, RuntimeError>)
        requires
            old(self)@.ready(),
            is_instruction(i),
            op_of(i) == Opcode::Jmp,
        ensures
            came_out(*final(self), r, old(self)@.perform(i)),
    {
        if get_a(i) == 1 {
            self.backward(get_bx(i) as usize);
        } else {
            self.forward(get_bx(i) as usize);
        }
        Ok(Step::Next)
    }

    fn op_test(&mut self, i: u32) -> (r: Result<Step, RuntimeError>)
        requires
            old(self)@.ready(),
            is_instruction(i),
            op_of(i) == Opcode::Test,
        ensures
            came_out(*final(self), r, old(self)@.perform(i)),
    {
        let v: Value = self.reg(get_a(i));
        if v.truthy() == (get_b(i) == 0) {
            self.forward(2);
        } else {
            self.forward(1);
        }
        Ok(Step::Next)
    }

    fn op_close(&mut self, i: u32) -> (r: Result<Step, RuntimeError>)
        requires
            old(self)@.ready(),
            is_instruction(i),
            op_of(i) == Opcode::Close,
        ensures
            came_out(*final(self), r, old(self)@.perform(i)),
    {
        let from: usize = self.base() + get_a(i) as usize;
        let mut k: usize = from;
        while k < self.regs.len()
            invariant
                from <= k,
                self.regs.len() == old(self).regs.len(),
                forall|j: int| 0 <= j < self.regs.len() ==> self.regs@[j]@ == (if from <= j < k {
                    Val::Nil
                } else {
                    old(self).regs@[j]@
                }),
                self@ == (State { regs: self@.regs, ..old(self)@ }),
            decreases self.regs.len() - k,
        {
            self.regs[k] = Value::Nil;
            k += 1;
        }
        assert(self@.regs =~= closed(old(self)@.regs, from as int));
        self.forward(1);
        Ok(Step::Next)
    }

    /// Counts the instructions of the capture prologue of a closure.
    pub fn prologue(&self, h: usize) -> (n: usize)
        requires
            h < self.closures.len(),
        ensures
            n == prologue_len(self@.closures[h as int].code, 0),
            n <= self.closures[h as int].code.len(),
    {
        let code: &Vec<u32> = &self.closures[h].code;
        let mut k: usize = 0;
        while k < code.len() && capture_word(code[k])
            invariant
                k <= code.len(),
                prologue_len(code@, 0) == k + prologue_len(code@, k as int),
            decreases code.len() - k,
        {
            k += 1;
        }
        k
    }

    /// Lets a closure take the variables that its prologue names from the
    /// registers of the window at `base`.
    fn capture(&mut self, h: usize, base: usize)
        requires
            h < old(self).closures.len(),
            base <= MAX_BASE,
        ensures
            final(self)@ == (State {
                closures: old(self)@.closures.update(
                    h as int,
                    ClosureView {
                        upvals: captured(
                            old(self)@.closures[h as int].upvals,
                            old(self)@.closures[h as int].code,
                            prologue_len(old(self)@.closures[h as int].code, 0),
                            old(self)@.regs,
                            base as int,
                        ),
                        ..old(self)@.closures[h as int]
                    },
                ),
                ..old(self)@
            }),
            final(self).closures.len() == old(self).closures.len(),
    {
        let n: usize = self.prologue(h);
        let ghost c0 = self@.closures[h as int];
        let mut k: usize = 0;
        assert(self@.closures =~= old(self)@.closures.update(
            h as int,
            ClosureView { upvals: captured(c0.upvals, c0.code, 0, old(self)@.regs, base as int), ..c0 },
        ));
        while k < n
            invariant
                k <= n,
                n <= c0.code.len(),
                h < self.closures.len(),
                self.closures.len() == old(self).closures.len(),
                base <= MAX_BASE,
                c0 == old(self)@.closures[h as int],
                self@ == (State {
                    closures: old(self)@.closures.update(
                        h as int,
                        ClosureView { upvals: captured(c0.upvals, c0.code, k as int, old(self)@.regs, base as int), ..c0 },
                    ),
                    ..old(self)@
                }),
            decreases n - k,
        {
            let ghost before = self@;
            let ghost pre = self.closures@;
            assert(self@.closures[h as int].code == c0.code);
            assert(before.closures[h as int] == self.closures@[h as int]@);
            assert(forall|j: int| 0 <= j < pre.len() ==> before.closures[j] == pre[j]@);
            let i: u32 = self.closures[h].code[k];
            let v: Value = self.read(base + get_b(i) as usize);
            set_upval(&mut self.closures[h].upvals, get_a(i), get_b(i), v);
            k += 1;
            proof {
                let now = self.closures@[h as int]@;
                assert(now.upvals == upval_set(
                    before.closures[h as int].upvals,
                    a_field(i) as int,
                    (b_field(i), reg_at(old(self)@.regs, base + b_field(i))),
                ));
                assert(now.code == c0.code);
                assert(now == (ClosureView { upvals: now.upvals, ..c0 }));
                assert(forall|j: int| 0 <= j < self.closures.len() && j != h ==> self.closures@[j] == pre[j]);
                assert(i == c0.code[k - 1]);
                assert(before.closures[h as int].upvals == captured(
                    c0.upvals,
                    c0.code,
                    k - 1,
                    old(self)@.regs,
                    base as int,
                ));
                assert(captured(c0.upvals, c0.code, k as int, old(self)@.regs, base as int) == now.upvals);
                assert(self@.closures.len() == old(self)@.closures.len());
                assert(self@.closures[h as int] == now);
                let want = old(self)@.closures.update(
                    h as int,
                    ClosureView { upvals: captured(c0.upvals, c0.code, k as int, old(self)@.regs, base as int), ..c0 },
                );
                assert forall|j: int| 0 <= j < self@.closures.len() implies self@.closures[j] == want[j] by {
                    if j != h {
                        assert(self.closures@[j] == pre[j]);
                        assert(before.closures[j] == pre[j]@);
                        assert(self@.closures[j] == self.closures@[j]@);
                    }
                }
            }
            assert(self@.closures =~= old(self)@.closures.update(
                h as int,
                ClosureView { upvals: captured(c0.upvals, c0.code, k as int, old(self)@.regs, base as int), ..c0 },
            ));
        }
    }

    /// Makes a closure of the function with handle `p` for register `x` of
    /// the running frame.
    fn instantiate(&mut self, x: u8, p: usize)
        requires
            old(self)@.ready(),
            p < old(self).closures.len(),
            old(self).closures.len() < usize::MAX,
        ensures
            final(self)@ == old(self)@.instantiate(x, p),
            final(self)@.in_code(),
            final(self)@.closure() == old(self)@.closure(),
    {
        let frame: CallInfo = self.call_stack[self.call_stack.len() - 1];
        let h: usize = self.closures.len();
        let made: Closure = self.closures[p].copy();
        self.closures.push(made);
        assert(self@.closures =~= old(self)@.closures.push(old(self)@.closures[p as int]));
        self.write(frame.base + x as usize, Value::Closure(h));
    }

    fn op_closure(&mut self, i: u32) -> (r: Result<Step, RuntimeError>)
        requires
            old(self)@.ready(),
            is_instruction(i),
            op_of(i) == Opcode::Closure,
        ensures
            came_out(*final(self), r, old(self)@.perform(i)),
    {
        let k: Value = self.konst(get_bx(i) as usize);
        match k {
            Value::Closure(p) => {
                if p < self.closures.len() && self.closures.len() < usize::MAX {
                    self.instantiate(get_a(i), p);
                    self.forward(1);
                    Ok(Step::Next)
                } else {
                    self.done_with(get_a(i), Value::Closure(p))
                }
            },
            _ => self.done_with(get_a(i), k),
        }
    }

    /// Calls the closure with handle `h`.
    fn call_closure(&mut self, i: u32, h: usize) -> (r: Result<Step, RuntimeError>)
        requires
            old(self)@.ready(),
            old(self).ncalls < MAX_CALLS,
            h < old(self).closures.len(),
        ensures
            came_out(*final(self), r, old(self)@.call_closure(i, h)),
    {
        let caller: CallInfo = self.call_stack[self.call_stack.len() - 1];
        self.grow(caller.base + get_b(i) as usize + 1);
        self.capture(h, caller.base);
        let n: usize = self.prologue(h);
        self.call_stack.push(
            CallInfo { closure: h, is_builtin: false, base: caller.base + get_a(i) as usize + 1, pc: n },
        );
        self.ncalls = self.ncalls + 1;
        assert(self@.closures =~= old(self)@.call_closure(i, h).state.closures);
        if self.ncalls >= MAX_CALLS {
            Err(RuntimeError::StackOverflow)
        } else {
            Ok(Step::Next)
        }
    }

    fn op_call(&mut self, i: u32) -> (r: Result<Step, RuntimeError>)
        requires
            old(self)@.ready(),
            old(self).ncalls < MAX_CALLS,
            is_instruction(i),
            op_of(i) == Opcode::Call,
        ensures
            came_out(*final(self), r, old(self)@.perform(i)),
    {
        let f: Value = self.reg(get_a(i));
        let base: usize = self.base();
        match f {
            Value::NativeFunc(id) => {
                self.nci = NativeCallInfo { base: base + get_a(i) as usize + 1, top: base + get_b(i) as usize };
                Ok(Step::Native { func: id, dst: get_c(i) })
            },
            Value::Closure(h) => {
                if h < self.closures.len() {
                    self.call_closure(i, h)
                } else {
                    Err(RuntimeError::of_type("call", Type::Function))
                }
            },
            _ => Err(RuntimeError::of_type("call", Type::of(&f))),
        }
    }

    /// Writes the captured variables of a closure back to the registers, in
    /// the window at `base`, that they were taken from.
    fn write_back(&mut self, h: usize, base: usize)
        requires
            h < old(self).closures.len(),
            base <= MAX_BASE,
        ensures
            final(self)@ == (State {
                regs: written_back(
                    old(self)@.regs,
                    old(self)@.closures[h as int].upvals,
                    old(self)@.closures[h as int].upvals.len() as int,
                    base as int,
                ),
                ..old(self)@
            }),
    {
        let n: usize = self.closures[h].upvals.len();
        let ghost u = self@.closures[h as int].upvals;
        let mut k: usize = 0;
        while k < n
            invariant
                k <= n,
                n == u.len(),
                h < self@.closures.len(),
                base <= MAX_BASE,
                u == old(self)@.closures[h as int].upvals,
                self@ == (State { regs: written_back(old(self)@.regs, u, k as int, base as int), ..old(self)@ }),
            decreases n - k,
        {
            assert(self@.closures[h as int].upvals == u);
            assert(self@.closures.len() == self.closures.len());
            assert(self@.closures[h as int] == self.closures@[h as int]@);
            let slot: u8 = self.closures[h].upvals[k].0;
            let v: Value = self.closures[h].upvals[k].1.copy();
            self.write(base + slot as usize, v);
            k += 1;
        }
    }

    fn op_return(&mut self, i: u32) -> (r: Result<Step, RuntimeError>)
        requires
            old(self)@.ready(),
            old(self)@.wf(),
            is_instruction(i),
            op_of(i) == Opcode::Return,
        ensures
            came_out(*final(self), r, old(self)@.perform(i)),
    {
        let done: CallInfo = self.call_stack[self.call_stack.len() - 1];
        let v: Value = if get_b(i) == 1 {
            Value::Nil
        } else {
            self.rk(get_a_mode(i), get_a(i))
        };
        let dst: usize = if done.base == 0 {
            0
        } else {
            done.base - 1
        };
        self.write(dst, v);
        self.call_stack.pop();
        assert(self@.frames =~= old(self)@.frames.drop_last());
        let n: usize = self.call_stack.len();
        if n > 0 {
            let caller: CallInfo = self.call_stack[n - 1];
            assert(old(self)@.frames[n - 1].base <= 256 * old(self)@.ncalls);
            assert(old(self)@.frames[n - 1].pc < MAX_CODE);
            self.write_back(done.closure, caller.base);
            self.set_pc(caller.pc + 1);
        }
        Ok(Step::Next)
    }

    /// Runs one instruction of a sound machine: what [`State::step`] says.
    /// The machine is sound afterwards, unless the step raised the overflow
    /// of the stack.
    pub fn exec(&mut self) -> (r: Result<Step, RuntimeError>)
        requires
            old(self)@.wf(),
        ensures
            came_out(*final(self), r, old(self)@.step()),
            r is Ok ==> final(self)@.wf(),
            r matches Err(e) && e@ != Fault::StackOverflow ==> final(self)@ == old(self)@,
    {
        proof {
            lemma_step_sound(self@);
        }
        if !self.in_code() {
            return Ok(Step::Done);
        }
        let call: CallInfo = self.call_stack[self.call_stack.len() - 1];
        proof {
            let n = self@.frames.len() as int;
            assert(self@.frames[n - 1].base <= 256 * self@.ncalls);
            assert(self@.closures[call.closure as int].code.len() <= MAX_CODE);
        }
        let i: u32 = self.closures[call.closure].code[call.pc];
        if !is_valid(i) {
            return Err(RuntimeError::CustomError(String::from_str("invalid instruction")));
        }
        match get_op(i) {
            Opcode::Move => {
                let v: Value = self.reg(get_b(i));
                self.done_with(get_a(i), v)
            },
            Opcode::LoadConst => {
                let v: Value = self.konst(get_bx(i) as usize);
                self.done_with(get_a(i), v)
            },
            Opcode::LoadBool => self.done_with(get_a(i), Value::Bool(get_b(i) != 0)),
            Opcode::LoadNil => self.done_with(get_a(i), Value::Nil),
            Opcode::GetUpVal => self.op_get_upval(i),
            Opcode::SetUpVal => self.op_set_upval(i),
            Opcode::GetGlobal => self.op_get_global(i),
            Opcode::SetGlobal => self.op_set_global(i),
            Opcode::NewTable => self.op_new_table(i),
            Opcode::NewArray => self.op_new_array(i),
            Opcode::GetObj => self.op_get_obj(i),
            Opcode::SetObj => self.op_set_obj(i),
            Opcode::Add | Opcode::Sub | Opcode::Mul | Opcode::Div | Opcode::Mod => self.op_arith(i),
            Opcode::Eq | Opcode::Neq => self.op_equal(i),
            Opcode::Gt | Opcode::Ge | Opcode::Lt | Opcode::Le => self.op_order(i),
            Opcode::Neg => self.op_neg(i),
            Opcode::Not => {
                let v: Value = self.rk(get_b_mode(i), get_b(i));
                self.done_with(get_a(i), Value::Bool(!v.truthy()))
            },
            Opcode::Jmp => self.op_jmp(i),
            Opcode::Test => self.op_test(i),
            Opcode::Call => self.op_call(i),
            Opcode::Closure => self.op_closure(i),
            Opcode::Return => self.op_return(i),
            Opcode::Close => self.op_close(i),
        }
    }

    /// Completes an instruction of a sound machine that was left to the
    /// driver: the value goes to register `dst` of the running frame, and
    /// `pc` is one further.
    pub fn complete(&mut self, dst: u8, v: Value)
        requires
            old(self)@.wf(),
        ensures
            final(self)@ == old(self)@.complete(dst, v@),
            final(self)@.wf(),
    {
        if self.in_code() {
            proof {
                let n = self@.frames.len() as int;
                assert(self@.frames[n - 1].base <= 256 * self@.ncalls);
                assert(self@.closures[self@.top().closure as int].code.len() <= MAX_CODE);
            }
            let _ = self.done_with(dst, v);
            proof {
                let s = old(self)@;
                let t = self@;
                assert(t.closures == s.closures);
                assert forall|k: int| 0 <= k < t.frames.len() implies (#[trigger] t.frames[k]).base <= 256
                    * t.ncalls by {
                    assert(t.frames[k].base == s.frames[k].base);
                }
            }
        }
    }

    /// Tells whether the machine is sound.
    pub fn sound(&self) -> (r: bool)
        ensures
            r == self@.wf(),
    {
        if self.ncalls >= MAX_CALLS {
            return false;
        }
        let bound: usize = 256 * self.ncalls;
        let mut k: usize = 0;
        while k < self.call_stack.len()
            invariant
                k <= self.call_stack.len(),
                bound == 256 * self.ncalls,
                forall|j: int| 0 <= j < k ==> (#[trigger] self@.frames[j]).base <= bound,
                forall|j: int| 0 <= j < k && j < self.call_stack.len() - 1 ==> (#[trigger] self@.frames[j]).pc < MAX_CODE,
            decreases self.call_stack.len() - k,
        {
            if self.call_stack[k].base > bound {
                assert(self@.frames[k as int].base > 256 * self@.ncalls);
                return false;
            }
            if k + 1 < self.call_stack.len() && self.call_stack[k].pc >= MAX_CODE {
                assert(self@.frames[k as int].pc >= MAX_CODE);
                return false;
            }
            k += 1;
        }
        let mut h: usize = 0;
        while h < self.closures.len()
            invariant
                h <= self.closures.len(),
                self@.closures.len() == self.closures.len(),
                forall|j: int| 0 <= j < h ==> (#[trigger] self@.closures[j]).code.len() <= MAX_CODE,
            decreases self.closures.len() - h,
        {
            assert(self@.closures[h as int] == self.closures@[h as int]@);
            if self.closures[h].code.len() > MAX_CODE {
                assert(self@.closures[h as int].code.len() > MAX_CODE);
                return false;
            }
            h += 1;
        }
        true
    }
}

} // verus!
