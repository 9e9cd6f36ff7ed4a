//! What holds of every run of the machine, stated of its steps.

use vstd::prelude::*;
use crate::common::opcode::Opcode;
use crate::common::value::{lemma_identity, lemma_not_not, truthy, val_eq, Val};
use crate::vm::code::{a_field, a_mode_field, b_field, b_mode_field, c_field, is_instruction, op_of};
use crate::vm::error::Fault;
use crate::vm::state::{
    captured, grown, is_capture, lemma_step_sound, prologue_len, reg_at, reg_set, written_back, CallInfo, State, Step,
    MAX_CALLS, MAX_CODE,
};

verus! {

/// Register `x` of the frame that runs in `s`, read in the state `t`.
pub open spec fn reg_of(t: State, s: State, x: u8) -> Val {
    reg_at(t.regs, s.top().base + x)
}

impl State {
    /// The instruction `i` is the next to run.
    pub open spec fn runs(self, i: u32) -> bool {
        self.in_code() && self.word() == i && is_instruction(i)
    }

    /// The state after the next step.
    pub open spec fn next(self) -> State {
        self.step().state
    }
}

/// `Not` run twice gives the truth value: where `Not` takes register `x`
/// into a register and a second `Not` takes that register into register
/// `u`, both steps succeed and `u` then holds `bool(x)`, which is false for
/// `nil` and `false` and true for every other value. The frame is two
/// instructions further, and `x`, where it is neither of the two registers
/// written, holds what it held.
pub proof fn lemma_not_twice(s: State, i: u32, j: u32)
    requires
        s.wf(),
        s.runs(i),
        op_of(i) == Opcode::Not,
        b_mode_field(i) == 0,
        s.next().runs(j),
        op_of(j) == Opcode::Not,
        b_mode_field(j) == 0,
        b_field(j) == a_field(i),
    ensures
        s.step().result == Ok::<Step, Fault>(Step::Next),
        s.next().step().result == Ok::<Step, Fault>(Step::Next),
        reg_of(s.next().next(), s, a_field(j)) == Val::Bool(truthy(s.reg(b_field(i)))),
        truthy(s.reg(b_field(i))) == !(s.reg(b_field(i)) is Nil || s.reg(b_field(i)) == Val::Bool(false)),
        s.next().next().top().pc == s.top().pc + 2,
        s.next().next().frames.len() == s.frames.len(),
        b_field(i) != a_field(i) && b_field(i) != a_field(j) ==> reg_of(s.next().next(), s, b_field(i)) == s.reg(
            b_field(i),
        ),
{
    lemma_not_not(s.reg(b_field(i)));
    lemma_step_sound(s);
    let t = s.next();
    assert(s.closures[s.top().closure as int].code.len() <= MAX_CODE);
    assert(t.closures[t.top().closure as int].code.len() <= MAX_CODE);
    assert(t.top().base == s.top().base);
    assert(t.top().pc == s.top().pc + 1);
    assert(t.reg(b_field(i)) == s.reg(b_field(i)) || b_field(i) == a_field(i));
}

/// Two arrays made one after the other are different objects: where
/// `NewArray` runs into register `a` and then into another register `b`, and
/// then `Eq` or `Neq` compares the two registers into register `c`, all three
/// steps succeed and `c` holds `false` after `Eq` and `true` after `Neq`.
pub proof fn lemma_fresh_arrays_differ(s: State, i: u32, j: u32, k: u32)
    requires
        s.arrays.len() < usize::MAX,
        s.runs(i),
        op_of(i) == Opcode::NewArray,
        s.next().runs(j),
        op_of(j) == Opcode::NewArray,
        a_field(i) != a_field(j),
        s.next().next().runs(k),
        op_of(k) == Opcode::Eq || op_of(k) == Opcode::Neq,
        a_mode_field(k) == 0 && a_field(k) == a_field(i),
        b_mode_field(k) == 0 && b_field(k) == a_field(j),
    ensures
        s.step().result == Ok::<Step, Fault>(Step::Next),
        s.next().step().result == Ok::<Step, Fault>(Step::Next),
        s.next().next().step().result == Ok::<Step, Fault>(Step::Next),
        reg_of(s.next().next().next(), s, c_field(k)) == Val::Bool(op_of(k) == Opcode::Neq),
{
    let t = s.next();
    let u = t.next();
    assert(t.top().base == s.top().base);
    assert(u.top().base == s.top().base);
    assert(t.reg(a_field(i)) == Val::Array(s.arrays.len() as usize));
    assert(u.reg(a_field(j)) == Val::Array((s.arrays.len() + 1) as usize));
    assert(u.reg(a_field(i)) == Val::Array(s.arrays.len() as usize));
    lemma_identity(s.arrays.len() as usize, (s.arrays.len() + 1) as usize);
}

/// An array is equal to itself: where `NewArray` runs into register `a` and
/// then `Eq` or `Neq` compares that register with itself into register `c`,
/// both steps succeed and `c` holds `true` after `Eq` and `false` after
/// `Neq`.
pub proof fn lemma_fresh_array_is_itself(s: State, i: u32, j: u32)
    requires
        s.runs(i),
        op_of(i) == Opcode::NewArray,
        s.next().runs(j),
        op_of(j) == Opcode::Eq || op_of(j) == Opcode::Neq,
        a_mode_field(j) == 0 && a_field(j) == a_field(i),
        b_mode_field(j) == 0 && b_field(j) == a_field(i),
    ensures
        s.step().result == Ok::<Step, Fault>(Step::Next),
        s.next().step().result == Ok::<Step, Fault>(Step::Next),
        reg_of(s.next().next(), s, c_field(j)) == Val::Bool(op_of(j) == Opcode::Eq),
{
    let t = s.next();
    assert(t.top().base == s.top().base);
    assert(t.reg(a_field(i)) == Val::Array(s.arrays.len() as usize));
}

/// A reference that is moved is still the same object: where `Move` takes
/// register `x` into register `t`, and then `Eq` or `Neq` compares the two
/// registers into register `c`, both steps succeed, and where `x` holds an
/// array, a table or a function, `c` holds `true` after `Eq` and `false`
/// after `Neq`.
pub proof fn lemma_moved_is_same(s: State, i: u32, j: u32)
    requires
        s.runs(i),
        op_of(i) == Opcode::Move,
        s.next().runs(j),
        op_of(j) == Opcode::Eq || op_of(j) == Opcode::Neq,
        a_mode_field(j) == 0 && a_field(j) == b_field(i),
        b_mode_field(j) == 0 && b_field(j) == a_field(i),
        s.reg(b_field(i)) is Array || s.reg(b_field(i)) is Table || s.reg(b_field(i)) is Closure || s.reg(
            b_field(i),
        ) is NativeFunc,
    ensures
        s.step().result == Ok::<Step, Fault>(Step::Next),
        s.next().step().result == Ok::<Step, Fault>(Step::Next),
        reg_of(s.next().next(), s, c_field(j)) == Val::Bool(op_of(j) == Opcode::Eq),
{
    let t = s.next();
    let v = s.reg(b_field(i));
    assert(t.top().base == s.top().base);
    assert(t.reg(a_field(i)) == v);
    assert(t.reg(b_field(i)) == v);
    assert(val_eq(v, v));
}

/// What a prologue captures: each of its first `n` instructions whose slot
/// no later one of them names has put in its slot the register it names
/// and what that register held in the window at `base`.
pub proof fn lemma_captured(u: Seq<(u8, Val)>, code: Seq<u32>, n: int, regs: Seq<Val>, base: int)
    requires
        0 <= n <= code.len(),
    ensures
        captured(u, code, n, regs, base).len() >= u.len(),
        forall|k: int|
            0 <= k < n && (forall|j: int| k < j < n ==> a_field(code[j]) != a_field(#[trigger] code[k])) ==> {
                &&& a_field(code[k]) < captured(u, code, n, regs, base).len()
                &&& captured(u, code, n, regs, base)[a_field(code[k]) as int] == (
                    b_field(code[k]),
                    reg_at(regs, base + b_field(code[k])),
                )
            },
    decreases n,
{
    if n > 0 {
        lemma_captured(u, code, n - 1, regs, base);
        let before = captured(u, code, n - 1, regs, base);
        let after = captured(u, code, n, regs, base);
        assert forall|k: int|
            0 <= k < n && (forall|j: int| k < j < n ==> a_field(code[j]) != a_field(#[trigger] code[k])) implies {
            &&& a_field(code[k]) < after.len()
            &&& after[a_field(code[k]) as int] == (b_field(code[k]), reg_at(regs, base + b_field(code[k])))
        } by {
            if k < n - 1 {
                assert(a_field(code[n - 1]) != a_field(code[k]));
                assert(forall|j: int| k < j < n - 1 ==> a_field(code[j]) != a_field(code[k]));
                assert(after[a_field(code[k]) as int] == before[a_field(code[k]) as int]);
            }
        }
    }
}

/// What a return writes back: each of the first `n` captured variables
/// whose register no later one of them names is in that register of the
/// window at `base`, and a register that none of them names holds what it
/// held.
pub proof fn lemma_written_back(regs: Seq<Val>, u: Seq<(u8, Val)>, n: int, base: int)
    requires
        0 <= n <= u.len(),
        0 <= base,
    ensures
        forall|k: int|
            0 <= k < n && (forall|j: int| k < j < n ==> u[j].0 != (#[trigger] u[k]).0) ==> reg_at(
                written_back(regs, u, n, base),
                base + u[k].0,
            ) == u[k].1,
        forall|p: int|
            0 <= p && (forall|k: int| 0 <= k < n ==> base + (#[trigger] u[k]).0 != p) ==> reg_at(
                #[trigger] written_back(regs, u, n, base),
                p,
            ) == reg_at(regs, p),
    decreases n,
{
    if n > 0 {
        lemma_written_back(regs, u, n - 1, base);
        let before = written_back(regs, u, n - 1, base);
        let after = written_back(regs, u, n, base);
        assert forall|k: int|
            0 <= k < n && (forall|j: int| k < j < n ==> u[j].0 != (#[trigger] u[k]).0) implies reg_at(
            after,
            base + u[k].0,
        ) == u[k].1 by {
            if k < n - 1 {
                assert(u[n - 1].0 != u[k].0);
                assert(forall|j: int| k < j < n - 1 ==> u[j].0 != u[k].0);
                assert(reg_at(after, base + u[k].0) == reg_at(before, base + u[k].0));
            }
        }
        assert forall|p: int| 0 <= p && (forall|k: int| 0 <= k < n ==> base + (#[trigger] u[k]).0 != p) implies reg_at(
            after,
            p,
        ) == reg_at(regs, p) by {
            assert(base + u[n - 1].0 != p);
            assert(forall|k: int| 0 <= k < n - 1 ==> base + (#[trigger] u[k]).0 != p);
            assert(reg_at(after, p) == reg_at(before, p));
        }
    }
}

/// A call captures from the caller: where `Call` runs on a closure, a frame
/// for it goes on the stack, its window behind the register of the
/// function and its `pc` behind the capture prologue; the caller stays
/// where it is; the call is counted, and overflows the stack if and only if
/// the count reaches [`MAX_CALLS`]; and each instruction of the prologue
/// whose slot no later one names has put in its slot the register it names
/// and what that register holds in the caller's window.
pub proof fn lemma_call_captures(s: State, i: u32, h: usize)
    requires
        s.wf(),
        s.runs(i),
        op_of(i) == Opcode::Call,
        s.reg(a_field(i)) == Val::Closure(h),
        h < s.closures.len(),
    ensures
        s.next().frames == s.frames.push(
            CallInfo {
                closure: h,
                is_builtin: false,
                base: (s.top().base + a_field(i) + 1) as usize,
                pc: prologue_len(s.closures[h as int].code, 0) as usize,
            },
        ),
        s.next().frames.last().base == s.top().base + a_field(i) + 1,
        s.next().ncalls == s.ncalls + 1,
        s.step().result is Err <==> s.ncalls + 1 >= MAX_CALLS,
        s.step().result is Err ==> s.step().result == Err::<Step, Fault>(Fault::StackOverflow),
        s.next().closures[h as int].code == s.closures[h as int].code,
        forall|k: int|
            0 <= k < prologue_len(s.closures[h as int].code, 0) && (forall|j: int|
                k < j < prologue_len(s.closures[h as int].code, 0) ==> a_field(s.closures[h as int].code[j])
                    != a_field(#[trigger] s.closures[h as int].code[k])) ==> {
                &&& a_field(s.closures[h as int].code[k]) < s.next().closures[h as int].upvals.len()
                &&& s.next().closures[h as int].upvals[a_field(s.closures[h as int].code[k]) as int] == (
                    b_field(s.closures[h as int].code[k]),
                    s.reg(b_field(s.closures[h as int].code[k])),
                )
            },
{
    let code = s.closures[h as int].code;
    let n = prologue_len(code, 0);
    lemma_prologue_len(code, 0);
    let regs = grown(s.regs, s.top().base + b_field(i) + 1);
    lemma_captured(s.closures[h as int].upvals, code, n, regs, s.top().base as int);
    assert(s.frames[s.frames.len() - 1].base <= 256 * s.ncalls);
    assert forall|x: u8| reg_at(regs, s.top().base + x) == s.reg(x) by {}
}

/// A prologue is no longer than the code it stands in.
pub proof fn lemma_prologue_len(code: Seq<u32>, from: int)
    requires
        0 <= from,
    ensures
        0 <= prologue_len(code, from),
        from + prologue_len(code, from) <= code.len() || prologue_len(code, from) == 0,
    decreases code.len() - from,
{
    if from < code.len() && is_capture(code[from]) {
        lemma_prologue_len(code, from + 1);
    }
}

/// A return writes back to the caller: where `Return` runs in a frame
/// above another, the frame comes off the stack and the caller is one
/// instruction further; each captured variable of the closure that returns
/// whose register no later one names is in that register of the caller's
/// window; and a register that is neither one of those nor the one that
/// takes the returned value holds what it held.
pub proof fn lemma_return_writes_back(s: State, i: u32)
    requires
        s.wf(),
        s.runs(i),
        op_of(i) == Opcode::Return,
        s.frames.len() >= 2,
    ensures
        s.step().result == Ok::<Step, Fault>(Step::Next),
        s.next().frames.len() == s.frames.len() - 1,
        s.next().top().pc == s.frames[s.frames.len() - 2].pc + 1,
        s.next().top().base == s.frames[s.frames.len() - 2].base,
        forall|k: int|
            0 <= k < s.closure().upvals.len() && (forall|j: int|
                k < j < s.closure().upvals.len() ==> s.closure().upvals[j].0 != (
                #[trigger] s.closure().upvals[k]).0) ==> reg_at(
                s.next().regs,
                s.frames[s.frames.len() - 2].base + s.closure().upvals[k].0,
            ) == s.closure().upvals[k].1,
{
    let u = s.closure().upvals;
    let cb = s.frames[s.frames.len() - 2].base as int;
    let dst = if s.top().base == 0 {
        0int
    } else {
        s.top().base - 1
    };
    let v = if b_field(i) == 1 {
        Val::Nil
    } else {
        s.rk(a_mode_field(i), a_field(i))
    };
    let regs = reg_set(s.regs, dst, v);
    lemma_written_back(regs, u, u.len() as int, cb);
    assert(s.frames[s.frames.len() - 2].pc < MAX_CODE);
    assert(s.frames.drop_last().last() == s.frames[s.frames.len() - 2]);
}

} // verus!
