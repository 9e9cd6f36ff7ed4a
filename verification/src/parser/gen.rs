//! The compiler: one walk over the syntax tree that emits the code of a
//! closure, allocates registers, pools constants and patches jumps.

use vstd::prelude::*;
use vstd::string::*;
use crate::common::closure::{closure_views, Closure, ClosureView};
use crate::parser::model::{
    args_from, assignment, binary, block_stmt, call, candidates, child_of, condition, exp2nextreg, expr,
    fn_stmt, for_stmt, fresh, function, if_stmt, items_from, let_stmt, load_array, load_index, load_table,
    logical, pairs_from, program, program_from, rc2nextreg, rc2reg, return_stmt, stmt, unary, walk, walk_all,
    while_stmt, with_params, find_const, find_up, find_var, opcode_of, CompileError, Draft, Failure, Local,
    Outer, MAX_CONSTS,
};
use crate::parser::ast::{
    expr_view, exprs_view, lemma_exprs_index, lemma_nodes_index, lemma_pairs_index, lemma_texts_index,
    node_view, nodes_view, pairs_view, texts, BinOp, Expr, ExprM, Node, Stmt, StmtM, UnOp,
};
use crate::common::opcode::Opcode;
use crate::common::text::{decimal, push_decimal, push_str, string_of};
use crate::common::value::{val_eq, Val, Value};
use crate::vm::code::{
    a_field, abx_word, bx_field, get_op, is_instruction, lemma_abc_round_trip, lemma_abx_round_trip,
    make_abc, make_abx, op_of, set_mode,
};

verus! {

/// A local variable: its name and its register.
#[derive(Debug, Clone, PartialEq)]
pub struct VarInfo {
    pub name: String,
    pub pos: u8,
}

impl VarInfo {
    /// A local variable of the given name in the given register.
    pub fn new(name: String, pos: u8) -> (v: VarInfo)
        ensures
            v.name == name,
            v.pos == pos,
    {
        VarInfo { name, pos }
    }
}

/// A variable of an enclosing function that this function may capture.
/// Until it is captured `pos` is its register in the enclosing function;
/// from then on `pos` is its slot among the captured variables.
#[derive(Debug, Clone, PartialEq)]
pub struct UpInfo {
    pub name: String,
    pub pos: u8,
    pub captured: bool,
}

/// A jump instruction.
pub open spec fn is_jump(w: u32) -> bool {
    is_instruction(w) && op_of(w) == Opcode::Jmp
}

/// Where the jump `w` at index `at` goes: back by Bx where A is 1, else
/// forward by Bx.
pub open spec fn jump_target(w: u32, at: int) -> int {
    if a_field(w) == 1 {
        at - bx_field(w)
    } else {
        at + bx_field(w)
    }
}

/// Every jump in the code goes to an index from 0 to `bound`.
pub open spec fn jumps_upto(code: Seq<u32>, bound: int) -> bool {
    forall|i: int| 0 <= i < code.len() && is_jump(#[trigger] code[i]) ==> 0 <= jump_target(code[i], i) <= bound
}

/// Every word of the code is an instruction.
pub open spec fn all_instructions(code: Seq<u32>) -> bool {
    forall|i: int| 0 <= i < code.len() ==> is_instruction(#[trigger] code[i])
}

/// No two constants of a pool are equal.
pub open spec fn unique_consts(c: Seq<Val>) -> bool {
    forall|i: int, j: int| 0 <= i < c.len() && 0 <= j < c.len() && val_eq(c[i], c[j]) ==> i == j
}

/// What holds of a closure that the compiler has finished: it has a line
/// for each instruction, no constant twice and at most 65,535 of them, only
/// instructions in its code, and every jump goes to an instruction of the
/// code.
pub open spec fn finished(c: ClosureView) -> bool {
    &&& c.lines.len() == c.code.len()
    &&& c.consts.len() <= MAX_CONSTS
    &&& unique_consts(c.consts)
    &&& all_instructions(c.code)
    &&& c.code.len() > 0
    &&& jumps_upto(c.code, c.code.len() - 1)
}

/// What `find_const` finds equals the value, and nothing before it does.
pub proof fn lemma_find_const(c: Seq<Val>, v: Val, from: int)
    requires
        0 <= from,
    ensures
        from <= find_const(c, v, from) || find_const(c, v, from) == c.len(),
        find_const(c, v, from) <= c.len(),
        find_const(c, v, from) < c.len() ==> val_eq(c[find_const(c, v, from)], v),
        forall|i: int| from <= i < find_const(c, v, from) ==> !val_eq(c[i], v),
    decreases c.len() - from,
{
    if from < c.len() && !val_eq(c[from], v) {
        lemma_find_const(c, v, from + 1);
    }
}

/// Equality of values does not depend on the side a value stands on.
pub proof fn lemma_val_eq_symmetric(a: Val, b: Val)
    ensures
        val_eq(a, b) == val_eq(b, a),
{
}

/// The compiler of one function.
pub struct Compiler {
    /// The function being compiled.
    pub closure: Closure,
    /// The functions compiled so far for the function literals met, each at
    /// the handle by which constants refer to it.
    pub funcs: Vec<Closure>,
    /// The first register that is free for a temporary value.
    pub freereg: u8,
    /// The number of registers that hold local variables.
    pub nvars: u8,
    /// The local variables in scope, the newest first.
    pub vars: Vec<VarInfo>,
    /// The variables of the enclosing functions.
    pub upvals: Vec<UpInfo>,
    /// The number of captured variables, which is the number of
    /// instructions in the capture prologue.
    pub nup: u8,
    /// The name of the file being compiled.
    pub name: String,
    /// The line of the statement being compiled.
    pub line: usize,
    /// The number of instructions emitted.
    pub ni: usize,
    /// The highest index that a jump emitted so far goes to.
    pub reach: usize,
}

/// The views of a sequence of local variables.
pub open spec fn local_views(s: Seq<VarInfo>) -> Seq<Local> {
    Seq::new(s.len(), |i: int| Local { name: s[i].name@, pos: s[i].pos })
}

/// The views of a sequence of variables of enclosing functions.
pub open spec fn outer_views(s: Seq<UpInfo>) -> Seq<Outer> {
    Seq::new(s.len(), |i: int| Outer { name: s[i].name@, pos: s[i].pos, captured: s[i].captured })
}

impl View for Compiler {
    type V = Draft;

    open spec fn view(&self) -> Draft {
        Draft {
            closure: self.closure@,
            funcs: closure_views(self.funcs@),
            freereg: self.freereg,
            nvars: self.nvars,
            vars: local_views(self.vars@),
            upvals: outer_views(self.upvals@),
            nup: self.nup,
            name: self.name@,
            line: self.line,
            reach: self.reach,
        }
    }
}

/// A step of the compiler came to what the model says: where the model
/// gives a draft and a value, the compiler is that draft and returned that
/// value; where the model fails, the compiler failed for the same reason,
/// at the same line, and is the draft that the failure left.
pub open spec fn gave<T>(r: Result<T, CompileError>, c: Compiler, want: Result<(Draft, T), Failure>) -> bool {
    match want {
        Ok((d, v)) => r == Ok::<T, CompileError>(v) && c@ == d,
        Err(f) => r == Err::<T, CompileError>(f.kind) && c.line == f.line && c@ == f.at,
    }
}

/// A step of the compiler that returns no value came to what the model
/// says.
pub open spec fn did(r: Result<(), CompileError>, c: Compiler, want: Result<Draft, Failure>) -> bool {
    match want {
        Ok(d) => r is Ok && c@ == d,
        Err(f) => r == Err::<(), CompileError>(f.kind) && c.line == f.line && c@ == f.at,
    }
}

/// What every step of a compilation keeps: the compiler's invariant, the
/// registers in use, and the instructions emitted after the prologue, to
/// which a step can only add.
pub open spec fn kept(pre: Compiler, post: Compiler) -> bool {
    &&& post.inv()
    &&& post.body_len() >= pre.body_len()
    &&& post.nvars == pre.nvars
    &&& post.freereg == pre.freereg
    &&& post.name@ == pre.name@
}

/// The pool keeps its constants apart. Where the pool holds a constant
/// that equals `v`, it stays as it is and the index is that of a constant
/// that equals `v`; where it holds none, `v` goes to its end, which is the
/// index, and the constants before stay; either way no two constants of the
/// pool are equal afterwards. It fails if and only if the pool is full and
/// holds no constant that equals `v`, and then the draft is unchanged.
pub proof fn lemma_resolve_const(d: Draft, v: Val)
    requires
        unique_consts(d.closure.consts),
        d.closure.consts.len() <= MAX_CONSTS,
    ensures
        d.resolve_const(v) is Err <==> d.closure.consts.len() == MAX_CONSTS && !held(d.closure.consts, v),
        d.resolve_const(v) matches Err(f) ==> f.at == d && f.kind == CompileError::ConstantOverflow,
        d.resolve_const(v) matches Ok((r, k)) ==> {
            &&& r == (Draft { closure: ClosureView { consts: r.closure.consts, ..d.closure }, ..d })
            &&& k < r.closure.consts.len()
            &&& unique_consts(r.closure.consts)
            &&& held(d.closure.consts, v) ==> r.closure.consts == d.closure.consts && val_eq(
                r.closure.consts[k as int],
                v,
            )
            &&& !held(d.closure.consts, v) ==> r.closure.consts == d.closure.consts.push(v) && k
                == d.closure.consts.len() && r.closure.consts[k as int] == v
        },
{
    let pool = d.closure.consts;
    let n = pool.len() as int;
    lemma_find_const(pool, v, 0);
    if find_const(pool, v, 0) < n {
        assert(val_eq(pool[find_const(pool, v, 0)], v));
    } else {
        assert forall|a: int, b: int|
            0 <= a < pool.push(v).len() && 0 <= b < pool.push(v).len() && val_eq(
                pool.push(v)[a],
                pool.push(v)[b],
            ) implies a == b by {
            if a < n && b == n {
                assert(!val_eq(pool[a], v));
            }
            if b < n && a == n {
                assert(!val_eq(pool[b], v));
                lemma_val_eq_symmetric(v, pool[b]);
            }
        }
    }
}

/// The pool holds a constant that equals `v`.
pub open spec fn held(c: Seq<Val>, v: Val) -> bool {
    exists|i: int| 0 <= i < c.len() && val_eq(#[trigger] c[i], v)
}

/// The text in which a compilation reports an error: the file, a colon, the
/// line, a colon and a space, and the message.
pub open spec fn error_report(file: Seq<char>, line: nat, kind: CompileError) -> Seq<char> {
    file + ":"@ + decimal(line) + ": "@ + kind.text()
}

/// What a statement is compiled from: a compiler between two steps with no
/// temporary register in use.
pub open spec fn stmt_pre(c: Compiler) -> bool {
    c.wf() && c.freereg == c.nvars
}

/// What a statement leaves: the compiler's invariant, no temporary register
/// in use, and no less local variables or instructions than before.
pub open spec fn stmt_post(pre: Compiler, post: Compiler) -> bool {
    &&& post.inv()
    &&& post.freereg == post.nvars
    &&& post.nvars >= pre.nvars
    &&& post.body_len() >= pre.body_len()
    &&& post.name@ == pre.name@
}

/// Gives the opcode that carries out a binary operator.
pub fn binop_opcode(op: BinOp) -> (r: Opcode)
    ensures
        r == opcode_of(op),
        r != Opcode::Jmp,
{
    match op {
        BinOp::Add => Opcode::Add,
        BinOp::Sub => Opcode::Sub,
        BinOp::Mul => Opcode::Mul,
        BinOp::Div => Opcode::Div,
        BinOp::Mod => Opcode::Mod,
        BinOp::Eq => Opcode::Eq,
        BinOp::Neq => Opcode::Neq,
        BinOp::Lt => Opcode::Lt,
        BinOp::Gt => Opcode::Gt,
        BinOp::Le => Opcode::Le,
        _ => Opcode::Ge,
    }
}

/// Writes an error as a compilation reports it.
pub fn report_error(file: &str, line: usize, e: CompileError) -> (s: String)
    ensures
        s@ == error_report(file@, line as nat, e),
{
    let mut out: Vec<char> = Vec::new();
    push_str(&mut out, file);
    push_str(&mut out, ":");
    push_decimal(&mut out, line as u64);
    push_str(&mut out, ": ");
    push_str(&mut out, e.as_str());
    assert(out@ =~= error_report(file@, line as nat, e));
    string_of(&out)
}

impl Compiler {
    /// What holds of a compiler between any two steps, but for the order of
    /// `nvars` and `freereg`.
    pub open spec fn inv(&self) -> bool {
        &&& self.closure.lines.len() == self.closure.code.len()
        &&& self.ni == self.closure.code.len()
        &&& self.nup <= self.ni
        &&& self.vars.len() == self.nvars
        &&& self.closure.consts.len() <= MAX_CONSTS
        &&& unique_consts(self.closure@.consts)
        &&& self.reach <= self.ni
        &&& jumps_upto(self.closure.code@, self.reach as int)
        &&& all_instructions(self.closure.code@)
        &&& forall|k: int| 0 <= k < self.funcs.len() ==> finished(#[trigger] self.funcs@[k]@)
    }

    /// What holds of a compiler between any two steps: the code has a line
    /// for each instruction, the pool no constant twice, every jump goes to
    /// an index of the code or to its end, the temporaries lie above the
    /// local variables, and the functions compiled so far are finished.
    pub open spec fn wf(&self) -> bool {
        self.inv() && self.nvars <= self.freereg
    }

    /// The line map is whole: the code has a line for each instruction.
    pub open spec fn lined(&self) -> bool {
        self.closure.lines.len() == self.closure.code.len()
    }

    /// The line map is whole and the instructions are counted. This holds
    /// of a compiler at any time, also after a compilation that failed.
    pub open spec fn tallied(&self) -> bool {
        self.lined() && self.ni == self.closure.code.len()
    }

    /// The number of instructions after the capture prologue.
    pub open spec fn body_len(&self) -> int {
        self.ni - self.nup
    }

    /// A compiler for a function of the given file, with no code yet.
    pub fn new(name: String) -> (c: Compiler)
        ensures
            c.wf(),
            c@ == fresh(name@),
            c.ni == 0,
    {
        let mut closure = Closure::new(name.clone());
        closure.name = name.clone();
        assert(closure@.consts.len() == closure.consts.len());
        let c = Compiler {
            closure,
            funcs: Vec::new(),
            freereg: 0,
            nvars: 0,
            vars: Vec::new(),
            upvals: Vec::new(),
            nup: 0,
            name,
            line: 1,
            ni: 0,
            reach: 0,
        };
        assert(c@.funcs =~= Seq::empty());
        assert(c@.vars =~= Seq::empty());
        assert(c@.upvals =~= Seq::empty());
        c
    }

    /// Writes an error as a compilation reports it: the file, the line of
    /// the statement being compiled, and the message.
    pub fn error(&self, e: CompileError) -> (s: String)
        ensures
            s@ == error_report(self.name@, self.line as nat, e),
    {
        report_error(self.name.as_str(), self.line, e)
    }

    /// Appends a word to the code, with the line of the statement being
    /// compiled, and counts it. A word that is an instruction and no jump
    /// keeps the compiler's invariant; jumps are emitted with their aims, by
    /// [`Compiler::emit_jmp`] and [`Compiler::emit_back`].
    pub fn emit(&mut self, code: u32)
        requires
            old(self).ni <= old(self).closure.code.len(),
        ensures
            final(self)@ == old(self)@.emit(code),
            final(self).closure.code@ == old(self).closure.code@.push(code),
            final(self).closure.lines@ == old(self).closure.lines@.push(old(self).line),
            final(self).ni == old(self).ni + 1,
            final(self).closure.consts == old(self).closure.consts,
            final(self).funcs == old(self).funcs,
            final(self).vars == old(self).vars,
            final(self).upvals == old(self).upvals,
            final(self).freereg == old(self).freereg,
            final(self).nvars == old(self).nvars,
            old(self).tallied() ==> final(self).tallied(),
            old(self).inv() && is_instruction(code) && !is_jump(code) ==> kept(*old(self), *final(self))
                && final(self).body_len() == old(self).body_len() + 1,
    {
        self.closure.code.push(code);
        self.closure.lines.push(self.line);
        let n: usize = self.closure.code.len();
        assert(self.ni < n);
        self.ni = self.ni + 1;
    }

    /// Emits an instruction of layout ABC that is no jump.
    pub fn emit_abc(&mut self, op: Opcode, a: u16, b: u16, c: u8)
        requires
            old(self).inv(),
            op != Opcode::Jmp,
        ensures
            kept(*old(self), *final(self)),
            final(self)@ == old(self)@.emit_abc(op, a, b, c),
            final(self).body_len() == old(self).body_len() + 1,
    {
        proof {
            lemma_abc_round_trip(op, a, b, c);
        }
        self.emit(make_abc(op, a, b, c));
    }

    /// Emits an instruction of layout ABx that is no jump.
    pub fn emit_abx(&mut self, op: Opcode, a: u16, bx: u16)
        requires
            old(self).inv(),
            op != Opcode::Jmp,
        ensures
            kept(*old(self), *final(self)),
            final(self)@ == old(self)@.emit_abx(op, a, bx),
            final(self).body_len() == old(self).body_len() + 1,
    {
        proof {
            lemma_abx_round_trip(op, a, bx);
        }
        self.emit(make_abx(op, a, bx));
    }

    /// Makes a jump over `to` instructions, back or forward. A jump over
    /// more than 65,535 instructions cannot be made.
    pub fn jmp(&self, back: bool, to: usize) -> (r: Result<u32, CompileError>)
        ensures
            to > 65535 ==> r == Err::<u32, CompileError>(CompileError::BlockTooLong),
            to <= 65535 ==> r == Ok::<u32, CompileError>(
                abx_word(
                    Opcode::Jmp,
                    if back {
                        1
                    } else {
                        0
                    },
                    to as u16,
                ),
            ),
            r matches Ok(w) ==> is_jump(w) && bx_field(w) == to && a_field(w) == (if back {
                1u8
            } else {
                0u8
            }),
    {
        if to > 65535 {
            return Err(CompileError::BlockTooLong);
        }
        let a: u16 = if back {
            1
        } else {
            0
        };
        proof {
            lemma_abx_round_trip(Opcode::Jmp, a, to as u16);
            assert((1u16 & 0xFF) as u8 == 1u8) by (bit_vector);
            assert((0u16 & 0xFF) as u8 == 0u8) by (bit_vector);
        }
        Ok(make_abx(Opcode::Jmp, a, to as u16))
    }

    /// The place after the prologue where the next instruction will stand.
    pub fn here(&self) -> (p: usize)
        requires
            self.inv(),
        ensures
            p == self.body_len(),
            p == self@.body_len(),
    {
        self.ni - self.nup as usize
    }

    /// Emits a jump that goes nowhere yet, and returns its place after the
    /// prologue; [`Compiler::fix_jmp`] gives it its aim.
    pub fn emit_jmp(&mut self) -> (pos: usize)
        requires
            old(self).inv(),
        ensures
            kept(*old(self), *final(self)),
            pos == old(self)@.body_len(),
            final(self)@ == old(self)@.emit_jmp(),
            final(self).body_len() == old(self).body_len() + 1,
    {
        let pos: usize = self.here();
        let w: u32 = make_abx(Opcode::Jmp, 0, 0);
        proof {
            lemma_abx_round_trip(Opcode::Jmp, 0, 0);
            assert((0u16 & 0xFF) as u8 == 0u8) by (bit_vector);
        }
        let at: usize = self.closure.code.len();
        if self.reach < at {
            self.reach = at;
        }
        self.closure.code.push(w);
        self.closure.lines.push(self.line);
        self.ni = self.closure.code.len();
        assert(jumps_upto(self.closure.code@, self.reach as int)) by {
            assert forall|i: int| 0 <= i < self.closure.code@.len() && is_jump(
                #[trigger] self.closure.code@[i],
            ) implies 0 <= jump_target(self.closure.code@[i], i) <= self.reach by {
                if i < at {
                    assert(self.closure.code@[i] == old(self).closure.code@[i]);
                }
            }
        }
        pos
    }

    /// Aims the jump at place `pos` after the prologue at the place where
    /// the next instruction will stand.
    pub fn fix_jmp(&mut self, pos: usize) -> (r: Result<(), CompileError>)
        requires
            old(self).inv(),
            pos < old(self).body_len(),
        ensures
            final(self).tallied(),
            r is Ok ==> kept(*old(self), *final(self)) && final(self).body_len() == old(self).body_len(),
            did(r, *final(self), old(self)@.fix_jmp(pos)),
            r is Err ==> final(self)@ == old(self)@ && final(self).ni == old(self).ni,
    {
        let at: usize = pos + self.nup as usize;
        let dist: usize = self.ni - at;
        let w: u32 = match self.jmp(false, dist) {
            Ok(w) => w,
            Err(e) => {
                return Err(e);
            },
        };
        self.closure.code[at] = w;
        self.reach = self.ni;
        assert(jumps_upto(self.closure.code@, self.reach as int)) by {
            assert forall|i: int| 0 <= i < self.closure.code@.len() && is_jump(
                #[trigger] self.closure.code@[i],
            ) implies 0 <= jump_target(self.closure.code@[i], i) <= self.reach by {
                if i != at {
                    assert(self.closure.code@[i] == old(self).closure.code@[i]);
                }
            }
        }
        assert(all_instructions(self.closure.code@)) by {
            assert forall|i: int| 0 <= i < self.closure.code@.len() implies is_instruction(
                #[trigger] self.closure.code@[i],
            ) by {
                if i != at {
                    assert(self.closure.code@[i] == old(self).closure.code@[i]);
                }
            }
        }
        Ok(())
    }

    /// Emits a jump back to the place `start` after the prologue.
    pub fn emit_back(&mut self, start: usize) -> (r: Result<(), CompileError>)
        requires
            old(self).inv(),
            start <= old(self).body_len(),
        ensures
            final(self).tallied(),
            r is Ok ==> kept(*old(self), *final(self)) && final(self).body_len() == old(self).body_len() + 1,
            did(r, *final(self), old(self)@.emit_back(start)),
            r is Err ==> final(self)@ == old(self)@ && final(self).ni == old(self).ni,
    {
        let dist: usize = self.here() - start;
        let w: u32 = match self.jmp(true, dist) {
            Ok(w) => w,
            Err(e) => {
                return Err(e);
            },
        };
        let at: usize = self.closure.code.len();
        if self.reach < at - dist {
            self.reach = at - dist;
        }
        self.closure.code.push(w);
        self.closure.lines.push(self.line);
        self.ni = self.closure.code.len();
        assert(jumps_upto(self.closure.code@, self.reach as int)) by {
            assert forall|i: int| 0 <= i < self.closure.code@.len() && is_jump(
                #[trigger] self.closure.code@[i],
            ) implies 0 <= jump_target(self.closure.code@[i], i) <= self.reach by {
                if i < at {
                    assert(self.closure.code@[i] == old(self).closure.code@[i]);
                }
            }
        }
        Ok(())
    }

    /// Puts a capture instruction at the head of the code: the prologue
    /// grows by one, and every instruction moves one place up.
    pub fn prepend_capture(&mut self, slot: u8, source: u8)
        requires
            old(self).inv(),
            old(self).nup < 255,
            old(self).closure.code.len() < usize::MAX,
        ensures
            kept(*old(self), *final(self)),
            final(self).body_len() == old(self).body_len(),
            final(self)@ == old(self)@.prepend_capture(slot, source),
            final(self).upvals == old(self).upvals,
    {
        let w: u32 = make_abc(Opcode::GetUpVal, slot as u16, source as u16, 1);
        proof {
            lemma_abc_round_trip(Opcode::GetUpVal, slot as u16, source as u16, 1);
        }
        self.closure.code.insert(0, w);
        self.closure.lines.insert(0, self.line);
        self.ni = self.closure.code.len();
        self.nup = self.nup + 1;
        self.reach = self.reach + 1;
        assert(jumps_upto(self.closure.code@, self.reach as int)) by {
            assert forall|i: int| 0 <= i < self.closure.code@.len() && is_jump(
                #[trigger] self.closure.code@[i],
            ) implies 0 <= jump_target(self.closure.code@[i], i) <= self.reach by {
                if i > 0 {
                    assert(self.closure.code@[i] == old(self).closure.code@[i - 1]);
                }
            }
        }
        assert(all_instructions(self.closure.code@)) by {
            assert forall|i: int| 0 <= i < self.closure.code@.len() implies is_instruction(
                #[trigger] self.closure.code@[i],
            ) by {
                if i > 0 {
                    assert(self.closure.code@[i] == old(self).closure.code@[i - 1]);
                }
            }
        }
    }

    /// Finds the constant in the pool, or adds it: the result is the index
    /// of the constant that equals `val`, if the pool has one, and then the
    /// pool is unchanged; else `val` goes to the end of the pool, unless
    /// the pool is full.
    pub fn resolve_const(&mut self, val: Value) -> (r: Result<u16, CompileError>)
        requires
            old(self).inv(),
        ensures
            final(self).tallied(),
            gave(r, *final(self), old(self)@.resolve_const(val@)),
            r is Err ==> final(self)@ == old(self)@ && final(self).ni == old(self).ni,
            r matches Ok(k) ==> k < final(self).closure@.consts.len(),
            r is Ok ==> kept(*old(self), *final(self)) && final(self).body_len() == old(self).body_len(),
    {
        let ghost pool = self.closure@.consts;
        let n: usize = self.closure.consts.len();
        let mut i: usize = 0;
        let mut found: usize = n;
        while i < n && found == n
            invariant
                i <= n,
                n == self.closure.consts.len(),
                pool == self.closure@.consts,
                found == n ==> find_const(pool, val@, 0) == find_const(pool, val@, i as int),
                found < n ==> find_const(pool, val@, 0) == found,
                found <= n,
            decreases n - i + (if found == n { 1int } else { 0int }),
        {
            if self.closure.consts[i].equals(&val) {
                found = i;
            } else {
                i += 1;
            }
        }
        if found < n {
            return Ok(found as u16);
        }
        if n >= MAX_CONSTS {
            return Err(CompileError::ConstantOverflow);
        }
        proof {
            lemma_find_const(pool, val@, 0);
            assert forall|a: int, b: int|
                0 <= a < pool.push(val@).len() && 0 <= b < pool.push(val@).len() && val_eq(
                    pool.push(val@)[a],
                    pool.push(val@)[b],
                ) implies a == b by {
                if a < n && b == n {
                    assert(!val_eq(pool[a], val@));
                }
                if b < n && a == n {
                    assert(!val_eq(pool[b], val@));
                    lemma_val_eq_symmetric(val@, pool[b]);
                }
            }
        }
        self.closure.consts.push(val);
        assert(self.closure@.consts =~= pool.push(val@));
        Ok(n as u16)
    }

    /// Finds the register of a local variable: that of the newest variable
    /// of the given name.
    pub fn get_var(&self, name: &String) -> (r: Option<u8>)
        ensures
            r == self@.get_var(name@),
    {
        let mut i: usize = 0;
        while i < self.vars.len()
            invariant
                i <= self.vars.len(),
                find_var(self@.vars, name@, 0) == find_var(self@.vars, name@, i as int),
            decreases self.vars.len() - i,
        {
            if self.vars[i].name == *name {
                return Some(self.vars[i].pos);
            }
            i += 1;
        }
        None
    }

    /// Finds the slot of a variable of an enclosing function, capturing the
    /// variable if this is the first time that it is met: then a capture
    /// instruction goes to the head of the code, the variable gets the next
    /// slot, and is marked as captured. There is no slot where no enclosing
    /// function has a variable of the name.
    pub fn get_upval(&mut self, name: &String) -> (r: Result<Option<u8>, CompileError>)
        requires
            old(self).inv(),
        ensures
            final(self).tallied(),
            r is Ok ==> kept(*old(self), *final(self)) && final(self).body_len() == old(self).body_len(),
            gave(r, *final(self), old(self)@.get_upval(name@)),
            r is Err ==> final(self)@ == old(self)@ && final(self).ni == old(self).ni,
    {
        let n: usize = self.upvals.len();
        let mut i: usize = 0;
        let mut found: usize = n;
        while i < n && found == n
            invariant
                i <= n,
                n == self.upvals.len(),
                found == n ==> find_up(self@.upvals, name@, 0) == find_up(self@.upvals, name@, i as int),
                found < n ==> find_up(self@.upvals, name@, 0) == found,
                found <= n,
            decreases n - i + (if found == n { 1int } else { 0int }),
        {
            if self.upvals[i].name == *name {
                found = i;
            } else {
                i += 1;
            }
        }
        if found == n {
            return Ok(None);
        }
        if self.upvals[found].captured {
            return Ok(Some(self.upvals[found].pos));
        }
        if self.nup == 255 || self.ni == usize::MAX {
            return Err(CompileError::TooComplex);
        }
        let slot: u8 = self.nup;
        let source: u8 = self.upvals[found].pos;
        self.prepend_capture(slot, source);
        self.upvals[found].pos = slot;
        self.upvals[found].captured = true;
        assert(self@.upvals =~= old(self)@.upvals.update(
            found as int,
            Outer { name: old(self)@.upvals[found as int].name, pos: slot, captured: true },
        ));
        Ok(Some(slot))
    }

    /// Takes `n` more registers for temporary values, if there are as many.
    pub fn reserve_regs(&mut self, n: u8) -> (r: Result<(), CompileError>)
        ensures
            did(r, *final(self), old(self)@.reserve_regs(n)),
            old(self).tallied() ==> final(self).tallied(),
            r is Err ==> *final(self) == *old(self),
            r is Ok ==> *final(self) == (Compiler { freereg: (old(self).freereg + n) as u8, ..*old(self) }),
    {
        if self.freereg > 255 - n {
            Err(CompileError::TooComplex)
        } else {
            self.freereg = self.freereg + n;
            Ok(())
        }
    }

    /// Makes the next register a local variable of the given name. A
    /// function has at most 255 local variables.
    pub fn register_var(&mut self, name: String) -> (r: Result<u8, CompileError>)
        requires
            old(self).inv(),
        ensures
            final(self).tallied(),
            gave(r, *final(self), old(self)@.register_var(name@)),
            r is Err ==> final(self)@ == old(self)@ && final(self).ni == old(self).ni,
            r is Ok ==> final(self).inv() && final(self).nvars == old(self).nvars + 1 && final(self).freereg
                == old(self).freereg && final(self).body_len() == old(self).body_len(),
    {
        if self.nvars >= 255 {
            Err(CompileError::TooManyLocals)
        } else {
            let pos: u8 = self.nvars;
            self.nvars = self.nvars + 1;
            self.vars.insert(0, VarInfo::new(name, pos));
            assert(self@.vars =~= old(self)@.vars.insert(0, Local { name: name@, pos }));
            Ok(pos)
        }
    }

    /// Ends a scope: the local variables above the first `nvars` go out of
    /// scope, and where there are any, a `Close` instruction clears their
    /// registers.
    pub fn close_scope(&mut self, nvars: u8)
        requires
            old(self).inv(),
            nvars <= old(self).nvars,
        ensures
            final(self).inv(),
            final(self).nvars == nvars,
            final(self).freereg == nvars,
            final(self).name@ == old(self).name@,
            final(self).body_len() >= old(self).body_len(),
            final(self)@ == old(self)@.close_scope(nvars),
    {
        let ghost before = self@.vars;
        let total: u8 = self.nvars;
        let mut left: u8 = self.nvars;
        assert(self@.vars =~= before.subrange(total - left, total as int));
        while left > nvars
            invariant
                nvars <= left <= total,
                total == before.len(),
                self.vars.len() == left,
                self@.vars == before.subrange(total - left, total as int),
                *self == (Compiler { vars: self.vars, ..*old(self) }),
            decreases left,
        {
            let ghost prev = self.vars@;
            let ghost was = self@.vars;
            self.vars.remove(0);
            left = left - 1;
            proof {
                assert(self.vars@ =~= prev.subrange(1, prev.len() as int));
                assert forall|k: int| 0 <= k < self@.vars.len() implies self@.vars[k] == before.subrange(
                    total - left,
                    total as int,
                )[k] by {
                    assert(self.vars@[k] == prev[k + 1]);
                    assert(was[k + 1] == (Local { name: prev[k + 1].name@, pos: prev[k + 1].pos }));
                }
                assert(self@.vars =~= before.subrange(total - left, total as int));
            }
        }
        self.nvars = nvars;
        self.freereg = nvars;
        if total != nvars {
            self.emit_abc(Opcode::Close, nvars as u16, 0, 0);
        }
    }

    /// Ends the function: a `Return` of nil goes to the end of the code,
    /// unless the code ends with a `Return` already and no jump goes to its
    /// end.
    pub fn final_ret(&mut self)
        requires
            old(self).inv(),
        ensures
            final(self).inv(),
            finished(final(self).closure@),
            final(self).name@ == old(self).name@,
            final(self).nvars == old(self).nvars,
            final(self).freereg == old(self).freereg,
            final(self)@ == old(self)@.final_ret(),
    {
        let n: usize = self.closure.code.len();
        let ends: bool = if n > 0 && self.reach < n {
            let last: u32 = self.closure.code[n - 1];
            assert(is_instruction(self.closure.code@[n - 1]));
            get_op(last) == Opcode::Return
        } else {
            false
        };
        if !ends {
            self.emit_abc(Opcode::Return, 0, 1, 0);
        }
        proof {
            let code = self.closure.code@;
            assert(self.closure@.consts.len() == self.closure.consts.len());
            assert forall|i: int| 0 <= i < code.len() && is_jump(#[trigger] code[i]) implies 0 <= jump_target(
                code[i],
                i,
            ) <= code.len() - 1 by {}
        }
    }

    /// Emits `LoadNil` for a register.
    pub fn load_nil(&mut self, reg: u8)
        requires
            old(self).inv(),
        ensures
            kept(*old(self), *final(self)),
            final(self)@ == old(self)@.load_nil(reg),
    {
        self.emit_abc(Opcode::LoadNil, reg as u16, 0, 0)
    }

    /// Emits `LoadBool` for a register.
    pub fn load_bool(&mut self, b: bool, reg: u8)
        requires
            old(self).inv(),
        ensures
            kept(*old(self), *final(self)),
            final(self)@ == old(self)@.load_bool(b, reg),
    {
        let flag: u16 = if b {
            1
        } else {
            0
        };
        self.emit_abc(Opcode::LoadBool, reg as u16, flag, 0)
    }

    /// Pools a constant and emits `LoadConst` of it for a register.
    pub fn load_const(&mut self, val: Value, reg: u8) -> (r: Result<(), CompileError>)
        requires
            old(self).inv(),
        ensures
            final(self).tallied(),
            r is Ok ==> kept(*old(self), *final(self)),
            did(r, *final(self), old(self)@.load_const(val@, reg)),
    {
        let pos: u16 = match self.resolve_const(val) {
            Ok(k) => k,
            Err(e) => {
                return Err(e);
            },
        };
        self.emit_abx(Opcode::LoadConst, reg as u16, pos);
        Ok(())
    }

    /// Compiles the reading of a variable into a register: from its
    /// register where it is a local variable, else from its slot where an
    /// enclosing function has it, else from the global variables.
    pub fn load_var(&mut self, name: &String, reg: u8) -> (r: Result<(), CompileError>)
        requires
            old(self).inv(),
        ensures
            final(self).tallied(),
            r is Ok ==> kept(*old(self), *final(self)),
            did(r, *final(self), old(self)@.load_var(name@, reg)),
    {
        match self.get_var(name) {
            Some(pos) => {
                self.emit_abc(Opcode::Move, reg as u16, pos as u16, 0);
                Ok(())
            },
            None => match self.get_upval(name) {
                Err(e) => Err(e),
                Ok(Some(slot)) => {
                    self.emit_abc(Opcode::GetUpVal, reg as u16, slot as u16, 0);
                    Ok(())
                },
                Ok(None) => match self.resolve_const(Value::String(name.clone())) {
                    Err(e) => Err(e),
                    Ok(pos) => {
                        self.emit_abx(Opcode::GetGlobal, reg as u16, pos);
                        Ok(())
                    },
                },
            },
        }
    }

    /// Compiles the writing of a variable from a register: to its register
    /// where it is a local variable, else to its slot where an enclosing
    /// function has it, else to the global variables.
    pub fn store_var(&mut self, name: &String, reg: u8) -> (r: Result<(), CompileError>)
        requires
            old(self).inv(),
        ensures
            final(self).tallied(),
            r is Ok ==> kept(*old(self), *final(self)),
            did(r, *final(self), old(self)@.store_var(name@, reg)),
    {
        match self.get_var(name) {
            Some(var) => {
                self.emit_abc(Opcode::Move, var as u16, reg as u16, 0);
                Ok(())
            },
            None => match self.get_upval(name) {
                Err(e) => Err(e),
                Ok(Some(slot)) => {
                    self.emit_abc(Opcode::SetUpVal, slot as u16, reg as u16, 0);
                    Ok(())
                },
                Ok(None) => match self.resolve_const(Value::String(name.clone())) {
                    Err(e) => Err(e),
                    Ok(k) => {
                        self.emit_abx(Opcode::SetGlobal, reg as u16, k);
                        Ok(())
                    },
                },
            },
        }
    }

    /// Pools a constant and makes it an operand: as a constant with the
    /// mode bit set where its index is below 255, else by loading it into
    /// register `reg`.
    pub fn rc_const(&mut self, val: Value, reg: u8) -> (r: Result<u16, CompileError>)
        requires
            old(self).inv(),
        ensures
            final(self).tallied(),
            r is Ok ==> kept(*old(self), *final(self)),
            r matches Ok(k) ==> k < 512,
            gave(r, *final(self), old(self)@.rc_const(val@, reg)),
    {
        let pos: u16 = match self.resolve_const(val) {
            Ok(k) => k,
            Err(e) => {
                return Err(e);
            },
        };
        if pos < 255 {
            let k: u16 = set_mode(1, pos as u8);
            assert(k == 256 + pos) by (bit_vector)
                requires
                    pos < 255,
                    k == (((1u8 & 0x1) as u16) << 8) | ((pos as u8) as u16),
            ;
            Ok(k)
        } else {
            self.emit_abx(Opcode::LoadConst, reg as u16, pos);
            Ok(reg as u16)
        }
    }

    /// Compiles a statement node: the statement's line becomes the line of
    /// what is emitted from here on.
    pub fn walk(&mut self, node: &Node) -> (r: Result<(), CompileError>)
        requires
            stmt_pre(*old(self)),
        ensures
            final(self).tallied(),
            r is Ok ==> stmt_post(*old(self), *final(self)),
            did(r, *final(self), walk(old(self)@, node@)),
        decreases node, 0nat,
    {
        self.line = node.line;
        self.stmt(&node.stmt)
    }

    /// Compiles a statement.
    pub fn stmt(&mut self, s: &Stmt) -> (r: Result<(), CompileError>)
        requires
            stmt_pre(*old(self)),
        ensures
            final(self).tallied(),
            r is Ok ==> stmt_post(*old(self), *final(self)),
            did(r, *final(self), stmt(old(self)@, s@)),
        decreases s, 1nat,
    {
        match s {
            Stmt::Return(..) => self.return_stmt(s),
            Stmt::While(..) => self.while_stmt(s),
            Stmt::For(..) => self.for_stmt(s),
            Stmt::Block(..) => self.block_stmt(s),
            Stmt::Let(..) => self.let_stmt(s),
            Stmt::If(..) => self.if_stmt(s),
            Stmt::Fn(..) => self.fn_stmt(s),
            Stmt::Expr(e) => match self.exp2nextreg(e) {
                Err(e) => Err(e),
                Ok(_) => {
                    self.freereg = self.nvars;
                    Ok(())
                },
            },
        }
    }

    /// `let name = value`: the value goes to the next register, which then
    /// is the variable.
    fn let_stmt(&mut self, s: &Stmt) -> (r: Result<(), CompileError>)
        requires
            stmt_pre(*old(self)),
            s is Let,
        ensures
            final(self).tallied(),
            r is Ok ==> stmt_post(*old(self), *final(self)),
            did(r, *final(self), let_stmt(old(self)@, s@)),
        decreases s, 0nat,
    {
        match s {
            Stmt::Let(name, value) => match self.exp2nextreg(value) {
                Err(e) => Err(e),
                Ok(_) => match self.register_var(name.clone()) {
                    Err(e) => Err(e),
                    Ok(_) => Ok(()),
                },
            },
            _ => Ok(()),
        }
    }

    /// `fn name(params) body`: the name becomes a local variable first, so
    /// that the body can refer to it; then a closure of the compiled
    /// function goes to the variable's register.
    fn fn_stmt(&mut self, s: &Stmt) -> (r: Result<(), CompileError>)
        requires
            stmt_pre(*old(self)),
            s is Fn,
        ensures
            final(self).tallied(),
            r is Ok ==> stmt_post(*old(self), *final(self)),
            did(r, *final(self), fn_stmt(old(self)@, s@)),
        decreases s, 0nat,
    {
        match s {
            Stmt::Fn(name, params, body) => match self.register_var(name.clone()) {
                Err(e) => Err(e),
                Ok(var) => {
                    self.freereg = self.nvars;
                    match self.compile_function(Some(name), params, body) {
                        Err(e) => Err(e),
                        Ok(h) => match self.resolve_const(Value::Closure(h)) {
                            Err(e) => Err(e),
                            Ok(k) => {
                                self.emit_abx(Opcode::Closure, var as u16, k);
                                Ok(())
                            },
                        },
                    }
                },
            },
            _ => Ok(()),
        }
    }

    /// Starts the compiler of a function met in this one: it knows the
    /// local variables of this one, and the variables that this one knows
    /// of enclosing functions, as variables that the function may capture.
    fn child(&self, name: Option<&String>) -> (child: Compiler)
        requires
            self.inv(),
        ensures
            child.inv(),
            child.nvars == 0,
            child.freereg == 0,
            child@ == child_of(
                self@,
                match name {
                    Some(n) => Some(n@),
                    None => None,
                },
            ),
    {
        let mut child: Compiler = Compiler::new(self.name.clone());
        match name {
            Some(n) => {
                child.closure.name = n.clone();
            },
            None => {
                child.closure.name = String::from_str("<anonymous>");
            },
        }
        child.line = self.line;
        let ghost want = candidates(self@);
        let ghost goal = child_of(
            self@,
            match name {
                Some(n) => Some(n@),
                None => None,
            },
        );
        let nv: usize = self.vars.len();
        let nu: usize = self.upvals.len();
        assert(child.funcs@.len() == child@.funcs.len());
        assert(child@.upvals =~= want.subrange(0, 0));
        let mut i: usize = 0;
        while i < nv
            invariant
                i <= nv,
                nv == self.vars.len(),
                nu == self.upvals.len(),
                want == candidates(self@),
                child.inv(),
                child.nvars == 0,
                child.freereg == 0,
                child.upvals.len() == i,
                child@.upvals == want.subrange(0, i as int),
                child@ == (Draft { upvals: child@.upvals, ..goal }),
            decreases nv - i,
        {
            let ghost prev = child@.upvals;
            child.upvals.push(UpInfo { name: self.vars[i].name.clone(), pos: self.vars[i].pos, captured: false });
            proof {
                let x = Outer { name: self.vars@[i as int].name@, pos: self.vars@[i as int].pos, captured: false };
                assert(self@.vars[i as int] == (Local { name: self.vars@[i as int].name@, pos: self.vars@[i as int].pos }));
                assert(want[i as int] == x);
                assert(child@.upvals =~= prev.push(x));
                assert(want.subrange(0, i + 1) =~= want.subrange(0, i as int).push(x));
            }
            i += 1;
        }
        let mut j: usize = 0;
        while j < nu
            invariant
                j <= nu,
                nu == self.upvals.len(),
                nv == self.vars.len(),
                want == candidates(self@),
                child.inv(),
                child.nvars == 0,
                child.freereg == 0,
                child.upvals.len() == nv + j,
                child@.upvals == want.subrange(0, nv + j),
                child@ == (Draft { upvals: child@.upvals, ..goal }),
            decreases nu - j,
        {
            let ghost prev = child@.upvals;
            child.upvals.push(
                UpInfo { name: self.upvals[j].name.clone(), pos: self.upvals[j].pos, captured: false },
            );
            proof {
                let x = Outer { name: self.upvals@[j as int].name@, pos: self.upvals@[j as int].pos, captured: false };
                assert(self@.upvals[j as int] == (Outer {
                    name: self.upvals@[j as int].name@,
                    pos: self.upvals@[j as int].pos,
                    captured: self.upvals@[j as int].captured,
                }));
                assert(self@.vars.len() == nv);
                assert(want[nv + j] == x);
                assert(child@.upvals =~= prev.push(x));
                assert(want.subrange(0, nv + j + 1) =~= want.subrange(0, nv + j).push(x));
            }
            j += 1;
        }
        assert(want.len() == nv + nu);
        assert(want.subrange(0, nv + nu) =~= want);
        child
    }

    /// Compiles a function in a compiler of its own and returns the handle
    /// of the finished function. The parameters are the function's first
    /// local variables.
    fn compile_function(&mut self, name: Option<&String>, params: &Vec<String>, body: &Node) -> (r: Result<
        usize,
        CompileError,
    >)
        requires
            old(self).inv(),
        ensures
            final(self).tallied(),
            r is Ok ==> kept(*old(self), *final(self)) && final(self).body_len() == old(self).body_len(),
            gave(
                r,
                *final(self),
                function(
                    old(self)@,
                    match name {
                        Some(n) => Some(n@),
                        None => None,
                    },
                    texts(params@, params@.len() as int),
                    body@,
                ),
            ),
        decreases body, 1nat,
    {
        let mut child: Compiler = self.child(name);
        let ghost start = child@;
        let ghost ps = texts(params@, params@.len() as int);
        proof {
            lemma_texts_index(params@, params@.len() as int);
        }
        let mut i: usize = 0;
        while i < params.len()
            invariant
                i <= params.len(),
                ps == texts(params@, params@.len() as int),
                ps.len() == params@.len(),
                forall|k: int| 0 <= k < ps.len() ==> #[trigger] ps[k] == params@[k]@,
                child.inv(),
                child.nvars <= i,
                start == child_of(
                    old(self)@,
                    match name {
                        Some(n) => Some(n@),
                        None => None,
                    },
                ),
                with_params(start, ps, 0) == with_params(child@, ps, i as int),
                *self == *old(self),
                self.tallied(),
            decreases params.len() - i,
        {
            match child.register_var(params[i].clone()) {
                Ok(_) => {},
                Err(e) => {
                    return Err(e);
                },
            }
            i += 1;
        }
        child.closure.nparams = child.nvars;
        child.freereg = child.nvars;
        core::mem::swap(&mut self.funcs, &mut child.funcs);
        let walked: Result<(), CompileError> = child.walk(body);
        match walked {
            Ok(()) => {
                child.final_ret();
                core::mem::swap(&mut self.funcs, &mut child.funcs);
                let h: usize = self.funcs.len();
                let ghost before = self@.funcs;
                self.funcs.push(child.closure);
                assert(self@.funcs =~= before.push(child.closure@));
                Ok(h)
            },
            Err(e) => {
                core::mem::swap(&mut self.funcs, &mut child.funcs);
                Err(e)
            },
        }
    }

    /// `return value`.
    fn return_stmt(&mut self, s: &Stmt) -> (r: Result<(), CompileError>)
        requires
            stmt_pre(*old(self)),
            s is Return,
        ensures
            final(self).tallied(),
            r is Ok ==> stmt_post(*old(self), *final(self)),
            did(r, *final(self), return_stmt(old(self)@, s@)),
        decreases s, 0nat,
    {
        match s {
            Stmt::Return(val) => match self.exp2nextreg(val) {
                Err(e) => Err(e),
                Ok(reg) => {
                    self.emit_abc(Opcode::Return, reg as u16, 0, 0);
                    self.freereg = self.nvars;
                    Ok(())
                },
            },
            _ => Ok(()),
        }
    }

    /// Compiles a condition: the value goes to a temporary register, a
    /// `Test` of it skips the jump that follows where the value is truthy,
    /// and that jump goes nowhere yet. Returns the place of the jump.
    fn condition(&mut self, cond: &Expr) -> (r: Result<usize, CompileError>)
        requires
            stmt_pre(*old(self)),
        ensures
            final(self).tallied(),
            r is Ok ==> stmt_post(*old(self), *final(self)) && final(self).nvars == old(self).nvars,
            r matches Ok(pos) ==> pos < final(self).body_len() && pos >= old(self).body_len(),
            gave(r, *final(self), condition(old(self)@, cond@)),
        decreases cond, 4nat,
    {
        match self.exp2nextreg(cond) {
            Err(e) => Err(e),
            Ok(reg) => {
                self.emit_abc(Opcode::Test, reg as u16, 0, 0);
                let pos: usize = self.emit_jmp();
                self.freereg = self.nvars;
                Ok(pos)
            },
        }
    }

    /// `if (cond) then else`: the jump after the test goes past the first
    /// block; where there is a second block, a jump at the end of the first
    /// goes past the second.
    #[verifier::rlimit(60)]
    fn if_stmt(&mut self, s: &Stmt) -> (r: Result<(), CompileError>)
        requires
            stmt_pre(*old(self)),
            s is If,
        ensures
            final(self).tallied(),
            r is Ok ==> stmt_post(*old(self), *final(self)),
            did(r, *final(self), if_stmt(old(self)@, s@)),
        decreases s, 0nat,
    {
        match s {
            Stmt::If(cond, then, other) => match self.condition(cond) {
                Err(e) => Err(e),
                Ok(pos) => match self.walk(then) {
                    Err(e) => Err(e),
                    Ok(()) => match other {
                        None => self.fix_jmp(pos),
                        Some(block) => {
                            let over: usize = self.emit_jmp();
                            match self.fix_jmp(pos) {
                                Err(e) => Err(e),
                                Ok(()) => match self.walk(block) {
                                    Err(e) => Err(e),
                                    Ok(()) => self.fix_jmp(over),
                                },
                            }
                        },
                    },
                },
            },
            _ => Ok(()),
        }
    }

    /// `while (cond) body`: the jump after the test goes past the loop, and
    /// a jump at the end of the body goes back to the condition.
    fn while_stmt(&mut self, s: &Stmt) -> (r: Result<(), CompileError>)
        requires
            stmt_pre(*old(self)),
            s is While,
        ensures
            final(self).tallied(),
            r is Ok ==> stmt_post(*old(self), *final(self)),
            did(r, *final(self), while_stmt(old(self)@, s@)),
        decreases s, 0nat,
    {
        match s {
            Stmt::While(cond, body) => {
                let start: usize = self.here();
                match self.condition(cond) {
                    Err(e) => Err(e),
                    Ok(pos) => match self.walk(body) {
                        Err(e) => Err(e),
                        Ok(()) => match self.emit_back(start) {
                            Err(e) => Err(e),
                            Ok(()) => self.fix_jmp(pos),
                        },
                    },
                }
            },
            _ => Ok(()),
        }
    }

    /// `for (init; cond; post) body`: what `init` declares is in scope of
    /// the condition, the body and `post`, and goes out of scope after the
    /// loop; `post` runs at the end of each round.
    fn for_stmt(&mut self, s: &Stmt) -> (r: Result<(), CompileError>)
        requires
            stmt_pre(*old(self)),
            s is For,
        ensures
            final(self).tallied(),
            r is Ok ==> stmt_post(*old(self), *final(self)),
            did(r, *final(self), for_stmt(old(self)@, s@)),
        decreases s, 0nat,
    {
        match s {
            Stmt::For(init, cond, post, body) => {
                let nvars: u8 = self.nvars;
                match self.walk(init) {
                    Err(e) => Err(e),
                    Ok(()) => {
                        let start: usize = self.here();
                        match self.condition(cond) {
                            Err(e) => Err(e),
                            Ok(pos) => match self.walk(body) {
                                Err(e) => Err(e),
                                Ok(()) => match self.exp2nextreg(post) {
                                    Err(e) => Err(e),
                                    Ok(_) => {
                                        self.freereg = self.nvars;
                                        match self.emit_back(start) {
                                            Err(e) => Err(e),
                                            Ok(()) => match self.fix_jmp(pos) {
                                                Err(e) => Err(e),
                                                Ok(()) => {
                                                    self.close_scope(nvars);
                                                    Ok(())
                                                },
                                            },
                                        }
                                    },
                                },
                            },
                        }
                    },
                }
            },
            _ => Ok(()),
        }
    }

    /// `{ statements }`: what the block declares goes out of scope at its
    /// end.
    fn block_stmt(&mut self, s: &Stmt) -> (r: Result<(), CompileError>)
        requires
            stmt_pre(*old(self)),
            s is Block,
        ensures
            final(self).tallied(),
            r is Ok ==> stmt_post(*old(self), *final(self)),
            did(r, *final(self), block_stmt(old(self)@, s@)),
        decreases s, 0nat,
    {
        match s {
            Stmt::Block(nodes) => {
                let nvars: u8 = self.nvars;
                let ghost views = nodes_view(nodes@, nodes@.len() as int);
                proof {
                    lemma_nodes_index(nodes@, nodes@.len() as int);
                }
                let mut i: usize = 0;
                while i < nodes.len()
                    invariant
                        i <= nodes.len(),
                        s == Stmt::Block(*nodes),
                        stmt_post(*old(self), *self),
                        old(self).wf(),
                        nvars == old(self).nvars,
                        views.len() == nodes@.len(),
                        forall|k: int| 0 <= k < views.len() ==> #[trigger] views[k] == node_view(nodes@[k]),
                        s@ == StmtM::Block(views),
                        walk_all(old(self)@, views, 0) == walk_all(self@, views, i as int),
                    decreases nodes.len() - i,
                {
                    assert(decreases_to!(s => s->Block_0));
                    assert(decreases_to!(s->Block_0 => s->Block_0@));
                    assert(decreases_to!(s->Block_0@ => s->Block_0@[i as int]));
                    match self.walk(&nodes[i]) {
                        Ok(()) => {},
                        Err(e) => {
                            return Err(e);
                        },
                    }
                    i += 1;
                }
                self.close_scope(nvars);
                Ok(())
            },
            _ => Ok(()),
        }
    }

    /// Compiles an expression into the next free register, which it takes,
    /// and returns that register.
    pub fn exp2nextreg(&mut self, exp: &Expr) -> (r: Result<u8, CompileError>)
        requires
            old(self).wf(),
        ensures
            final(self).tallied(),
            r matches Ok(reg) ==> {
                &&& final(self).inv()
                &&& final(self).nvars == old(self).nvars
                &&& final(self).freereg == old(self).freereg + 1
                &&& final(self).name@ == old(self).name@
                &&& reg == old(self).freereg
                &&& final(self).body_len() >= old(self).body_len()
            },
            gave(r, *final(self), exp2nextreg(old(self)@, exp@)),
        decreases exp, 3nat,
    {
        match self.reserve_regs(1) {
            Err(e) => Err(e),
            Ok(()) => {
                let reg: u8 = self.freereg - 1;
                match self.expr(exp, reg) {
                    Err(e) => Err(e),
                    Ok(()) => Ok(reg),
                }
            },
        }
    }

    /// Compiles an expression so that its value is in register `reg`, the
    /// topmost register in use.
    pub fn expr(&mut self, exp: &Expr, reg: u8) -> (r: Result<(), CompileError>)
        requires
            old(self).wf(),
            reg + 1 == old(self).freereg,
        ensures
            final(self).tallied(),
            r is Ok ==> kept(*old(self), *final(self)),
            did(r, *final(self), expr(old(self)@, exp@, reg)),
        decreases exp, 2nat,
    {
        match exp {
            Expr::String(s) => self.load_const(Value::String(s.clone()), reg),
            Expr::Number(n) => self.load_const(Value::Number(*n), reg),
            Expr::Name(s) => self.load_var(s, reg),
            Expr::Bool(b) => {
                self.load_bool(*b, reg);
                Ok(())
            },
            Expr::Nil => {
                self.load_nil(reg);
                Ok(())
            },
            Expr::AnonFn(params, body) => match self.compile_function(None, params, body) {
                Err(e) => Err(e),
                Ok(h) => match self.resolve_const(Value::Closure(h)) {
                    Err(e) => Err(e),
                    Ok(k) => {
                        self.emit_abx(Opcode::Closure, reg as u16, k);
                        Ok(())
                    },
                },
            },
            Expr::Array(..) => self.load_array(exp, reg),
            Expr::Table(..) => self.load_table(exp, reg),
            Expr::Index(..) => self.load_index(exp, reg),
            Expr::Binary(..) => self.binary(exp, reg),
            Expr::Unary(..) => self.unary(exp, reg),
            Expr::Call(..) => self.call(exp, reg),
        }
    }

    /// An array literal: the items go to the registers from `reg` on, and
    /// `NewArray` makes the array of them in `reg`.
    #[verifier::rlimit(60)]
    fn load_array(&mut self, exp: &Expr, reg: u8) -> (r: Result<(), CompileError>)
        requires
            old(self).wf(),
            reg + 1 == old(self).freereg,
            exp is Array,
        ensures
            final(self).tallied(),
            r is Ok ==> kept(*old(self), *final(self)),
            did(r, *final(self), load_array(old(self)@, exp@, reg)),
        decreases exp, 1nat,
    {
        match exp {
            Expr::Array(items) => {
                let ghost views = exprs_view(items@, items@.len() as int);
                proof {
                    lemma_exprs_index(items@, items@.len() as int);
                }
                let mut i: usize = 0;
                while i < items.len()
                    invariant
                        i <= items.len(),
                        exp == Expr::Array(*items),
                        views.len() == items@.len(),
                        forall|k: int| 0 <= k < views.len() ==> #[trigger] views[k] == expr_view(items@[k]),
                        exp@ == ExprM::Array(views),
                        self.inv(),
                        self.nvars == old(self).nvars,
                        self.name@ == old(self).name@,
                        self.body_len() >= old(self).body_len(),
                        reg + 1 == old(self).freereg,
                        i == 0 ==> self.freereg == reg + 1,
                        i > 0 ==> self.freereg == reg + i,
                        old(self).nvars <= old(self).freereg,
                        items_from(old(self)@, views, 0, reg) == items_from(self@, views, i as int, reg),
                    decreases items.len() - i,
                {
                    assert(decreases_to!(exp => exp->Array_0));
                    assert(decreases_to!(exp->Array_0 => exp->Array_0@));
                    assert(decreases_to!(exp->Array_0@ => exp->Array_0@[i as int]));
                    if i == 0 {
                        match self.expr(&items[i], reg) {
                            Ok(()) => {},
                            Err(e) => {
                                return Err(e);
                            },
                        }
                    } else {
                        match self.exp2nextreg(&items[i]) {
                            Ok(_) => {},
                            Err(e) => {
                                return Err(e);
                            },
                        }
                    }
                    i += 1;
                }
                let top: u8 = if items.len() == 0 {
                    reg
                } else {
                    self.freereg
                };
                self.emit_abc(Opcode::NewArray, reg as u16, top as u16, 0);
                self.freereg = reg + 1;
                Ok(())
            },
            _ => Ok(()),
        }
    }

    /// A table literal: keys and values go in turn to the registers from
    /// `reg` on, and `NewTable` makes the table of them in `reg`.
    #[verifier::rlimit(60)]
    fn load_table(&mut self, exp: &Expr, reg: u8) -> (r: Result<(), CompileError>)
        requires
            old(self).wf(),
            reg + 1 == old(self).freereg,
            exp is Table,
        ensures
            final(self).tallied(),
            r is Ok ==> kept(*old(self), *final(self)),
            did(r, *final(self), load_table(old(self)@, exp@, reg)),
        decreases exp, 1nat,
    {
        match exp {
            Expr::Table(pairs) => {
                let ghost views = pairs_view(pairs@, pairs@.len() as int);
                proof {
                    lemma_pairs_index(pairs@, pairs@.len() as int);
                }
                let mut i: usize = 0;
                while i < pairs.len()
                    invariant
                        i <= pairs.len(),
                        exp == Expr::Table(*pairs),
                        views.len() == pairs@.len(),
                        forall|k: int| 0 <= k < views.len() ==> #[trigger] views[k] == pairs@[k]@,
                        exp@ == ExprM::Table(views),
                        self.inv(),
                        self.nvars == old(self).nvars,
                        self.name@ == old(self).name@,
                        self.body_len() >= old(self).body_len(),
                        reg + 1 == old(self).freereg,
                        i == 0 ==> self.freereg == reg + 1,
                        i > 0 ==> self.freereg == reg + 2 * i,
                        old(self).nvars <= old(self).freereg,
                        pairs_from(old(self)@, views, 0, reg) == pairs_from(self@, views, i as int, reg),
                    decreases pairs.len() - i,
                {
                    assert(decreases_to!(exp => exp->Table_0));
                    assert(decreases_to!(exp->Table_0 => exp->Table_0@));
                    assert(decreases_to!(exp->Table_0@ => exp->Table_0@[i as int]));
                    assert(decreases_to!(exp->Table_0@[i as int] => exp->Table_0@[i as int].key));
                    assert(decreases_to!(exp->Table_0@[i as int] => exp->Table_0@[i as int].value));
                    if i == 0 {
                        match self.expr(&pairs[i].key, reg) {
                            Ok(()) => {},
                            Err(e) => {
                                return Err(e);
                            },
                        }
                    } else {
                        match self.exp2nextreg(&pairs[i].key) {
                            Ok(_) => {},
                            Err(e) => {
                                return Err(e);
                            },
                        }
                    }
                    match self.exp2nextreg(&pairs[i].value) {
                        Ok(_) => {},
                        Err(e) => {
                            return Err(e);
                        },
                    }
                    i += 1;
                }
                let top: u8 = if pairs.len() == 0 {
                    reg
                } else {
                    self.freereg
                };
                self.emit_abc(Opcode::NewTable, reg as u16, top as u16, 0);
                self.freereg = reg + 1;
                Ok(())
            },
            _ => Ok(()),
        }
    }

    /// `obj[idx]`: the object goes to `reg`, and `GetObj` replaces it by
    /// what it holds at the index.
    fn load_index(&mut self, exp: &Expr, reg: u8) -> (r: Result<(), CompileError>)
        requires
            old(self).wf(),
            reg + 1 == old(self).freereg,
            exp is Index,
        ensures
            final(self).tallied(),
            r is Ok ==> kept(*old(self), *final(self)),
            did(r, *final(self), load_index(old(self)@, exp@, reg)),
        decreases exp, 1nat,
    {
        match exp {
            Expr::Index(obj, idx) => match self.expr(obj, reg) {
                Err(e) => Err(e),
                Ok(()) => match self.rc2nextreg(idx) {
                    Err(e) => Err(e),
                    Ok(k) => {
                        self.emit_abc(Opcode::GetObj, reg as u16, k, 0);
                        Ok(())
                    },
                },
            },
            _ => Ok(()),
        }
    }

    /// `func(args)`: the function goes to `reg`, the arguments to the
    /// registers after it, and `Call` leaves the result in `reg`.
    #[verifier::rlimit(60)]
    fn call(&mut self, exp: &Expr, reg: u8) -> (r: Result<(), CompileError>)
        requires
            old(self).wf(),
            reg + 1 == old(self).freereg,
            exp is Call,
        ensures
            final(self).tallied(),
            r is Ok ==> kept(*old(self), *final(self)),
            did(r, *final(self), call(old(self)@, exp@, reg)),
        decreases exp, 1nat,
    {
        match exp {
            Expr::Call(func, args) => {
                match self.expr(func, reg) {
                    Ok(()) => {},
                    Err(e) => {
                        return Err(e);
                    },
                }
                let ghost first = self@;
                let ghost views = exprs_view(args@, args@.len() as int);
                proof {
                    lemma_exprs_index(args@, args@.len() as int);
                }
                let mut i: usize = 0;
                while i < args.len()
                    invariant
                        i <= args.len(),
                        exp == Expr::Call(*func, *args),
                        views == exprs_view(args@, args@.len() as int),
                        exp@ == ExprM::Call(Box::new(expr_view(**func)), views),
                        views.len() == args@.len(),
                        forall|k: int| 0 <= k < views.len() ==> #[trigger] views[k] == expr_view(args@[k]),
                        self.inv(),
                        self.nvars == old(self).nvars,
                        self.name@ == old(self).name@,
                        self.body_len() >= old(self).body_len(),
                        reg + 1 == old(self).freereg,
                        self.freereg == reg + 1 + i,
                        old(self).nvars <= old(self).freereg,
                        expr(old(self)@, expr_view(**func), reg) == Ok::<Draft, Failure>(first),
                        args_from(first, views, 0) == args_from(self@, views, i as int),
                    decreases args.len() - i,
                {
                    assert(decreases_to!(exp => exp->Call_1));
                    assert(decreases_to!(exp->Call_1 => exp->Call_1@));
                    assert(decreases_to!(exp->Call_1@ => exp->Call_1@[i as int]));
                    match self.exp2nextreg(&args[i]) {
                        Ok(_) => {},
                        Err(e) => {
                            return Err(e);
                        },
                    }
                    i += 1;
                }
                self.emit_abc(Opcode::Call, reg as u16, self.freereg as u16, reg);
                self.freereg = reg + 1;
                Ok(())
            },
            _ => Ok(()),
        }
    }

    /// A binary operation. The left operand goes to `reg` unless it is a
    /// constant; the right operand to the next register unless it is one,
    /// or `reg` is still free; the result goes to `reg`.
    fn binary(&mut self, exp: &Expr, reg: u8) -> (r: Result<(), CompileError>)
        requires
            old(self).wf(),
            reg + 1 == old(self).freereg,
            exp is Binary,
        ensures
            final(self).tallied(),
            r is Ok ==> kept(*old(self), *final(self)),
            did(r, *final(self), binary(old(self)@, exp@, reg)),
        decreases exp, 1nat,
    {
        match exp {
            Expr::Binary(lhs, op, rhs) => {
                match op {
                    BinOp::Assign => self.assignment(exp, reg),
                    BinOp::And => self.logical(exp, reg),
                    BinOp::Or => self.logical(exp, reg),
                    _ => match self.rc2reg(lhs, reg) {
                        Err(e) => Err(e),
                        Ok(lhv) => {
                            let right: Result<u16, CompileError> = if lhv >= 256 {
                                self.rc2reg(rhs, reg)
                            } else {
                                self.rc2nextreg(rhs)
                            };
                            match right {
                                Err(e) => Err(e),
                                Ok(rhv) => {
                                    self.emit_abc(binop_opcode(*op), lhv, rhv, reg);
                                    Ok(())
                                },
                            }
                        },
                    },
                }
            },
            _ => Ok(()),
        }
    }

    /// `lhs && rhs` and `lhs || rhs`: the left operand goes to `reg`; a
    /// `Test` and a jump leave it there where it decides the result, and
    /// else the right operand goes to `reg`.
    fn logical(&mut self, exp: &Expr, reg: u8) -> (r: Result<(), CompileError>)
        requires
            old(self).wf(),
            reg + 1 == old(self).freereg,
            exp is Binary,
        ensures
            final(self).tallied(),
            r is Ok ==> kept(*old(self), *final(self)),
            did(r, *final(self), logical(old(self)@, exp@, reg)),
        decreases exp, 0nat,
    {
        match exp {
            Expr::Binary(lhs, op, rhs) => match self.expr(lhs, reg) {
                Err(e) => Err(e),
                Ok(()) => {
                    let flag: u16 = if *op == BinOp::Or {
                        1
                    } else {
                        0
                    };
                    self.emit_abc(Opcode::Test, reg as u16, flag, 0);
                    let pos: usize = self.emit_jmp();
                    match self.expr(rhs, reg) {
                        Err(e) => Err(e),
                        Ok(()) => self.fix_jmp(pos),
                    }
                },
            },
            _ => Ok(()),
        }
    }

    /// A unary operation: the operand goes to the next register unless it
    /// is a constant, and the result to `reg`.
    fn unary(&mut self, exp: &Expr, reg: u8) -> (r: Result<(), CompileError>)
        requires
            old(self).wf(),
            reg + 1 == old(self).freereg,
            exp is Unary,
        ensures
            final(self).tallied(),
            r is Ok ==> kept(*old(self), *final(self)),
            did(r, *final(self), unary(old(self)@, exp@, reg)),
        decreases exp, 1nat,
    {
        match exp {
            Expr::Unary(op, operand) => match self.rc2nextreg(operand) {
                Err(e) => Err(e),
                Ok(v) => {
                    match op {
                        UnOp::Neg => self.emit_abc(Opcode::Neg, reg as u16, v, 0),
                        UnOp::Not => self.emit_abc(Opcode::Not, reg as u16, v, 0),
                    }
                    Ok(())
                },
            },
            _ => Ok(()),
        }
    }

    /// An assignment. To a name: the value goes to `reg` and from there to
    /// the variable, be it local, captured or global. To an index: the
    /// object goes to `reg`, index and value to the registers after it, and
    /// `SetObj` stores the value. Nothing else can be assigned to.
    #[verifier::rlimit(80)]
    fn assignment(&mut self, exp: &Expr, reg: u8) -> (r: Result<(), CompileError>)
        requires
            old(self).wf(),
            reg + 1 == old(self).freereg,
            exp is Binary,
        ensures
            final(self).tallied(),
            r is Ok ==> kept(*old(self), *final(self)),
            did(r, *final(self), assignment(old(self)@, exp@, reg)),
        decreases exp, 0nat,
    {
        match exp {
            Expr::Binary(target, op, value) => {
                assert(exp@ == ExprM::Binary(Box::new(expr_view(**target)), *op, Box::new(expr_view(**value))));
                match &**target {
                    Expr::Name(name) => match self.expr(value, reg) {
                        Err(e) => Err(e),
                        Ok(()) => self.store_var(name, reg),
                    },
                    Expr::Index(obj, idx) => match self.expr(obj, reg) {
                        Err(e) => Err(e),
                        Ok(()) => match self.reserve_regs(1) {
                            Err(e) => Err(e),
                            Ok(()) => match self.rc2reg(idx, self.freereg - 1) {
                                Err(e) => Err(e),
                                Ok(a) => match self.reserve_regs(1) {
                                    Err(e) => Err(e),
                                    Ok(()) => match self.rc2reg(value, self.freereg - 1) {
                                        Err(e) => Err(e),
                                        Ok(b) => {
                                            self.emit_abc(Opcode::SetObj, a, b, reg);
                                            self.freereg = reg + 1;
                                            Ok(())
                                        },
                                    },
                                },
                            },
                        },
                    },
                    _ => Err(CompileError::BadAssign),
                }
            },
            _ => Ok(()),
        }
    }

    /// Compiles an operand with the next free register at its disposal,
    /// which is free again afterwards.
    pub fn rc2nextreg(&mut self, exp: &Expr) -> (r: Result<u16, CompileError>)
        requires
            old(self).wf(),
        ensures
            final(self).tallied(),
            r is Ok ==> kept(*old(self), *final(self)),
            r matches Ok(k) ==> k < 512,
            gave(r, *final(self), rc2nextreg(old(self)@, exp@)),
        decreases exp, 4nat,
    {
        match self.reserve_regs(1) {
            Err(e) => Err(e),
            Ok(()) => match self.rc2reg(exp, self.freereg - 1) {
                Err(e) => Err(e),
                Ok(k) => {
                    self.freereg = self.freereg - 1;
                    Ok(k)
                },
            },
        }
    }

    /// Compiles an operand. A text or number literal whose constant has an
    /// index below 255 is the operand as a constant, with the mode bit set;
    /// anything else, a local variable too, goes to register `reg`, which
    /// then is the operand.
    pub fn rc2reg(&mut self, exp: &Expr, reg: u8) -> (r: Result<u16, CompileError>)
        requires
            old(self).wf(),
            reg + 1 == old(self).freereg,
        ensures
            final(self).tallied(),
            r is Ok ==> kept(*old(self), *final(self)),
            r matches Ok(k) ==> k < 512,
            gave(r, *final(self), rc2reg(old(self)@, exp@, reg)),
        decreases exp, 3nat,
    {
        match exp {
            Expr::String(s) => self.rc_const(Value::String(s.clone()), reg),
            Expr::Number(n) => self.rc_const(Value::Number(*n), reg),
            _ => match self.expr(exp, reg) {
                Err(e) => Err(e),
                Ok(()) => Ok(reg as u16),
            },
        }
    }

    /// Compiles a program: the statements in order, and the end of the
    /// function. After each statement no temporary register is in use. An
    /// error is reported with the file and the line of the statement that
    /// was being compiled.
    pub fn compile(&mut self, nodes: Vec<Node>) -> (r: Result<(), String>)
        requires
            stmt_pre(*old(self)),
        ensures
            match program(old(self)@, nodes_view(nodes@, nodes@.len() as int)) {
                Ok(d) => r is Ok && final(self)@ == d,
                Err(f) => r matches Err(e) && e@ == error_report(old(self)@.name, f.line as nat, f.kind)
                    && final(self)@ == f.at,
            },
            final(self).tallied(),
            r is Ok ==> {
                &&& final(self).inv()
                &&& final(self).freereg == final(self).nvars
                &&& finished(final(self).closure@)
                &&& forall|k: int| 0 <= k < final(self).funcs.len() ==> finished(#[trigger] final(self).funcs@[k]@)
            },
    {
        let file: String = self.name.clone();
        let ghost views = nodes_view(nodes@, nodes@.len() as int);
        proof {
            lemma_nodes_index(nodes@, nodes@.len() as int);
        }
        let mut i: usize = 0;
        while i < nodes.len()
            invariant
                i <= nodes.len(),
                stmt_pre(*self),
                file@ == old(self).name@,
                views == nodes_view(nodes@, nodes@.len() as int),
                views.len() == nodes@.len(),
                forall|k: int| 0 <= k < views.len() ==> #[trigger] views[k] == node_view(nodes@[k]),
                program_from(old(self)@, views, 0) == program_from(self@, views, i as int),
            decreases nodes.len() - i,
        {
            match self.walk(&nodes[i]) {
                Ok(()) => {},
                Err(e) => {
                    return Err(report_error(file.as_str(), self.line, e));
                },
            }
            self.freereg = self.nvars;
            i += 1;
        }
        self.final_ret();
        Ok(())
    }
}

} // verus!
