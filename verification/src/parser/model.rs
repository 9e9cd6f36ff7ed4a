//! What the compiler does, as mathematics: the state of a compilation and
//! the effect of each of its steps. The compiler is held to this.

use vstd::prelude::*;
use crate::common::closure::ClosureView;
use crate::common::opcode::Opcode;
use crate::common::value::{val_eq, Val};
use crate::parser::ast::{BinOp, ExprM, NodeM, PairM, StmtM, UnOp};
use crate::vm::code::{abc_word, abx_word, op_of};

verus! {

/// Why a program cannot be compiled.
#[derive(Debug, Clone, Copy, PartialEq, Eq, Structural)]
pub enum CompileError {
    /// An expression needs more than 255 registers, or a function captures
    /// more than 255 variables.
    TooComplex,
    /// A function has more than 255 local variables.
    TooManyLocals,
    /// A function has more than 65,535 constants.
    ConstantOverflow,
    /// A jump spans more than 65,535 instructions.
    BlockTooLong,
    /// The left side of an assignment is neither a name nor an index.
    BadAssign,
}

impl CompileError {
    /// The message of an error.
    pub open spec fn text(self) -> Seq<char> {
        match self {
            CompileError::TooComplex => "function or expression too complex"@,
            CompileError::TooManyLocals => "too many local variables"@,
            CompileError::ConstantOverflow => "constant overflow"@,
            CompileError::BlockTooLong => "block is too long"@,
            CompileError::BadAssign => "cannot assign to this expression"@,
        }
    }

    /// Gives the message of an error.
    pub fn as_str(&self) -> (s: &'static str)
        ensures
            s@ == self.text(),
    {
        match self {
            CompileError::TooComplex => "function or expression too complex",
            CompileError::TooManyLocals => "too many local variables",
            CompileError::ConstantOverflow => "constant overflow",
            CompileError::BlockTooLong => "block is too long",
            CompileError::BadAssign => "cannot assign to this expression",
        }
    }
}

/// The most constants that a pool holds.
pub const MAX_CONSTS: usize = 65535;

/// A local variable: its name and its register.
pub ghost struct Local {
    pub name: Seq<char>,
    pub pos: u8,
}

/// A variable of an enclosing function that a function may capture. Until
/// it is captured `pos` is its register in the enclosing function; from
/// then on `pos` is its slot among the captured variables.
pub ghost struct Outer {
    pub name: Seq<char>,
    pub pos: u8,
    pub captured: bool,
}

/// A compilation that failed: why, the line of the statement that was
/// being compiled, and the draft as the failure left it.
pub ghost struct Failure {
    pub kind: CompileError,
    pub line: usize,
    pub at: Draft,
}

/// The state of the compilation of one function.
pub ghost struct Draft {
    /// The function being compiled.
    pub closure: ClosureView,
    /// The functions compiled so far for the function literals met, each at
    /// the handle by which constants refer to it.
    pub funcs: Seq<ClosureView>,
    /// The first register that is free for a temporary value.
    pub freereg: u8,
    /// The number of registers that hold local variables.
    pub nvars: u8,
    /// The local variables in scope, the newest first.
    pub vars: Seq<Local>,
    /// The variables of the enclosing functions.
    pub upvals: Seq<Outer>,
    /// The number of captured variables, which is the number of
    /// instructions in the capture prologue.
    pub nup: u8,
    /// The name of the file being compiled.
    pub name: Seq<char>,
    /// The line of the statement being compiled.
    pub line: usize,
    /// The highest index that a jump emitted so far goes to.
    pub reach: usize,
}

/// The register of the newest variable of the given name among the
/// variables from `from` on.
pub open spec fn find_var(vars: Seq<Local>, name: Seq<char>, from: int) -> Option<u8>
    decreases vars.len() - from,
{
    if from < 0 || from >= vars.len() {
        None
    } else if vars[from].name == name {
        Some(vars[from].pos)
    } else {
        find_var(vars, name, from + 1)
    }
}

/// The place of the first candidate of the given name among the candidates
/// from `from` on, and the number of candidates where there is none.
pub open spec fn find_up(ups: Seq<Outer>, name: Seq<char>, from: int) -> int
    decreases ups.len() - from,
{
    if from < 0 || from >= ups.len() {
        ups.len() as int
    } else if ups[from].name == name {
        from
    } else {
        find_up(ups, name, from + 1)
    }
}

/// The place of the constant that equals `v` among the constants from
/// `from` on, and the number of constants where there is none.
pub open spec fn find_const(c: Seq<Val>, v: Val, from: int) -> int
    decreases c.len() - from,
{
    if from < 0 || from >= c.len() {
        c.len() as int
    } else if val_eq(c[from], v) {
        from
    } else {
        find_const(c, v, from + 1)
    }
}

/// The opcode that carries out a binary operator which is neither the
/// assignment nor one of `&&` and `||`.
pub open spec fn opcode_of(op: BinOp) -> Opcode {
    match op {
        BinOp::Add => Opcode::Add,
        BinOp::Sub => Opcode::Sub,
        BinOp::Mul => Opcode::Mul,
        BinOp::Div => Opcode::Div,
        BinOp::Mod => Opcode::Mod,
        BinOp::Eq => Opcode::Eq,
        BinOp::Neq => Opcode::Neq,
        BinOp::Lt => Opcode::Lt,
        BinOp::Gt => Opcode::Gt,
        BinOp::Le => Opcode::Le,
        _ => Opcode::Ge,
    }
}

/// The name of a function that was given none.
pub open spec fn no_name() -> Seq<char> {
    "<anonymous>"@
}

/// The draft of a compiler for a function of the given file, with no code
/// yet: the function has the name of the file until it is given its own.
pub open spec fn fresh(file: Seq<char>) -> Draft {
    Draft {
        closure: ClosureView {
            name: file,
            file_name: file,
            lines: Seq::empty(),
            upvals: Seq::empty(),
            code: Seq::empty(),
            consts: Seq::empty(),
            nparams: 0,
        },
        funcs: Seq::empty(),
        freereg: 0,
        nvars: 0,
        vars: Seq::empty(),
        upvals: Seq::empty(),
        nup: 0,
        name: file,
        line: 1,
        reach: 0,
    }
}

impl Draft {
    /// A compilation fails here, for the given reason, and leaves the draft
    /// as it is.
    pub open spec fn fail(self, kind: CompileError) -> Failure {
        Failure { kind, line: self.line, at: self }
    }

    /// The number of instructions after the capture prologue.
    pub open spec fn body_len(self) -> int {
        self.closure.code.len() - self.nup
    }

    /// The draft with the temporary registers free again.
    pub open spec fn settled(self) -> Draft {
        Draft { freereg: self.nvars, ..self }
    }

    /// The draft with the first free register set.
    pub open spec fn with_free(self, freereg: u8) -> Draft {
        Draft { freereg, ..self }
    }

    /// An instruction goes to the end of the code, with the line of the
    /// statement being compiled.
    pub open spec fn emit(self, w: u32) -> Draft {
        Draft {
            closure: ClosureView {
                code: self.closure.code.push(w),
                lines: self.closure.lines.push(self.line),
                ..self.closure
            },
            ..self
        }
    }

    /// An instruction of layout ABC goes to the end of the code.
    pub open spec fn emit_abc(self, op: Opcode, a: u16, b: u16, c: u8) -> Draft {
        self.emit(abc_word(op, a, b, c))
    }

    /// An instruction of layout ABx goes to the end of the code.
    pub open spec fn emit_abx(self, op: Opcode, a: u16, bx: u16) -> Draft {
        self.emit(abx_word(op, a, bx))
    }

    /// A jump that goes nowhere yet goes to the end of the code: a jump
    /// over 0 instructions, which therefore goes to itself.
    pub open spec fn emit_jmp(self) -> Draft {
        (Draft {
            reach: if self.reach < self.closure.code.len() {
                self.closure.code.len() as usize
            } else {
                self.reach
            },
            ..self
        }).emit(abx_word(Opcode::Jmp, 0, 0))
    }

    /// The jump at place `pos` after the prologue is aimed at the end of
    /// the code.
    pub open spec fn fix_jmp(self, pos: usize) -> Result<Draft, Failure> {
        let at = pos + self.nup;
        let dist = self.closure.code.len() - at;
        if dist > 65535 {
            Err(self.fail(CompileError::BlockTooLong))
        } else {
            Ok(
                Draft {
                    closure: ClosureView {
                        code: self.closure.code.update(at, abx_word(Opcode::Jmp, 0, dist as u16)),
                        ..self.closure
                    },
                    reach: self.closure.code.len() as usize,
                    ..self
                },
            )
        }
    }

    /// A jump back to the place `start` after the prologue goes to the end
    /// of the code.
    pub open spec fn emit_back(self, start: usize) -> Result<Draft, Failure> {
        let dist = self.body_len() - start;
        if dist > 65535 {
            Err(self.fail(CompileError::BlockTooLong))
        } else {
            Ok(
                (Draft {
                    reach: if self.reach < self.closure.code.len() - dist {
                        (self.closure.code.len() - dist) as usize
                    } else {
                        self.reach
                    },
                    ..self
                }).emit(abx_word(Opcode::Jmp, 1, dist as u16)),
            )
        }
    }

    /// A capture instruction goes to the head of the code: the prologue
    /// grows by one, and every instruction moves one place up.
    pub open spec fn prepend_capture(self, slot: u8, source: u8) -> Draft {
        Draft {
            closure: ClosureView {
                code: self.closure.code.insert(0, abc_word(Opcode::GetUpVal, slot as u16, source as u16, 1)),
                lines: self.closure.lines.insert(0, self.line),
                ..self.closure
            },
            nup: (self.nup + 1) as u8,
            reach: (self.reach + 1) as usize,
            ..self
        }
    }

    /// The index of a constant in the pool, to which the constant is added
    /// where it is not in it: the index of the constant that equals `v`,
    /// and else the end of the pool, where `v` then goes, unless the pool
    /// is full.
    pub open spec fn resolve_const(self, v: Val) -> Result<(Draft, u16), Failure> {
        let pool = self.closure.consts;
        let at = find_const(pool, v, 0);
        if at < pool.len() {
            Ok((self, at as u16))
        } else if pool.len() >= MAX_CONSTS {
            Err(self.fail(CompileError::ConstantOverflow))
        } else {
            Ok((Draft { closure: ClosureView { consts: pool.push(v), ..self.closure }, ..self }, at as u16))
        }
    }

    /// The register of a local variable.
    pub open spec fn get_var(self, name: Seq<char>) -> Option<u8> {
        find_var(self.vars, name, 0)
    }

    /// The slot of a variable of an enclosing function, which is captured
    /// where this is the first time that it is met: then a capture
    /// instruction goes to the head of the code, the variable gets the next
    /// slot, and is marked as captured. There is no slot where no enclosing
    /// function has a variable of the name.
    pub open spec fn get_upval(self, name: Seq<char>) -> Result<(Draft, Option<u8>), Failure> {
        let at = find_up(self.upvals, name, 0);
        if at >= self.upvals.len() {
            Ok((self, None))
        } else if self.upvals[at].captured {
            Ok((self, Some(self.upvals[at].pos)))
        } else if self.nup == 255 || self.closure.code.len() >= usize::MAX {
            Err(self.fail(CompileError::TooComplex))
        } else {
            let d = self.prepend_capture(self.nup, self.upvals[at].pos);
            Ok(
                (
                    Draft {
                        upvals: self.upvals.update(at, Outer { name: self.upvals[at].name, pos: self.nup, captured: true }),
                        ..d
                    },
                    Some(self.nup),
                ),
            )
        }
    }

    /// `n` more registers are taken for temporary values, if there are as
    /// many.
    pub open spec fn reserve_regs(self, n: u8) -> Result<Draft, Failure> {
        if self.freereg + n > 255 {
            Err(self.fail(CompileError::TooComplex))
        } else {
            Ok(Draft { freereg: (self.freereg + n) as u8, ..self })
        }
    }

    /// The next register becomes a local variable of the given name. A
    /// function has at most 255 local variables.
    pub open spec fn register_var(self, name: Seq<char>) -> Result<(Draft, u8), Failure> {
        if self.nvars >= 255 {
            Err(self.fail(CompileError::TooManyLocals))
        } else {
            Ok(
                (
                    Draft {
                        nvars: (self.nvars + 1) as u8,
                        vars: self.vars.insert(0, Local { name, pos: self.nvars }),
                        ..self
                    },
                    self.nvars,
                ),
            )
        }
    }

    /// A scope ends: the local variables above the first `nvars` go out of
    /// scope, and where there are any, a `Close` instruction clears their
    /// registers.
    pub open spec fn close_scope(self, nvars: u8) -> Draft {
        let d = Draft {
            vars: self.vars.subrange(self.nvars - nvars, self.nvars as int),
            nvars,
            freereg: nvars,
            ..self
        };
        if nvars == self.nvars {
            d
        } else {
            d.emit_abc(Opcode::Close, nvars as u16, 0, 0)
        }
    }

    /// The function ends: a `Return` of nil goes to the end of the code,
    /// unless the code ends with a `Return` already and no jump goes to its
    /// end.
    pub open spec fn final_ret(self) -> Draft {
        let code = self.closure.code;
        if code.len() > 0 && self.reach < code.len() && op_of(code.last()) == Opcode::Return {
            self
        } else {
            self.emit_abc(Opcode::Return, 0, 1, 0)
        }
    }

    /// `LoadNil` for a register.
    pub open spec fn load_nil(self, reg: u8) -> Draft {
        self.emit_abc(Opcode::LoadNil, reg as u16, 0, 0)
    }

    /// `LoadBool` for a register.
    pub open spec fn load_bool(self, b: bool, reg: u8) -> Draft {
        self.emit_abc(
            Opcode::LoadBool,
            reg as u16,
            if b {
                1
            } else {
                0
            },
            0,
        )
    }

    /// A constant is pooled and loaded into a register.
    pub open spec fn load_const(self, v: Val, reg: u8) -> Result<Draft, Failure> {
        match self.resolve_const(v) {
            Err(f) => Err(f),
            Ok((d, k)) => Ok(d.emit_abx(Opcode::LoadConst, reg as u16, k)),
        }
    }

    /// A variable is read into a register: from its register where it is a
    /// local variable, else from its slot where an enclosing function has
    /// it, else from the global variables.
    pub open spec fn load_var(self, name: Seq<char>, reg: u8) -> Result<Draft, Failure> {
        match self.get_var(name) {
            Some(pos) => Ok(self.emit_abc(Opcode::Move, reg as u16, pos as u16, 0)),
            None => match self.get_upval(name) {
                Err(f) => Err(f),
                Ok((d, Some(slot))) => Ok(d.emit_abc(Opcode::GetUpVal, reg as u16, slot as u16, 0)),
                Ok((d, None)) => match d.resolve_const(Val::String(name)) {
                    Err(f) => Err(f),
                    Ok((d, k)) => Ok(d.emit_abx(Opcode::GetGlobal, reg as u16, k)),
                },
            },
        }
    }

    /// A variable is written from a register: to its register where it is
    /// a local variable, else to its slot where an enclosing function has
    /// it, else to the global variables.
    pub open spec fn store_var(self, name: Seq<char>, reg: u8) -> Result<Draft, Failure> {
        match self.get_var(name) {
            Some(var) => Ok(self.emit_abc(Opcode::Move, var as u16, reg as u16, 0)),
            None => match self.get_upval(name) {
                Err(f) => Err(f),
                Ok((d, Some(slot))) => Ok(d.emit_abc(Opcode::SetUpVal, slot as u16, reg as u16, 0)),
                Ok((d, None)) => match d.resolve_const(Val::String(name)) {
                    Err(f) => Err(f),
                    Ok((d, k)) => Ok(d.emit_abx(Opcode::SetGlobal, reg as u16, k)),
                },
            },
        }
    }

    /// A constant is pooled and becomes an operand: as a constant with the
    /// mode bit set where its index is below 255, else by loading it into
    /// register `reg`.
    pub open spec fn rc_const(self, v: Val, reg: u8) -> Result<(Draft, u16), Failure> {
        match self.resolve_const(v) {
            Err(f) => Err(f),
            Ok((d, k)) => if k < 255 {
                Ok((d, (256 + k) as u16))
            } else {
                Ok((d.emit_abx(Opcode::LoadConst, reg as u16, k), reg as u16))
            },
        }
    }
}

/// The variables that a function literal met in the draft `d` may capture:
/// the local variables of `d`, the newest first, and then the variables
/// that `d` itself knows of enclosing functions; none is captured yet.
pub open spec fn candidates(d: Draft) -> Seq<Outer> {
    Seq::new(d.vars.len(), |i: int| Outer { name: d.vars[i].name, pos: d.vars[i].pos, captured: false })
        + Seq::new(
        d.upvals.len(),
        |i: int| Outer { name: d.upvals[i].name, pos: d.upvals[i].pos, captured: false },
    )
}

/// The draft in which a function literal met in the draft `d` starts: a
/// fresh draft of the same file, with the function's name, at the line of
/// `d`, knowing the variables that it may capture.
pub open spec fn child_of(d: Draft, name: Option<Seq<char>>) -> Draft {
    let f = fresh(d.name);
    Draft {
        closure: ClosureView {
            name: match name {
                Some(n) => n,
                None => no_name(),
            },
            ..f.closure
        },
        line: d.line,
        upvals: candidates(d),
        ..f
    }
}

/// The parameters from `i` on become local variables, in order.
pub open spec fn with_params(d: Draft, params: Seq<Seq<char>>, i: int) -> Result<Draft, Failure>
    decreases params.len() - i,
{
    if i < 0 || i >= params.len() {
        Ok(d)
    } else {
        match d.register_var(params[i]) {
            Err(f) => Err(f),
            Ok((d1, _)) => with_params(d1, params, i + 1),
        }
    }
}

/// A statement node is compiled: the statement's line becomes the line of
/// what is emitted from here on.
pub open spec fn walk(d: Draft, node: NodeM) -> Result<Draft, Failure>
    decreases node, 0nat,
{
    stmt(Draft { line: node.line, ..d }, node.stmt)
}

/// The statements from `i` on are compiled, in order.
pub open spec fn walk_all(d: Draft, nodes: Seq<NodeM>, i: int) -> Result<Draft, Failure>
    decreases nodes, nodes.len() - i,
{
    if i < 0 || i >= nodes.len() {
        Ok(d)
    } else {
        match walk(d, nodes[i]) {
            Err(f) => Err(f),
            Ok(d1) => walk_all(d1, nodes, i + 1),
        }
    }
}

/// A statement is compiled.
pub open spec fn stmt(d: Draft, s: StmtM) -> Result<Draft, Failure>
    decreases s, 1nat,
{
    match s {
        StmtM::Return(..) => return_stmt(d, s),
        StmtM::While(..) => while_stmt(d, s),
        StmtM::For(..) => for_stmt(d, s),
        StmtM::Block(..) => block_stmt(d, s),
        StmtM::Let(..) => let_stmt(d, s),
        StmtM::If(..) => if_stmt(d, s),
        StmtM::Fn(..) => fn_stmt(d, s),
        StmtM::Expr(e) => match exp2nextreg(d, e) {
            Err(f) => Err(f),
            Ok((d1, _)) => Ok(d1.settled()),
        },
    }
}

/// `let name = value`: the value goes to the next register, which then is
/// the variable.
pub open spec fn let_stmt(d: Draft, s: StmtM) -> Result<Draft, Failure>
    decreases s, 0nat,
{
    match s {
        StmtM::Let(name, value) => match exp2nextreg(d, value) {
            Err(f) => Err(f),
            Ok((d1, _)) => match d1.register_var(name) {
                Err(f) => Err(f),
                Ok((d2, _)) => Ok(d2),
            },
        },
        _ => Ok(d),
    }
}

/// `fn name(params) body`: the name becomes a local variable first, so that
/// the body can refer to it; then a `Closure` instruction puts a closure of
/// the compiled function into the variable's register.
pub open spec fn fn_stmt(d: Draft, s: StmtM) -> Result<Draft, Failure>
    decreases s, 0nat,
{
    match s {
        StmtM::Fn(name, params, body) => match d.register_var(name) {
            Err(f) => Err(f),
            Ok((d1, var)) => match function(d1.settled(), Some(name), params, *body) {
                Err(f) => Err(f),
                Ok((d2, h)) => match d2.resolve_const(Val::Closure(h)) {
                    Err(f) => Err(f),
                    Ok((d3, k)) => Ok(d3.emit_abx(Opcode::Closure, var as u16, k)),
                },
            },
        },
        _ => Ok(d),
    }
}

/// A function is compiled in a draft of its own, see [`child_of`]: its
/// parameters are its first local variables, its body is compiled, and it
/// is ended. The finished function goes behind the functions compiled so
/// far, and its place there is its handle. An error in the function is an
/// error at the line of the statement that holds the function; it leaves
/// the draft as it was, but for the functions that were finished inside
/// the function before the error.
pub open spec fn function(d: Draft, name: Option<Seq<char>>, params: Seq<Seq<char>>, body: NodeM) -> Result<
    (Draft, usize),
    Failure,
>
    decreases body, 1nat,
{
    match with_params(child_of(d, name), params, 0) {
        Err(f) => Err(d.fail(f.kind)),
        Ok(c1) => {
            let c2 = Draft {
                closure: ClosureView { nparams: c1.nvars, ..c1.closure },
                freereg: c1.nvars,
                funcs: d.funcs,
                ..c1
            };
            match walk(c2, body) {
                Err(f) => Err(Failure { kind: f.kind, line: d.line, at: Draft { funcs: f.at.funcs, ..d } }),
                Ok(c3) => {
                    let c4 = c3.final_ret();
                    Ok((Draft { funcs: c4.funcs.push(c4.closure), ..d }, c4.funcs.len() as usize))
                },
            }
        },
    }
}

/// `return value`.
pub open spec fn return_stmt(d: Draft, s: StmtM) -> Result<Draft, Failure>
    decreases s, 0nat,
{
    match s {
        StmtM::Return(val) => match exp2nextreg(d, val) {
            Err(f) => Err(f),
            Ok((d1, reg)) => Ok(d1.emit_abc(Opcode::Return, reg as u16, 0, 0).settled()),
        },
        _ => Ok(d),
    }
}

/// A condition is compiled: the value goes to a temporary register, a
/// `Test` of it skips the jump that follows where the value is truthy, and
/// that jump goes nowhere yet. With the draft comes the place of the jump.
pub open spec fn condition(d: Draft, cond: ExprM) -> Result<(Draft, usize), Failure>
    decreases cond, 4nat,
{
    match exp2nextreg(d, cond) {
        Err(f) => Err(f),
        Ok((d1, reg)) => {
            let d2 = d1.emit_abc(Opcode::Test, reg as u16, 0, 0);
            Ok((d2.emit_jmp().settled(), d2.body_len() as usize))
        },
    }
}

/// `if (cond) then else`: the jump after the test goes past the first
/// block; where there is a second block, a jump at the end of the first
/// goes past the second.
pub open spec fn if_stmt(d: Draft, s: StmtM) -> Result<Draft, Failure>
    decreases s, 0nat,
{
    match s {
        StmtM::If(cond, then, other) => match condition(d, cond) {
            Err(f) => Err(f),
            Ok((d1, pos)) => match walk(d1, *then) {
                Err(f) => Err(f),
                Ok(d2) => match other {
                    None => d2.fix_jmp(pos),
                    Some(block) => match d2.emit_jmp().fix_jmp(pos) {
                        Err(f) => Err(f),
                        Ok(d3) => match walk(d3, *block) {
                            Err(f) => Err(f),
                            Ok(d4) => d4.fix_jmp(d2.body_len() as usize),
                        },
                    },
                },
            },
        },
        _ => Ok(d),
    }
}

/// `while (cond) body`: the jump after the test goes past the loop, and a
/// jump at the end of the body goes back to the condition.
pub open spec fn while_stmt(d: Draft, s: StmtM) -> Result<Draft, Failure>
    decreases s, 0nat,
{
    match s {
        StmtM::While(cond, body) => match condition(d, cond) {
            Err(f) => Err(f),
            Ok((d1, pos)) => match walk(d1, *body) {
                Err(f) => Err(f),
                Ok(d2) => match d2.emit_back(d.body_len() as usize) {
                    Err(f) => Err(f),
                    Ok(d3) => d3.fix_jmp(pos),
                },
            },
        },
        _ => Ok(d),
    }
}

/// `for (init; cond; post) body`: what `init` declares is in scope of the
/// condition, the body and `post`, and goes out of scope after the loop;
/// `post` runs at the end of each round.
pub open spec fn for_stmt(d: Draft, s: StmtM) -> Result<Draft, Failure>
    decreases s, 0nat,
{
    match s {
        StmtM::For(init, cond, post, body) => match walk(d, *init) {
            Err(f) => Err(f),
            Ok(d1) => match condition(d1, cond) {
                Err(f) => Err(f),
                Ok((d2, pos)) => match walk(d2, *body) {
                    Err(f) => Err(f),
                    Ok(d3) => match exp2nextreg(d3, post) {
                        Err(f) => Err(f),
                        Ok((d4, _)) => match d4.settled().emit_back(d1.body_len() as usize) {
                            Err(f) => Err(f),
                            Ok(d5) => match d5.fix_jmp(pos) {
                                Err(f) => Err(f),
                                Ok(d6) => Ok(d6.close_scope(d.nvars)),
                            },
                        },
                    },
                },
            },
        },
        _ => Ok(d),
    }
}

/// `{ statements }`: what the block declares goes out of scope at its end.
pub open spec fn block_stmt(d: Draft, s: StmtM) -> Result<Draft, Failure>
    decreases s, 0nat,
{
    match s {
        StmtM::Block(nodes) => match walk_all(d, nodes, 0) {
            Err(f) => Err(f),
            Ok(d1) => Ok(d1.close_scope(d.nvars)),
        },
        _ => Ok(d),
    }
}

/// An expression is compiled into the next free register, which it takes;
/// with the draft comes that register.
pub open spec fn exp2nextreg(d: Draft, e: ExprM) -> Result<(Draft, u8), Failure>
    decreases e, 3nat,
{
    match d.reserve_regs(1) {
        Err(f) => Err(f),
        Ok(d1) => match expr(d1, e, (d1.freereg - 1) as u8) {
            Err(f) => Err(f),
            Ok(d2) => Ok((d2, (d1.freereg - 1) as u8)),
        },
    }
}

/// An expression is compiled so that its value is in register `reg`, the
/// topmost register in use.
pub open spec fn expr(d: Draft, e: ExprM, reg: u8) -> Result<Draft, Failure>
    decreases e, 2nat,
{
    match e {
        ExprM::String(s) => d.load_const(Val::String(s), reg),
        ExprM::Number(n) => d.load_const(Val::Number(n), reg),
        ExprM::Name(s) => d.load_var(s, reg),
        ExprM::Bool(b) => Ok(d.load_bool(b, reg)),
        ExprM::Nil => Ok(d.load_nil(reg)),
        ExprM::AnonFn(params, body) => match function(d, None, params, *body) {
            Err(f) => Err(f),
            Ok((d1, h)) => match d1.resolve_const(Val::Closure(h)) {
                Err(f) => Err(f),
                Ok((d2, k)) => Ok(d2.emit_abx(Opcode::Closure, reg as u16, k)),
            },
        },
        ExprM::Array(..) => load_array(d, e, reg),
        ExprM::Table(..) => load_table(d, e, reg),
        ExprM::Index(..) => load_index(d, e, reg),
        ExprM::Binary(..) => binary(d, e, reg),
        ExprM::Unary(..) => unary(d, e, reg),
        ExprM::Call(..) => call(d, e, reg),
    }
}

/// The items of an array from `i` on are compiled: the first into `reg`,
/// each other one into the next free register.
pub open spec fn items_from(d: Draft, items: Seq<ExprM>, i: int, reg: u8) -> Result<Draft, Failure>
    decreases items, items.len() - i,
{
    if i < 0 || i >= items.len() {
        Ok(d)
    } else if i == 0 {
        match expr(d, items[i], reg) {
            Err(f) => Err(f),
            Ok(d1) => items_from(d1, items, i + 1, reg),
        }
    } else {
        match exp2nextreg(d, items[i]) {
            Err(f) => Err(f),
            Ok((d1, _)) => items_from(d1, items, i + 1, reg),
        }
    }
}

/// An array literal: the items go to the registers from `reg` on, and
/// `NewArray` makes the array of them in `reg`.
pub open spec fn load_array(d: Draft, e: ExprM, reg: u8) -> Result<Draft, Failure>
    decreases e, 1nat,
{
    match e {
        ExprM::Array(items) => match items_from(d, items, 0, reg) {
            Err(f) => Err(f),
            Ok(d1) => Ok(
                d1.emit_abc(
                    Opcode::NewArray,
                    reg as u16,
                    if items.len() == 0 {
                        reg as u16
                    } else {
                        d1.freereg as u16
                    },
                    0,
                ).with_free((reg + 1) as u8),
            ),
        },
        _ => Ok(d),
    }
}

/// The entries of a table from `i` on are compiled: the first key into
/// `reg`, each other key and each value into the next free register.
pub open spec fn pairs_from(d: Draft, pairs: Seq<PairM>, i: int, reg: u8) -> Result<Draft, Failure>
    decreases pairs, pairs.len() - i,
{
    if i < 0 || i >= pairs.len() {
        Ok(d)
    } else {
        match (if i == 0 {
            expr(d, pairs[i].key, reg)
        } else {
            match exp2nextreg(d, pairs[i].key) {
                Err(f) => Err(f),
                Ok((d1, _)) => Ok(d1),
            }
        }) {
            Err(f) => Err(f),
            Ok(d1) => match exp2nextreg(d1, pairs[i].value) {
                Err(f) => Err(f),
                Ok((d2, _)) => pairs_from(d2, pairs, i + 1, reg),
            },
        }
    }
}

/// A table literal: keys and values go in turn to the registers from `reg`
/// on, and `NewTable` makes the table of them in `reg`.
pub open spec fn load_table(d: Draft, e: ExprM, reg: u8) -> Result<Draft, Failure>
    decreases e, 1nat,
{
    match e {
        ExprM::Table(pairs) => match pairs_from(d, pairs, 0, reg) {
            Err(f) => Err(f),
            Ok(d1) => Ok(
                d1.emit_abc(
                    Opcode::NewTable,
                    reg as u16,
                    if pairs.len() == 0 {
                        reg as u16
                    } else {
                        d1.freereg as u16
                    },
                    0,
                ).with_free((reg + 1) as u8),
            ),
        },
        _ => Ok(d),
    }
}

/// `obj[idx]`: the object goes to `reg`, and `GetObj` replaces it by what
/// it holds at the index.
pub open spec fn load_index(d: Draft, e: ExprM, reg: u8) -> Result<Draft, Failure>
    decreases e, 1nat,
{
    match e {
        ExprM::Index(obj, idx) => match expr(d, *obj, reg) {
            Err(f) => Err(f),
            Ok(d1) => match rc2nextreg(d1, *idx) {
                Err(f) => Err(f),
                Ok((d2, k)) => Ok(d2.emit_abc(Opcode::GetObj, reg as u16, k, 0)),
            },
        },
        _ => Ok(d),
    }
}

/// The arguments of a call from `i` on are compiled, each into the next
/// free register.
pub open spec fn args_from(d: Draft, args: Seq<ExprM>, i: int) -> Result<Draft, Failure>
    decreases args, args.len() - i,
{
    if i < 0 || i >= args.len() {
        Ok(d)
    } else {
        match exp2nextreg(d, args[i]) {
            Err(f) => Err(f),
            Ok((d1, _)) => args_from(d1, args, i + 1),
        }
    }
}

/// `func(args)`: the function goes to `reg`, the arguments to the registers
/// after it, and `Call` leaves the result in `reg`.
pub open spec fn call(d: Draft, e: ExprM, reg: u8) -> Result<Draft, Failure>
    decreases e, 1nat,
{
    match e {
        ExprM::Call(func, args) => match expr(d, *func, reg) {
            Err(f) => Err(f),
            Ok(d1) => match args_from(d1, args, 0) {
                Err(f) => Err(f),
                Ok(d2) => Ok(
                    d2.emit_abc(Opcode::Call, reg as u16, d2.freereg as u16, reg).with_free((reg + 1) as u8),
                ),
            },
        },
        _ => Ok(d),
    }
}

/// A binary operation. The left operand goes to `reg` unless it is a
/// constant; the right operand to the next register unless it is one, or
/// `reg` is still free; the result goes to `reg`.
pub open spec fn binary(d: Draft, e: ExprM, reg: u8) -> Result<Draft, Failure>
    decreases e, 1nat,
{
    match e {
        ExprM::Binary(lhs, op, rhs) => match op {
            BinOp::Assign => assignment(d, e, reg),
            BinOp::And => logical(d, e, reg),
            BinOp::Or => logical(d, e, reg),
            _ => match rc2reg(d, *lhs, reg) {
                Err(f) => Err(f),
                Ok((d1, lhv)) => match (if lhv >= 256 {
                    rc2reg(d1, *rhs, reg)
                } else {
                    rc2nextreg(d1, *rhs)
                }) {
                    Err(f) => Err(f),
                    Ok((d2, rhv)) => Ok(d2.emit_abc(opcode_of(op), lhv, rhv, reg)),
                },
            },
        },
        _ => Ok(d),
    }
}

/// `lhs && rhs` and `lhs || rhs`: the left operand goes to `reg`; a `Test`
/// and a jump leave it there where it decides the result, and else the
/// right operand goes to `reg`.
pub open spec fn logical(d: Draft, e: ExprM, reg: u8) -> Result<Draft, Failure>
    decreases e, 0nat,
{
    match e {
        ExprM::Binary(lhs, op, rhs) => match expr(d, *lhs, reg) {
            Err(f) => Err(f),
            Ok(d1) => {
                let d2 = d1.emit_abc(
                    Opcode::Test,
                    reg as u16,
                    if op == BinOp::Or {
                        1
                    } else {
                        0
                    },
                    0,
                );
                match expr(d2.emit_jmp(), *rhs, reg) {
                    Err(f) => Err(f),
                    Ok(d3) => d3.fix_jmp(d2.body_len() as usize),
                }
            },
        },
        _ => Ok(d),
    }
}

/// A unary operation: the operand goes to the next register unless it is
/// a constant, and the result to `reg`.
pub open spec fn unary(d: Draft, e: ExprM, reg: u8) -> Result<Draft, Failure>
    decreases e, 1nat,
{
    match e {
        ExprM::Unary(op, operand) => match rc2nextreg(d, *operand) {
            Err(f) => Err(f),
            Ok((d1, v)) => Ok(
                d1.emit_abc(
                    match op {
                        UnOp::Neg => Opcode::Neg,
                        UnOp::Not => Opcode::Not,
                    },
                    reg as u16,
                    v,
                    0,
                ),
            ),
        },
        _ => Ok(d),
    }
}

/// An assignment. To a name: the value goes to `reg` and from there to the
/// variable, be it local, captured or global. To an index: the object goes
/// to `reg`, index and value to the two registers after it unless they are
/// constants, and `SetObj` stores the value. Nothing else can be assigned
/// to.
pub open spec fn assignment(d: Draft, e: ExprM, reg: u8) -> Result<Draft, Failure>
    decreases e, 0nat,
{
    match e {
        ExprM::Binary(target, op, value) => match *target {
            ExprM::Name(name) => match expr(d, *value, reg) {
                Err(f) => Err(f),
                Ok(d1) => d1.store_var(name, reg),
            },
            ExprM::Index(obj, idx) => match expr(d, *obj, reg) {
                Err(f) => Err(f),
                Ok(d1) => match d1.reserve_regs(1) {
                    Err(f) => Err(f),
                    Ok(d2) => match rc2reg(d2, *idx, (d2.freereg - 1) as u8) {
                        Err(f) => Err(f),
                        Ok((d3, a)) => match d3.reserve_regs(1) {
                            Err(f) => Err(f),
                            Ok(d4) => match rc2reg(d4, *value, (d4.freereg - 1) as u8) {
                                Err(f) => Err(f),
                                Ok((d5, b)) => Ok(
                                    d5.emit_abc(Opcode::SetObj, a, b, reg).with_free((reg + 1) as u8),
                                ),
                            },
                        },
                    },
                },
            },
            _ => Err(d.fail(CompileError::BadAssign)),
        },
        _ => Ok(d),
    }
}

/// An operand is compiled with the next free register at its disposal,
/// which is free again afterwards.
pub open spec fn rc2nextreg(d: Draft, e: ExprM) -> Result<(Draft, u16), Failure>
    decreases e, 4nat,
{
    match d.reserve_regs(1) {
        Err(f) => Err(f),
        Ok(d1) => match rc2reg(d1, e, (d1.freereg - 1) as u8) {
            Err(f) => Err(f),
            Ok((d2, k)) => Ok((d2.with_free((d2.freereg - 1) as u8), k)),
        },
    }
}

/// An operand is compiled. A text or number literal whose constant has an
/// index below 255 is the operand as a constant, with the mode bit set;
/// anything else, a local variable too, goes to register `reg`, which then
/// is the operand: an operand holds what the expression was when it was
/// evaluated, whatever is assigned afterwards.
pub open spec fn rc2reg(d: Draft, e: ExprM, reg: u8) -> Result<(Draft, u16), Failure>
    decreases e, 3nat,
{
    match e {
        ExprM::String(s) => d.rc_const(Val::String(s), reg),
        ExprM::Number(n) => d.rc_const(Val::Number(n), reg),
        _ => match expr(d, e, reg) {
            Err(f) => Err(f),
            Ok(d1) => Ok((d1, reg as u16)),
        },
    }
}

/// The statements of a program from `i` on are compiled, in order; after
/// each no temporary register is in use.
pub open spec fn program_from(d: Draft, nodes: Seq<NodeM>, i: int) -> Result<Draft, Failure>
    decreases nodes.len() - i,
{
    if i < 0 || i >= nodes.len() {
        Ok(d)
    } else {
        match walk(d, nodes[i]) {
            Err(f) => Err(f),
            Ok(d1) => program_from(d1.settled(), nodes, i + 1),
        }
    }
}

/// A program is compiled: its statements in order, and the end of the
/// function.
pub open spec fn program(d: Draft, nodes: Seq<NodeM>) -> Result<Draft, Failure> {
    match program_from(d, nodes, 0) {
        Err(f) => Err(f),
        Ok(d1) => Ok(d1.final_ret()),
    }
}

} // verus!
