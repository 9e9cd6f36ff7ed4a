//! Where the jumps that the compiler emits land, and what its `Close`
//! instructions clear. Places are counted after the capture prologue, as the
//! compiler counts them: a capture that is added later moves the code and
//! no place. The places that the statements' lemmas take lie where the
//! compiler has them: a condition's jump in the code that is there when the
//! block ends, which the compiler's own contracts state of every step.

use vstd::prelude::*;
use crate::common::opcode::Opcode;
use crate::parser::ast::{ExprM, NodeM, StmtM};
use crate::parser::gen::{is_jump, jump_target};
use crate::parser::model::{
    block_stmt, condition, exp2nextreg, for_stmt, if_stmt, walk, walk_all, while_stmt, Draft, Failure,
};
use crate::vm::code::{a_field, lemma_abc_round_trip, lemma_abx_round_trip, op_of};

verus! {

impl Draft {
    /// The instruction at place `pos` after the prologue.
    pub open spec fn word_at(self, pos: int) -> u32 {
        self.closure.code[pos + self.nup]
    }

    /// At place `pos` stands a jump forward that lands at place `to`.
    pub open spec fn jumps_on(self, pos: int, to: int) -> bool {
        &&& 0 <= pos < self.body_len()
        &&& is_jump(self.word_at(pos))
        &&& a_field(self.word_at(pos)) == 0
        &&& jump_target(self.word_at(pos), pos) == to
    }

    /// At place `pos` stands a jump back that lands at place `to`.
    pub open spec fn jumps_back(self, pos: int, to: int) -> bool {
        &&& 0 <= pos < self.body_len()
        &&& is_jump(self.word_at(pos))
        &&& a_field(self.word_at(pos)) == 1
        &&& jump_target(self.word_at(pos), pos) == to
    }

    /// The code of `self` begins with the code of `d`, but for the
    /// instruction at place `pos`.
    pub open spec fn extends_but(self, d: Draft, pos: int) -> bool {
        &&& self.nup == d.nup
        &&& self.body_len() >= d.body_len()
        &&& forall|k: int| 0 <= k < d.body_len() && k != pos ==> #[trigger] self.word_at(k) == d.word_at(k)
    }

    /// The last instruction is `Close` for the registers from `nvars` on.
    pub open spec fn ends_with_close(self, nvars: u8) -> bool {
        &&& self.closure.code.len() > 0
        &&& op_of(self.closure.code.last()) == Opcode::Close
        &&& a_field(self.closure.code.last()) == nvars
    }
}

/// A jump that is given its aim lands on the instruction that is emitted
/// next. It cannot be aimed if and only if that is more than 65,535
/// instructions away. Nothing else changes in the code.
pub proof fn lemma_fix_jmp_lands(d: Draft, pos: usize)
    requires
        pos < d.body_len(),
    ensures
        d.fix_jmp(pos) is Err <==> d.body_len() - pos > 65535,
        d.fix_jmp(pos) matches Ok(r) ==> r.jumps_on(pos as int, r.body_len()) && r.body_len() == d.body_len()
            && r.extends_but(d, pos as int),
{
    let at = pos + d.nup;
    let dist = d.closure.code.len() - at;
    if dist <= 65535 {
        lemma_abx_round_trip(Opcode::Jmp, 0, dist as u16);
        assert((0u16 & 0xFF) as u8 == 0u8) by (bit_vector);
    }
}

/// A jump back lands at the place it was emitted for. It cannot be emitted
/// if and only if that place is more than 65,535 instructions back. The
/// code before it stays.
pub proof fn lemma_emit_back_lands(d: Draft, start: usize)
    requires
        start <= d.body_len(),
    ensures
        d.emit_back(start) is Err <==> d.body_len() - start > 65535,
        d.emit_back(start) matches Ok(r) ==> r.jumps_back(d.body_len(), start as int) && r.body_len()
            == d.body_len() + 1 && r.extends_but(d, -1),
{
    let dist = d.body_len() - start;
    if dist <= 65535 {
        lemma_abx_round_trip(Opcode::Jmp, 1, dist as u16);
        assert((1u16 & 0xFF) as u8 == 1u8) by (bit_vector);
    }
}

/// Where a scope ends that declared something, the code ends with a `Close`
/// whose operand is the number of variables that stay; where it declared
/// nothing, no instruction is emitted. The code before stays.
pub proof fn lemma_close_scope_clears(d: Draft, nvars: u8)
    ensures
        d.close_scope(nvars).nvars == nvars,
        d.close_scope(nvars).freereg == nvars,
        d.close_scope(nvars).extends_but(d, -1),
        nvars == d.nvars ==> d.close_scope(nvars).closure == d.closure,
        nvars != d.nvars ==> d.close_scope(nvars).ends_with_close(nvars) && d.close_scope(nvars).body_len()
            == d.body_len() + 1,
{
    lemma_abc_round_trip(Opcode::Close, nvars as u16, 0, 0);
    assert(((nvars as u16) & 0xFF) as u8 == nvars) by (bit_vector);
}

/// A block that declared variables ends with a `Close` whose operand is the
/// number of variables that were in scope before the block.
pub proof fn lemma_block_closes(d: Draft, nodes: Seq<NodeM>)
    requires
        block_stmt(d, StmtM::Block(nodes)) is Ok,
    ensures
        walk_all(d, nodes, 0) is Ok,
        ({
            let inner = walk_all(d, nodes, 0)->Ok_0;
            let r = block_stmt(d, StmtM::Block(nodes))->Ok_0;
            &&& r.nvars == d.nvars
            &&& inner.nvars != d.nvars ==> r.ends_with_close(d.nvars)
            &&& inner.nvars == d.nvars ==> r.closure == inner.closure
        }),
{
    lemma_close_scope_clears(walk_all(d, nodes, 0)->Ok_0, d.nvars);
}

/// The end of `if (cond) first else second`, where the first block has been
/// compiled: the jump that is emitted there is the last instruction, and
/// the jump after the test, at place `pos`, lands behind it, on the first
/// instruction of the second block. (Without a second block the jump after
/// the test is aimed once the first block is compiled, and lands behind
/// the statement: that is [`lemma_fix_jmp_lands`].)
pub proof fn lemma_else_lands(d: Draft, pos: usize)
    requires
        pos < d.body_len(),
    ensures
        d.emit_jmp().fix_jmp(pos) is Err <==> d.body_len() + 1 - pos > 65535,
        d.emit_jmp().fix_jmp(pos) matches Ok(r) ==> {
            &&& r.body_len() == d.body_len() + 1
            &&& r.jumps_on(pos as int, d.body_len() + 1)
            &&& is_jump(r.word_at(d.body_len()))
            &&& r.extends_but(d, pos as int)
        },
{
    lemma_abx_round_trip(Opcode::Jmp, 0, 0);
    lemma_fix_jmp_lands(d.emit_jmp(), pos);
    if d.emit_jmp().fix_jmp(pos) is Ok {
        let r = d.emit_jmp().fix_jmp(pos)->Ok_0;
        assert(r.word_at(d.body_len()) == d.emit_jmp().word_at(d.body_len()));
        assert forall|k: int| 0 <= k < d.body_len() && k != pos implies #[trigger] r.word_at(k) == d.word_at(k) by {
            assert(r.word_at(k) == d.emit_jmp().word_at(k));
        }
    }
}

/// The end of a loop, as `while` and `for` emit it, where the condition
/// begins at place `start`, the jump after its test stands at place `pos`,
/// and the body has been compiled: the last instruction is a jump back that
/// lands on the first instruction of the condition, and the jump after the
/// test lands behind it, on the first instruction after the loop.
pub proof fn lemma_loop_lands(d: Draft, start: usize, pos: usize)
    requires
        start <= pos < d.body_len(),
    ensures
        d.emit_back(start) is Err <==> d.body_len() - start > 65535,
        d.emit_back(start) matches Ok(b) ==> (b.fix_jmp(pos) is Err <==> d.body_len() + 1 - pos > 65535),
        d.emit_back(start) matches Ok(b) ==> (b.fix_jmp(pos) matches Ok(r) ==> {
            &&& r.body_len() == d.body_len() + 1
            &&& r.jumps_back(d.body_len(), start as int)
            &&& r.jumps_on(pos as int, r.body_len())
            &&& r.extends_but(d, pos as int)
        }),
{
    lemma_emit_back_lands(d, start);
    if d.emit_back(start) is Ok {
        let b = d.emit_back(start)->Ok_0;
        lemma_fix_jmp_lands(b, pos);
        if b.fix_jmp(pos) is Ok {
            let r = b.fix_jmp(pos)->Ok_0;
            assert(r.word_at(d.body_len()) == b.word_at(d.body_len()));
            assert forall|k: int| 0 <= k < d.body_len() && k != pos implies #[trigger] r.word_at(k) == d.word_at(
                k,
            ) by {
                assert(r.word_at(k) == b.word_at(k));
            }
        }
    }
}

/// `while (cond) body`, where the condition begins at the place where the
/// statement begins, the jump after its test stands at place `pos`, and
/// the body has been compiled to the draft `inner`: the loop ends with a
/// jump back that lands on the first instruction of the condition, and the
/// jump after the test lands on the first instruction after the loop.
#[verifier::rlimit(50)]
pub proof fn lemma_while_lands(d: Draft, cond: ExprM, body: NodeM, tested: Draft, pos: usize, inner: Draft)
    requires
        condition(d, cond) == Ok::<(Draft, usize), Failure>((tested, pos)),
        walk(tested, body) == Ok::<Draft, Failure>(inner),
        0 <= d.body_len() <= pos < inner.body_len(),
    ensures
        while_stmt(d, StmtM::While(cond, Box::new(body))) matches Ok(r) ==> {
            &&& r.body_len() == inner.body_len() + 1
            &&& r.jumps_back(inner.body_len(), d.body_len())
            &&& r.jumps_on(pos as int, r.body_len())
            &&& r.extends_but(inner, pos as int)
        },
        while_stmt(d, StmtM::While(cond, Box::new(body))) is Err <==> inner.body_len() - d.body_len() > 65535
            || inner.body_len() + 1 - pos > 65535,
{
    lemma_loop_lands(inner, d.body_len() as usize, pos);
}

/// `if (cond) then`, where the jump after the test of the condition stands
/// at place `pos` and the block has been compiled to the draft `inner`: the
/// jump after the test lands on the first instruction after the statement.
#[verifier::rlimit(50)]
pub proof fn lemma_if_lands(d: Draft, cond: ExprM, then: NodeM, tested: Draft, pos: usize, inner: Draft)
    requires
        condition(d, cond) == Ok::<(Draft, usize), Failure>((tested, pos)),
        walk(tested, then) == Ok::<Draft, Failure>(inner),
        pos < inner.body_len(),
    ensures
        if_stmt(d, StmtM::If(cond, Box::new(then), None)) matches Ok(r) ==> {
            &&& r.body_len() == inner.body_len()
            &&& r.jumps_on(pos as int, r.body_len())
            &&& r.extends_but(inner, pos as int)
        },
        if_stmt(d, StmtM::If(cond, Box::new(then), None)) is Err <==> inner.body_len() - pos > 65535,
{
    lemma_fix_jmp_lands(inner, pos);
}

/// `if (cond) then else other`, where the jump after the test of the
/// condition stands at place `pos`, the first block has been compiled to
/// the draft `inner` and the second block to the draft `second`: a jump is
/// emitted behind the first block, and the jump after the test is aimed
/// behind it, at the first instruction of the second block, as
/// [`lemma_else_lands`] says; and when the second block is compiled, the
/// jump that ends the first block is aimed at the first instruction after
/// the statement, as [`lemma_fix_jmp_lands`] says.
#[verifier::rlimit(50)]
pub proof fn lemma_if_else_ends(
    d: Draft,
    cond: ExprM,
    then: NodeM,
    other: NodeM,
    tested: Draft,
    pos: usize,
    inner: Draft,
    second: Draft,
)
    requires
        condition(d, cond) == Ok::<(Draft, usize), Failure>((tested, pos)),
        walk(tested, then) == Ok::<Draft, Failure>(inner),
        inner.emit_jmp().fix_jmp(pos) is Ok,
        walk(inner.emit_jmp().fix_jmp(pos)->Ok_0, other) == Ok::<Draft, Failure>(second),
        0 <= inner.body_len() <= usize::MAX,
    ensures
        if_stmt(d, StmtM::If(cond, Box::new(then), Some(Box::new(other)))) == second.fix_jmp(
            inner.body_len() as usize,
        ),
{
}

/// `for (init; cond; post) body`, where `init` has been compiled to the
/// draft `first`, the jump after the test of the condition stands at place
/// `pos`, and the body and then `post` have been compiled to the draft
/// `stepped`: behind `post` stands a jump back that lands on the first
/// instruction of the condition; the jump after the test lands behind that
/// jump; and where the loop declared variables, a `Close` stands there,
/// whose operand is the number of variables that were in scope before the
/// loop.
#[verifier::rlimit(50)]
pub proof fn lemma_for_lands(
    d: Draft,
    init: NodeM,
    cond: ExprM,
    post: ExprM,
    body: NodeM,
    first: Draft,
    tested: Draft,
    pos: usize,
    inner: Draft,
    stepped: Draft,
    reg: u8,
)
    requires
        walk(d, init) == Ok::<Draft, Failure>(first),
        condition(first, cond) == Ok::<(Draft, usize), Failure>((tested, pos)),
        walk(tested, body) == Ok::<Draft, Failure>(inner),
        exp2nextreg(inner, post) == Ok::<(Draft, u8), Failure>((stepped, reg)),
        0 <= first.body_len() <= pos < stepped.body_len(),
    ensures
        for_stmt(d, StmtM::For(Box::new(init), cond, post, Box::new(body))) matches Ok(r) ==> {
            &&& r.nvars == d.nvars
            &&& r.jumps_back(stepped.body_len(), first.body_len())
            &&& r.jumps_on(pos as int, stepped.body_len() + 1)
            &&& r.extends_but(stepped, pos as int)
            &&& stepped.nvars == d.nvars ==> r.body_len() == stepped.body_len() + 1
            &&& stepped.nvars != d.nvars ==> r.body_len() == stepped.body_len() + 2 && r.ends_with_close(d.nvars)
        },
        for_stmt(d, StmtM::For(Box::new(init), cond, post, Box::new(body))) is Err <==> stepped.body_len()
            - first.body_len() > 65535 || stepped.body_len() + 1 - pos > 65535,
{
    let s = stepped.settled();
    assert(s.body_len() == stepped.body_len());
    assert(forall|k: int| s.word_at(k) == stepped.word_at(k));
    lemma_loop_lands(s, first.body_len() as usize, pos);
    if s.emit_back(first.body_len() as usize) is Ok {
        let b = s.emit_back(first.body_len() as usize)->Ok_0;
        if b.fix_jmp(pos) is Ok {
            let f = b.fix_jmp(pos)->Ok_0;
            lemma_close_scope_clears(f, d.nvars);
            let r = f.close_scope(d.nvars);
            assert(r.word_at(stepped.body_len()) == f.word_at(stepped.body_len()));
            assert(r.word_at(pos as int) == f.word_at(pos as int));
            assert forall|k: int| 0 <= k < stepped.body_len() && k != pos implies #[trigger] r.word_at(k)
                == stepped.word_at(k) by {
                assert(r.word_at(k) == f.word_at(k));
                assert(f.word_at(k) == s.word_at(k));
            }
        }
    }
}

} // verus!
