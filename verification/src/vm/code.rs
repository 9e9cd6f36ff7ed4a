use vstd::prelude::*;
use vstd::string::*;
use crate::common::closure::Closure;
use crate::common::opcode::{Opcode, Opmode, NUM_OPCODES};
use crate::common::text::{decimal, push_decimal, push_str, string_of};
use crate::common::value::{vals, Val, Value};

verus! {

/// The opcode field of an instruction word: its six highest bits.
pub open spec fn op_field(i: u32) -> u8 {
    ((i >> 26) & 0x3F) as u8
}

/// The mode bit of operand A: 1 where A names a constant.
pub open spec fn a_mode_field(i: u32) -> u8 {
    ((i >> 25) & 0x1) as u8
}

/// Operand A.
pub open spec fn a_field(i: u32) -> u8 {
    ((i >> 17) & 0xFF) as u8
}

/// The mode bit of operand B: 1 where B names a constant.
pub open spec fn b_mode_field(i: u32) -> u8 {
    ((i >> 16) & 0x1) as u8
}

/// Operand B.
pub open spec fn b_field(i: u32) -> u8 {
    ((i >> 8) & 0xFF) as u8
}

/// Operand C.
pub open spec fn c_field(i: u32) -> u8 {
    (i & 0xFF) as u8
}

/// Operand Bx: B and C read as one 16-bit number.
pub open spec fn bx_field(i: u32) -> u16 {
    (i & 0xFFFF) as u16
}

/// A word is an instruction if its opcode field names an opcode.
pub open spec fn is_instruction(i: u32) -> bool {
    op_field(i) < NUM_OPCODES
}

/// The opcode of an instruction.
pub open spec fn op_of(i: u32) -> Opcode
    recommends
        is_instruction(i),
{
    Opcode::of_code(op_field(i)).unwrap()
}

/// An operand with its mode bit: bit 8 is the mode, the low byte the operand.
pub open spec fn operand(mode: u8, val: u8) -> u16 {
    (((mode & 0x1) as u16) << 8) | (val as u16)
}

/// The word that packs an opcode with the operands A and B, each nine bits
/// wide with its mode bit on top, and C.
pub open spec fn abc_word(op: Opcode, a: u16, b: u16, c: u8) -> u32 {
    (((op.code() & 0x3F) as u32) << 26) | (((a & 0x1FF) as u32) << 17) | (((b & 0x1FF) as u32) << 8)
        | (c as u32)
}

/// The word that packs an opcode with operand A and the 16-bit operand Bx.
pub open spec fn abx_word(op: Opcode, a: u16, bx: u16) -> u32 {
    abc_word(op, a, (bx >> 8) & 0xFF, (bx & 0xFF) as u8)
}

/// Tells whether the opcode field of a word names an opcode.
pub fn is_valid(i: u32) -> (r: bool)
    ensures
        r == is_instruction(i),
{
    assert(((i >> 26) & 0x3F) <= 0x3F) by (bit_vector);
    ((i >> 26) & 0x3F) < 31
}

/// Reads the opcode of an instruction.
pub fn get_op(i: u32) -> (op: Opcode)
    requires
        is_instruction(i),
    ensures
        op == op_of(i),
        op.code() == op_field(i),
{
    assert(((i >> 26) & 0x3F) <= 0x3F) by (bit_vector);
    Opcode::from(((i >> 26) & 0x3F) as u8)
}

/// Reads the mode bit of operand A.
pub fn get_a_mode(i: u32) -> (r: u8)
    ensures
        r == a_mode_field(i),
        r <= 1,
{
    assert(((i >> 25) & 0x1) <= 1) by (bit_vector);
    ((i >> 25) & 0x1) as u8
}

/// Reads operand A.
pub fn get_a(i: u32) -> (r: u8)
    ensures
        r == a_field(i),
{
    ((i >> 17) & 0xFF) as u8
}

/// Reads the mode bit of operand B.
pub fn get_b_mode(i: u32) -> (r: u8)
    ensures
        r == b_mode_field(i),
        r <= 1,
{
    assert(((i >> 16) & 0x1) <= 1) by (bit_vector);
    ((i >> 16) & 0x1) as u8
}

/// Reads operand B.
pub fn get_b(i: u32) -> (r: u8)
    ensures
        r == b_field(i),
{
    ((i >> 8) & 0xFF) as u8
}

/// Reads operand C.
pub fn get_c(i: u32) -> (r: u8)
    ensures
        r == c_field(i),
{
    (i & 0xFF) as u8
}

/// Reads operand Bx, which is B in the high byte and C in the low byte.
pub fn get_bx(i: u32) -> (r: u16)
    ensures
        r == bx_field(i),
        r == b_field(i) as int * 256 + c_field(i) as int,
{
    let b: u8 = get_b(i);
    let c: u8 = get_c(i);
    let r: u16 = ((b as u16) << 8) | (c as u16);
    assert(r == (i & 0xFFFF) as u16 && r == (b as u16) * 256 + (c as u16)) by (bit_vector)
        requires
            b == ((i >> 8) & 0xFF) as u8,
            c == (i & 0xFF) as u8,
            r == ((b as u16) << 8) | (c as u16),
    ;
    r
}

/// Reads the mode bit of an operand that carries one.
pub fn get_mode(val: u16) -> (r: u8)
    ensures
        r == ((val >> 8) & 0x1) as u8,
        r <= 1,
{
    assert(((val >> 8) & 0x1) <= 1) by (bit_vector);
    ((val >> 8) & 0x1) as u8
}

/// Puts a mode bit on an operand.
pub fn set_mode(mode: u8, val: u8) -> (r: u16)
    ensures
        r == operand(mode, val),
        r < 512,
        (r & 0xFF) as u8 == val,
        ((r >> 8) & 0x1) as u8 == mode & 0x1,
{
    let given: u8 = mode;
    let mode: u8 = mode & 0x1;
    assert(mode <= 1 && mode & 0x1 == mode) by (bit_vector)
        requires
            mode == given & 0x1,
    ;
    let r: u16 = ((mode as u16) << 8) | (val as u16);
    assert(r < 512 && (r & 0xFF) as u8 == val && ((r >> 8) & 0x1) as u8 == mode && mode & 0x1 == mode
        && r == (((mode & 0x1) as u16) << 8) | (val as u16)) by (bit_vector)
        requires
            mode <= 1,
            r == ((mode as u16) << 8) | (val as u16),
    ;
    r
}

/// Packs an instruction of layout ABC. Of `a` and `b` the low nine bits
/// count: the operand and, above it, its mode bit.
pub fn make_abc(op: Opcode, a: u16, b: u16, c: u8) -> (i: u32)
    ensures
        i == abc_word(op, a, b, c),
{
    let op: u8 = op.to_u8() & 0x3F;
    let a: u16 = a & 0x1FF;
    let b: u16 = b & 0x1FF;
    ((op as u32) << 26) | ((a as u32) << 17) | ((b as u32) << 8) | (c as u32)
}

/// Packs an instruction of layout ABx.
pub fn make_abx(op: Opcode, a: u16, bx: u16) -> (i: u32)
    ensures
        i == abx_word(op, a, bx),
{
    make_abc(op, a, (bx >> 8) & 0xFF, (bx & 0xFF) as u8)
}

/// Decoding a packed ABC instruction gives back what was packed: the opcode,
/// both operands with their mode bits, and C.
pub proof fn lemma_abc_round_trip(op: Opcode, a: u16, b: u16, c: u8)
    ensures
        is_instruction(abc_word(op, a, b, c)),
        op_of(abc_word(op, a, b, c)) == op,
        a_field(abc_word(op, a, b, c)) == (a & 0xFF) as u8,
        a_mode_field(abc_word(op, a, b, c)) == ((a >> 8) & 0x1) as u8,
        b_field(abc_word(op, a, b, c)) == (b & 0xFF) as u8,
        b_mode_field(abc_word(op, a, b, c)) == ((b >> 8) & 0x1) as u8,
        c_field(abc_word(op, a, b, c)) == c,
{
    let k: u8 = op.code();
    assert(k < 31);
    assert(Opcode::of_code(k) == Some(op));
    let x: u32 = ((k & 0x3F) as u32) << 26;
    let y: u32 = ((a & 0x1FF) as u32) << 17;
    let z: u32 = ((b & 0x1FF) as u32) << 8;
    let w: u32 = x | y | z | (c as u32);
    assert(w == abc_word(op, a, b, c));
    assert(((w >> 26) & 0x3F) as u8 == k) by (bit_vector)
        requires
            k < 31,
            x == ((k & 0x3F) as u32) << 26,
            y == ((a & 0x1FF) as u32) << 17,
            z == ((b & 0x1FF) as u32) << 8,
            w == x | y | z | (c as u32),
    ;
    assert(((w >> 17) & 0xFF) as u8 == (a & 0xFF) as u8 && ((w >> 25) & 0x1) as u8 == ((a >> 8) & 0x1) as u8)
        by (bit_vector)
        requires
            x == ((k & 0x3F) as u32) << 26,
            y == ((a & 0x1FF) as u32) << 17,
            z == ((b & 0x1FF) as u32) << 8,
            w == x | y | z | (c as u32),
    ;
    assert(((w >> 8) & 0xFF) as u8 == (b & 0xFF) as u8 && ((w >> 16) & 0x1) as u8 == ((b >> 8) & 0x1) as u8)
        by (bit_vector)
        requires
            x == ((k & 0x3F) as u32) << 26,
            y == ((a & 0x1FF) as u32) << 17,
            z == ((b & 0x1FF) as u32) << 8,
            w == x | y | z | (c as u32),
    ;
    assert((w & 0xFF) as u8 == c) by (bit_vector)
        requires
            x == ((k & 0x3F) as u32) << 26,
            y == ((a & 0x1FF) as u32) << 17,
            z == ((b & 0x1FF) as u32) << 8,
            w == x | y | z | (c as u32),
    ;
}

/// Decoding a packed ABx instruction gives back the opcode, operand A with
/// its mode bit, and Bx.
pub proof fn lemma_abx_round_trip(op: Opcode, a: u16, bx: u16)
    ensures
        is_instruction(abx_word(op, a, bx)),
        op_of(abx_word(op, a, bx)) == op,
        a_field(abx_word(op, a, bx)) == (a & 0xFF) as u8,
        a_mode_field(abx_word(op, a, bx)) == ((a >> 8) & 0x1) as u8,
        b_mode_field(abx_word(op, a, bx)) == 0,
        bx_field(abx_word(op, a, bx)) == bx,
{
    let b: u16 = (bx >> 8) & 0xFF;
    let c: u8 = (bx & 0xFF) as u8;
    lemma_abc_round_trip(op, a, b, c);
    let k: u8 = op.code();
    let x: u32 = ((k & 0x3F) as u32) << 26;
    let y: u32 = ((a & 0x1FF) as u32) << 17;
    let z: u32 = ((b & 0x1FF) as u32) << 8;
    let w: u32 = x | y | z | (c as u32);
    assert(w == abx_word(op, a, bx));
    assert((w & 0xFFFF) as u16 == bx) by (bit_vector)
        requires
            b == (bx >> 8) & 0xFF,
            c == (bx & 0xFF) as u8,
            x == ((k & 0x3F) as u32) << 26,
            y == ((a & 0x1FF) as u32) << 17,
            z == ((b & 0x1FF) as u32) << 8,
            w == x | y | z | (c as u32),
    ;
    assert(((b >> 8) & 0x1) as u8 == 0) by (bit_vector)
        requires
            b == (bx >> 8) & 0xFF,
    ;
}

/// An operand in a listing: its number, behind a dash where its mode bit
/// is set and it names a constant.
pub open spec fn operand_text(mode: u8, x: nat) -> Seq<char> {
    if mode == 1 {
        "-"@ + decimal(x)
    } else {
        decimal(x)
    }
}

/// An instruction in a listing: the name of its opcode and its operands, A
/// and B with their modes and C for layout ABC, A with its mode and Bx for
/// layout ABx.
pub open spec fn instruction_text(i: u32) -> Seq<char>
    recommends
        is_instruction(i),
{
    match op_of(i).mode_of() {
        Opmode::Abc => op_of(i).name_of() + " "@ + operand_text(a_mode_field(i), a_field(i) as nat) + " "@
            + operand_text(b_mode_field(i), b_field(i) as nat) + " "@ + decimal(c_field(i) as nat),
        Opmode::Abx => op_of(i).name_of() + " "@ + operand_text(a_mode_field(i), a_field(i) as nat) + " "@
            + decimal(bx_field(i) as nat),
    }
}

/// Appends an operand as a listing shows it.
fn push_operand(out: &mut Vec<char>, mode: u8, x: u8)
    ensures
        final(out)@ == old(out)@ + operand_text(mode, x as nat),
{
    if mode == 1 {
        push_str(out, "-");
    }
    push_decimal(out, x as u64);
    assert(out@ =~= old(out)@ + operand_text(mode, x as nat));
}

/// Appends an instruction as a listing shows it.
pub fn push_instruction(out: &mut Vec<char>, i: u32)
    requires
        is_instruction(i),
    ensures
        final(out)@ == old(out)@ + instruction_text(i),
{
    let op: Opcode = get_op(i);
    push_str(out, op.name());
    push_str(out, " ");
    push_operand(out, get_a_mode(i), get_a(i));
    push_str(out, " ");
    match op.mode() {
        Opmode::Abc => {
            push_operand(out, get_b_mode(i), get_b(i));
            push_str(out, " ");
            push_decimal(out, get_c(i) as u64);
        },
        Opmode::Abx => {
            push_decimal(out, get_bx(i) as u64);
        },
    }
    assert(out@ =~= old(out)@ + instruction_text(i));
}

/// Writes an instruction as a listing shows it.
pub fn format_instruction(i: u32) -> (s: String)
    requires
        is_instruction(i),
    ensures
        s@ == instruction_text(i),
{
    let mut out: Vec<char> = Vec::new();
    push_instruction(&mut out, i);
    assert(out@ =~= instruction_text(i));
    string_of(&out)
}

/// The number of constants among the first `n` that are functions.
pub open spec fn functions_among(consts: Seq<Val>, n: int) -> nat
    decreases n,
{
    if n <= 0 || n > consts.len() {
        0
    } else {
        functions_among(consts, n - 1) + (if consts[n - 1] is Closure {
            1nat
        } else {
            0nat
        })
    }
}

/// The head of a listing: the name and the file of the function and the
/// number of its instructions, and on a second line the numbers of its
/// parameters, of its constants that are no functions, and of those that
/// are.
pub open spec fn header_text(
    name: Seq<char>,
    file: Seq<char>,
    ninstr: nat,
    nparams: nat,
    nconsts: nat,
    nfuncs: nat,
) -> Seq<char> {
    name + " <"@ + file + "> ("@ + decimal(ninstr) + " instructions)\n"@ + decimal(nparams) + " params, "@
        + decimal((nconsts - nfuncs) as nat) + " constants, "@ + decimal(nfuncs) + " functions"@
}

/// Counts the constants of a function that are functions.
pub fn count_functions(closure: &Closure) -> (n: usize)
    ensures
        n == functions_among(closure@.consts, closure@.consts.len() as int),
        n <= closure.consts.len(),
{
    let mut n: usize = 0;
    let mut i: usize = 0;
    while i < closure.consts.len()
        invariant
            i <= closure.consts.len(),
            n <= i,
            n == functions_among(closure@.consts, i as int),
            closure@.consts.len() == closure.consts.len(),
        decreases closure.consts.len() - i,
    {
        match closure.consts[i] {
            Value::Closure(_) => {
                n += 1;
            },
            _ => {},
        }
        i += 1;
    }
    n
}

/// Writes the head of the listing of a function.
pub fn get_fn_info(closure: &Closure) -> (s: String)
    ensures
        s@ == header_text(
            closure@.name,
            closure@.file_name,
            closure@.code.len(),
            closure@.nparams as nat,
            closure@.consts.len(),
            functions_among(closure@.consts, closure@.consts.len() as int),
        ),
{
    let nfn: usize = count_functions(closure);
    let mut out: Vec<char> = Vec::new();
    push_str(&mut out, closure.name.as_str());
    push_str(&mut out, " <");
    push_str(&mut out, closure.file_name.as_str());
    push_str(&mut out, "> (");
    push_decimal(&mut out, closure.code.len() as u64);
    push_str(&mut out, " instructions)\n");
    push_decimal(&mut out, closure.nparams as u64);
    push_str(&mut out, " params, ");
    push_decimal(&mut out, (closure.consts.len() - nfn) as u64);
    push_str(&mut out, " constants, ");
    push_decimal(&mut out, nfn as u64);
    push_str(&mut out, " functions");
    assert(out@ =~= header_text(
        closure@.name,
        closure@.file_name,
        closure@.code.len(),
        closure@.nparams as nat,
        closure@.consts.len(),
        functions_among(closure@.consts, closure@.consts.len() as int),
    ));
    string_of(&out)
}

/// The constants among the first `n` of a pool that are no functions, in
/// the order of the pool.
pub open spec fn plain_among(consts: Seq<Val>, n: int) -> Seq<Val>
    decreases n,
{
    if n <= 0 || n > consts.len() {
        Seq::empty()
    } else if consts[n - 1] is Closure {
        plain_among(consts, n - 1)
    } else {
        plain_among(consts, n - 1).push(consts[n - 1])
    }
}

/// The handles of the functions among the first `n` constants of a pool, in
/// the order of the pool.
pub open spec fn handles_among(consts: Seq<Val>, n: int) -> Seq<usize>
    decreases n,
{
    if n <= 0 || n > consts.len() {
        Seq::empty()
    } else if consts[n - 1] is Closure {
        handles_among(consts, n - 1).push(consts[n - 1]->Closure_0)
    } else {
        handles_among(consts, n - 1)
    }
}

/// The constants of a function that a listing shows, numbered from 1 in
/// this order: those that are no functions.
pub fn plain_constants(closure: &Closure) -> (r: Vec<Value>)
    ensures
        vals(r@) == plain_among(closure@.consts, closure@.consts.len() as int),
        r.len() + functions_among(closure@.consts, closure@.consts.len() as int) == closure.consts.len(),
{
    let mut r: Vec<Value> = Vec::new();
    let mut i: usize = 0;
    assert(vals(r@) =~= plain_among(closure@.consts, 0));
    while i < closure.consts.len()
        invariant
            i <= closure.consts.len(),
            closure@.consts.len() == closure.consts.len(),
            vals(r@) == plain_among(closure@.consts, i as int),
            r.len() + functions_among(closure@.consts, i as int) == i,
        decreases closure.consts.len() - i,
    {
        let ghost before = vals(r@);
        match closure.consts[i] {
            Value::Closure(_) => {},
            _ => {
                r.push(closure.consts[i].copy());
                assert(vals(r@) =~= before.push(closure@.consts[i as int]));
            },
        }
        i += 1;
    }
    r
}

/// The handles of the functions that a function holds among its constants:
/// those that a listing of the whole program goes on with, in this order.
pub fn nested_functions(closure: &Closure) -> (r: Vec<usize>)
    ensures
        r@ == handles_among(closure@.consts, closure@.consts.len() as int),
        r.len() == functions_among(closure@.consts, closure@.consts.len() as int),
{
    let mut r: Vec<usize> = Vec::new();
    let mut i: usize = 0;
    while i < closure.consts.len()
        invariant
            i <= closure.consts.len(),
            closure@.consts.len() == closure.consts.len(),
            r@ == handles_among(closure@.consts, i as int),
            r.len() == functions_among(closure@.consts, i as int),
        decreases closure.consts.len() - i,
    {
        match closure.consts[i] {
            Value::Closure(h) => {
                r.push(h);
            },
            _ => {},
        }
        i += 1;
    }
    r
}

/// One line of a listing: a tab, the number of the instruction counted
/// from 1, a tab, its source line in square brackets, a tab, the
/// instruction, and a line break.
pub open spec fn line_text(at: nat, line: nat, i: u32) -> Seq<char> {
    "\t"@ + decimal(at + 1) + "\t["@ + decimal(line) + "]\t"@ + instruction_text(i) + "\n"@
}

/// The lines of the first `n` instructions of a listing.
pub open spec fn lines_text(code: Seq<u32>, lines: Seq<usize>, n: int) -> Seq<char>
    decreases n,
{
    if n <= 0 || n > code.len() || n > lines.len() {
        Seq::empty()
    } else {
        lines_text(code, lines, n - 1) + line_text((n - 1) as nat, lines[n - 1] as nat, code[n - 1])
    }
}

/// Writes the listing of the code of a function: its head, a line break,
/// and a line for each instruction.
pub fn code_listing(closure: &Closure) -> (s: String)
    requires
        closure.lines.len() == closure.code.len(),
        forall|k: int| 0 <= k < closure.code.len() ==> is_instruction(#[trigger] closure.code@[k]),
    ensures
        s@ == header_text(
            closure@.name,
            closure@.file_name,
            closure@.code.len(),
            closure@.nparams as nat,
            closure@.consts.len(),
            functions_among(closure@.consts, closure@.consts.len() as int),
        ) + "\n"@ + lines_text(closure.code@, closure.lines@, closure.code.len() as int),
{
    let mut out: Vec<char> = Vec::new();
    push_str(&mut out, get_fn_info(closure).as_str());
    push_str(&mut out, "\n");
    let ghost head = out@;
    let mut k: usize = 0;
    assert(out@ =~= head + lines_text(closure.code@, closure.lines@, 0));
    while k < closure.code.len()
        invariant
            k <= closure.code.len(),
            closure.lines.len() == closure.code.len(),
            forall|j: int| 0 <= j < closure.code.len() ==> is_instruction(#[trigger] closure.code@[j]),
            out@ == head + lines_text(closure.code@, closure.lines@, k as int),
        decreases closure.code.len() - k,
    {
        let ghost before = out@;
        push_str(&mut out, "\t");
        push_decimal(&mut out, k as u64 + 1);
        push_str(&mut out, "\t[");
        push_decimal(&mut out, closure.lines[k] as u64);
        push_str(&mut out, "]\t");
        push_instruction(&mut out, closure.code[k]);
        push_str(&mut out, "\n");
        assert(out@ =~= before + line_text(k as nat, closure.lines@[k as int] as nat, closure.code@[k as int]));
        k += 1;
        assert(out@ =~= head + lines_text(closure.code@, closure.lines@, k as int));
    }
    string_of(&out)
}

} // verus!
