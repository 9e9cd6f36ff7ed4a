use vstd::prelude::*;

verus! {

/// The instruction set. The position of a variant in this list is its number
/// in an instruction word, see [`Opcode::code`].
#[derive(Debug, Clone, Copy, PartialEq, Eq, Structural)]
pub enum Opcode {
    /// A B | `R[A] = R[B]`
    Move,
    /// A Bx | `R[A] = K[Bx]`
    LoadConst,
    /// A B | `R[A] = (B != 0)`
    LoadBool,
    /// A | `R[A] = nil`
    LoadNil,
    /// A B C | `R[A] = UpVal[B]`; `C = 1` marks a capture prologue
    GetUpVal,
    /// A B | `UpVal[A] = R[B]`
    SetUpVal,
    /// A Bx | `R[A] = Globals[K[Bx]]`
    GetGlobal,
    /// A Bx | `Globals[K[Bx]] = R[A]`
    SetGlobal,
    /// A B | `R[A]` = table built from the pairs in `R[A..B-1]`
    NewTable,
    /// A B | `R[A]` = array of `R[A..B-1]`
    NewArray,
    /// A B | `R[A] = R[A][RK(B)]`
    GetObj,
    /// A B C | `R[C][RK(A)] = RK(B)`
    SetObj,
    /// A B C | `R[C] = RK(A) + RK(B)`
    Add,
    /// A B C | `R[C] = RK(A) - RK(B)`
    Sub,
    /// A B C | `R[C] = RK(A) * RK(B)`
    Mul,
    /// A B C | `R[C] = RK(A) / RK(B)`
    Div,
    /// A B C | `R[C] = RK(A) % RK(B)`
    Mod,
    /// A B C | `R[C] = RK(A) == RK(B)`
    Eq,
    /// A B C | `R[C] = RK(A) != RK(B)`
    Neq,
    /// A B C | `R[C] = RK(A) < RK(B)`
    Gt,
    /// A B C | `R[C] = RK(A) <= RK(B)`
    Ge,
    /// A B C | `R[C] = RK(A) > RK(B)`
    Lt,
    /// A B C | `R[C] = RK(A) >= RK(B)`
    Le,
    /// A B | `R[A] = -RK(B)`
    Neg,
    /// A B | `R[A] = !RK(B)`
    Not,
    /// A Bx | `pc -= Bx` if `A == 1`, else `pc += Bx`
    Jmp,
    /// A B | skip the next instruction if `bool(R[A]) == (B == 0)`
    Test,
    /// A B C | `R[C] = R[A](R[A+1..B-1])`
    Call,
    /// A Bx | `R[A]` = a closure made from `K[Bx]`
    Closure,
    /// A B | return nil if `B == 1`, else `RK(A)`
    Return,
    /// A | `R[A..] = nil`
    Close,
}

/// The two instruction layouts.
#[derive(Debug, Clone, Copy, PartialEq, Eq, Structural)]
pub enum Opmode {
    /// Operands A, B and C.
    Abc,
    /// Operand A and the 16-bit operand Bx.
    Abx,
}

/// The number of opcodes; every number below it names one.
pub const NUM_OPCODES: u8 = 31;

impl Opcode {
    /// The number that stands for this opcode in an instruction word.
    pub open spec fn code(self) -> u8 {
        match self {
            Opcode::Move => 0,
            Opcode::LoadConst => 1,
            Opcode::LoadBool => 2,
            Opcode::LoadNil => 3,
            Opcode::GetUpVal => 4,
            Opcode::SetUpVal => 5,
            Opcode::GetGlobal => 6,
            Opcode::SetGlobal => 7,
            Opcode::NewTable => 8,
            Opcode::NewArray => 9,
            Opcode::GetObj => 10,
            Opcode::SetObj => 11,
            Opcode::Add => 12,
            Opcode::Sub => 13,
            Opcode::Mul => 14,
            Opcode::Div => 15,
            Opcode::Mod => 16,
            Opcode::Eq => 17,
            Opcode::Neq => 18,
            Opcode::Gt => 19,
            Opcode::Ge => 20,
            Opcode::Lt => 21,
            Opcode::Le => 22,
            Opcode::Neg => 23,
            Opcode::Not => 24,
            Opcode::Jmp => 25,
            Opcode::Test => 26,
            Opcode::Call => 27,
            Opcode::Closure => 28,
            Opcode::Return => 29,
            Opcode::Close => 30,
        }
    }

    /// The opcode with the given number, if there is one.
    pub open spec fn of_code(n: u8) -> Option<Opcode> {
        if n == 0 {
            Some(Opcode::Move)
        } else if n == 1 {
            Some(Opcode::LoadConst)
        } else if n == 2 {
            Some(Opcode::LoadBool)
        } else if n == 3 {
            Some(Opcode::LoadNil)
        } else if n == 4 {
            Some(Opcode::GetUpVal)
        } else if n == 5 {
            Some(Opcode::SetUpVal)
        } else if n == 6 {
            Some(Opcode::GetGlobal)
        } else if n == 7 {
            Some(Opcode::SetGlobal)
        } else if n == 8 {
            Some(Opcode::NewTable)
        } else if n == 9 {
            Some(Opcode::NewArray)
        } else if n == 10 {
            Some(Opcode::GetObj)
        } else if n == 11 {
            Some(Opcode::SetObj)
        } else if n == 12 {
            Some(Opcode::Add)
        } else if n == 13 {
            Some(Opcode::Sub)
        } else if n == 14 {
            Some(Opcode::Mul)
        } else if n == 15 {
            Some(Opcode::Div)
        } else if n == 16 {
            Some(Opcode::Mod)
        } else if n == 17 {
            Some(Opcode::Eq)
        } else if n == 18 {
            Some(Opcode::Neq)
        } else if n == 19 {
            Some(Opcode::Gt)
        } else if n == 20 {
            Some(Opcode::Ge)
        } else if n == 21 {
            Some(Opcode::Lt)
        } else if n == 22 {
            Some(Opcode::Le)
        } else if n == 23 {
            Some(Opcode::Neg)
        } else if n == 24 {
            Some(Opcode::Not)
        } else if n == 25 {
            Some(Opcode::Jmp)
        } else if n == 26 {
            Some(Opcode::Test)
        } else if n == 27 {
            Some(Opcode::Call)
        } else if n == 28 {
            Some(Opcode::Closure)
        } else if n == 29 {
            Some(Opcode::Return)
        } else if n == 30 {
            Some(Opcode::Close)
        } else {
            None
        }
    }

    /// The layout of an instruction with this opcode.
    pub open spec fn mode_of(self) -> Opmode {
        match self {
            Opcode::LoadConst | Opcode::GetGlobal | Opcode::SetGlobal | Opcode::Jmp
            | Opcode::Closure => Opmode::Abx,
            _ => Opmode::Abc,
        }
    }

    /// The name under which a disassembly lists this opcode.
    pub open spec fn name_of(self) -> Seq<char> {
        match self {
            Opcode::Move => "Move"@,
            Opcode::LoadConst => "LoadConst"@,
            Opcode::LoadBool => "LoadBool"@,
            Opcode::LoadNil => "LoadNil"@,
            Opcode::GetUpVal => "GetUpVal"@,
            Opcode::SetUpVal => "SetUpVal"@,
            Opcode::GetGlobal => "GetGlobal"@,
            Opcode::SetGlobal => "SetGlobal"@,
            Opcode::NewTable => "NewTable"@,
            Opcode::NewArray => "NewArray"@,
            Opcode::GetObj => "GetObj"@,
            Opcode::SetObj => "SetObj"@,
            Opcode::Add => "Add"@,
            Opcode::Sub => "Sub"@,
            Opcode::Mul => "Mul"@,
            Opcode::Div => "Div"@,
            Opcode::Mod => "Mod"@,
            Opcode::Eq => "Eq"@,
            Opcode::Neq => "Neq"@,
            Opcode::Gt => "Gt"@,
            Opcode::Ge => "Ge"@,
            Opcode::Lt => "Lt"@,
            Opcode::Le => "Le"@,
            Opcode::Neg => "Neg"@,
            Opcode::Not => "Not"@,
            Opcode::Jmp => "Jmp"@,
            Opcode::Test => "Test"@,
            Opcode::Call => "Call"@,
            Opcode::Closure => "Closure"@,
            Opcode::Return => "Return"@,
            Opcode::Close => "Close"@,
        }
    }

    /// Gives the number of this opcode.
    pub fn to_u8(&self) -> (n: u8)
        ensures
            n == self.code(),
            n < NUM_OPCODES,
            Opcode::of_code(n) == Some(*self),
    {
        match self {
            Opcode::Move => 0,
            Opcode::LoadConst => 1,
            Opcode::LoadBool => 2,
            Opcode::LoadNil => 3,
            Opcode::GetUpVal => 4,
            Opcode::SetUpVal => 5,
            Opcode::GetGlobal => 6,
            Opcode::SetGlobal => 7,
            Opcode::NewTable => 8,
            Opcode::NewArray => 9,
            Opcode::GetObj => 10,
            Opcode::SetObj => 11,
            Opcode::Add => 12,
            Opcode::Sub => 13,
            Opcode::Mul => 14,
            Opcode::Div => 15,
            Opcode::Mod => 16,
            Opcode::Eq => 17,
            Opcode::Neq => 18,
            Opcode::Gt => 19,
            Opcode::Ge => 20,
            Opcode::Lt => 21,
            Opcode::Le => 22,
            Opcode::Neg => 23,
            Opcode::Not => 24,
            Opcode::Jmp => 25,
            Opcode::Test => 26,
            Opcode::Call => 27,
            Opcode::Closure => 28,
            Opcode::Return => 29,
            Opcode::Close => 30,
        }
    }

    /// Finds the opcode with the given number; there is one exactly for the
    /// numbers below [`NUM_OPCODES`].
    pub fn from_u8(n: u8) -> (r: Option<Opcode>)
        ensures
            r == Opcode::of_code(n),
            r is Some <==> n < NUM_OPCODES,
            r is Some ==> r.unwrap().code() == n,
    {
        if n == 0 {
            Some(Opcode::Move)
        } else if n == 1 {
            Some(Opcode::LoadConst)
        } else if n == 2 {
            Some(Opcode::LoadBool)
        } else if n == 3 {
            Some(Opcode::LoadNil)
        } else if n == 4 {
            Some(Opcode::GetUpVal)
        } else if n == 5 {
            Some(Opcode::SetUpVal)
        } else if n == 6 {
            Some(Opcode::GetGlobal)
        } else if n == 7 {
            Some(Opcode::SetGlobal)
        } else if n == 8 {
            Some(Opcode::NewTable)
        } else if n == 9 {
            Some(Opcode::NewArray)
        } else if n == 10 {
            Some(Opcode::GetObj)
        } else if n == 11 {
            Some(Opcode::SetObj)
        } else if n == 12 {
            Some(Opcode::Add)
        } else if n == 13 {
            Some(Opcode::Sub)
        } else if n == 14 {
            Some(Opcode::Mul)
        } else if n == 15 {
            Some(Opcode::Div)
        } else if n == 16 {
            Some(Opcode::Mod)
        } else if n == 17 {
            Some(Opcode::Eq)
        } else if n == 18 {
            Some(Opcode::Neq)
        } else if n == 19 {
            Some(Opcode::Gt)
        } else if n == 20 {
            Some(Opcode::Ge)
        } else if n == 21 {
            Some(Opcode::Lt)
        } else if n == 22 {
            Some(Opcode::Le)
        } else if n == 23 {
            Some(Opcode::Neg)
        } else if n == 24 {
            Some(Opcode::Not)
        } else if n == 25 {
            Some(Opcode::Jmp)
        } else if n == 26 {
            Some(Opcode::Test)
        } else if n == 27 {
            Some(Opcode::Call)
        } else if n == 28 {
            Some(Opcode::Closure)
        } else if n == 29 {
            Some(Opcode::Return)
        } else if n == 30 {
            Some(Opcode::Close)
        } else {
            None
        }
    }

    /// The opcode with the given number, which must name one.
    pub fn from(n: u8) -> (op: Opcode)
        requires
            n < NUM_OPCODES,
        ensures
            Some(op) == Opcode::of_code(n),
            op.code() == n,
    {
        match Opcode::from_u8(n) {
            Some(op) => op,
            None => Opcode::Close,
        }
    }

    /// Gives the layout of an instruction with this opcode.
    pub fn mode(&self) -> (m: Opmode)
        ensures
            m == self.mode_of(),
    {
        match self {
            Opcode::LoadConst | Opcode::GetGlobal | Opcode::SetGlobal | Opcode::Jmp
            | Opcode::Closure => Opmode::Abx,
            _ => Opmode::Abc,
        }
    }

    /// Gives the name under which a disassembly lists this opcode.
    pub fn name(&self) -> (s: &'static str)
        ensures
            s@ == self.name_of(),
    {
        match self {
            Opcode::Move => "Move",
            Opcode::LoadConst => "LoadConst",
            Opcode::LoadBool => "LoadBool",
            Opcode::LoadNil => "LoadNil",
            Opcode::GetUpVal => "GetUpVal",
            Opcode::SetUpVal => "SetUpVal",
            Opcode::GetGlobal => "GetGlobal",
            Opcode::SetGlobal => "SetGlobal",
            Opcode::NewTable => "NewTable",
            Opcode::NewArray => "NewArray",
            Opcode::GetObj => "GetObj",
            Opcode::SetObj => "SetObj",
            Opcode::Add => "Add",
            Opcode::Sub => "Sub",
            Opcode::Mul => "Mul",
            Opcode::Div => "Div",
            Opcode::Mod => "Mod",
            Opcode::Eq => "Eq",
            Opcode::Neq => "Neq",
            Opcode::Gt => "Gt",
            Opcode::Ge => "Ge",
            Opcode::Lt => "Lt",
            Opcode::Le => "Le",
            Opcode::Neg => "Neg",
            Opcode::Not => "Not",
            Opcode::Jmp => "Jmp",
            Opcode::Test => "Test",
            Opcode::Call => "Call",
            Opcode::Closure => "Closure",
            Opcode::Return => "Return",
            Opcode::Close => "Close",
        }
    }
}

/// Numbering and naming agree: an opcode is found again from its number.
pub proof fn lemma_code_round_trip(op: Opcode)
    ensures
        op.code() < NUM_OPCODES,
        Opcode::of_code(op.code()) == Some(op),
{
}

} // verus!
