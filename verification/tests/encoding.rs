use moon::common::{Opcode, Opmode};
use moon::vm::code::{
    format_instruction, get_a, get_a_mode, get_b, get_b_mode, get_bx, get_c, get_mode, get_op, is_valid,
    make_abc, make_abx, set_mode,
};

const ALL: [Opcode; 31] = [
    Opcode::Move,
    Opcode::LoadConst,
    Opcode::LoadBool,
    Opcode::LoadNil,
    Opcode::GetUpVal,
    Opcode::SetUpVal,
    Opcode::GetGlobal,
    Opcode::SetGlobal,
    Opcode::NewTable,
    Opcode::NewArray,
    Opcode::GetObj,
    Opcode::SetObj,
    Opcode::Add,
    Opcode::Sub,
    Opcode::Mul,
    Opcode::Div,
    Opcode::Mod,
    Opcode::Eq,
    Opcode::Neq,
    Opcode::Gt,
    Opcode::Ge,
    Opcode::Lt,
    Opcode::Le,
    Opcode::Neg,
    Opcode::Not,
    Opcode::Jmp,
    Opcode::Test,
    Opcode::Call,
    Opcode::Closure,
    Opcode::Return,
    Opcode::Close,
];

#[test]
fn opcodes_are_numbered_in_order() {
    for (n, op) in ALL.iter().enumerate() {
        assert_eq!(op.to_u8() as usize, n);
        assert_eq!(Opcode::from_u8(n as u8), Some(*op));
        assert_eq!(Opcode::from(n as u8), *op);
    }
    assert_eq!(Opcode::from_u8(31), None);
    assert_eq!(Opcode::from_u8(255), None);
    assert_eq!(Opcode::Jmp.to_u8(), 25);
    assert_eq!(Opcode::Close.to_u8(), 30);
}

#[test]
fn opcode_layouts() {
    for op in ALL.iter() {
        let abx = matches!(
            op,
            Opcode::LoadConst | Opcode::GetGlobal | Opcode::SetGlobal | Opcode::Jmp | Opcode::Closure
        );
        assert_eq!(op.mode() == Opmode::Abx, abx);
    }
    assert_eq!(Opcode::GetUpVal.name(), "GetUpVal");
}

#[test]
fn instruction_word_layout_is_exact() {
    // [op:6][a_mode:1][a:8][b_mode:1][b:8][c:8]
    let i = make_abc(Opcode::Add, 0x1FF, 0x0AB, 0xCD);
    assert_eq!(i, (12u32 << 26) | (1 << 25) | (0xFF << 17) | (0xAB << 8) | 0xCD);
    let j = make_abx(Opcode::LoadConst, 7, 0xBEEF);
    assert_eq!(j, (1u32 << 26) | (7 << 17) | 0xBEEF);
}

#[test]
fn decoding_gives_back_what_was_encoded() {
    for op in ALL.iter() {
        for &(a, b, c) in &[(0u16, 0u16, 0u8), (255, 255, 255), (256, 511, 1), (300, 17, 200)] {
            let i = make_abc(*op, a, b, c);
            assert!(is_valid(i));
            assert_eq!(get_op(i), *op);
            assert_eq!(get_a(i), (a & 0xFF) as u8);
            assert_eq!(get_a_mode(i), ((a >> 8) & 1) as u8);
            assert_eq!(get_b(i), (b & 0xFF) as u8);
            assert_eq!(get_b_mode(i), ((b >> 8) & 1) as u8);
            assert_eq!(get_c(i), c);
        }
        for &bx in &[0u16, 1, 255, 256, 65535] {
            let i = make_abx(*op, 1, bx);
            assert_eq!(get_op(i), *op);
            assert_eq!(get_a(i), 1);
            assert_eq!(get_bx(i), bx);
        }
    }
}

#[test]
fn words_without_an_opcode_are_no_instructions() {
    assert!(!is_valid(31u32 << 26));
    assert!(!is_valid(u32::MAX));
    assert!(is_valid(30u32 << 26));
    assert!(is_valid(0));
}

#[test]
fn operand_modes() {
    assert_eq!(set_mode(1, 5), 256 + 5);
    assert_eq!(set_mode(0, 5), 5);
    assert_eq!(set_mode(3, 200), 256 + 200);
    assert_eq!(get_mode(256 + 5), 1);
    assert_eq!(get_mode(5), 0);
    assert_eq!(get_mode(set_mode(1, 254)), 1);
}

#[test]
fn instructions_are_listed_with_their_operands() {
    assert_eq!(format_instruction(make_abc(Opcode::Add, 256 + 3, 4, 5)), "Add -3 4 5");
    assert_eq!(format_instruction(make_abc(Opcode::Move, 1, 0, 0)), "Move 1 0 0");
    assert_eq!(format_instruction(make_abc(Opcode::Eq, 2, 256 + 10, 255)), "Eq 2 -10 255");
    assert_eq!(format_instruction(make_abx(Opcode::LoadConst, 2, 65535)), "LoadConst 2 65535");
    assert_eq!(format_instruction(make_abx(Opcode::Jmp, 1, 12)), "Jmp 1 12");
}
