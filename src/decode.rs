//! Splitting a two-byte instruction into its operand fields, and naming the
//! operation that those fields select.
use vstd::prelude::*;

verus! {

/// The 16-bit instruction word made of two bytes, high byte first.
pub open spec fn word(hi: u8, lo: u8) -> int {
    hi as int * 256 + lo as int
}

/// The operand fields of one instruction, all taken from the same 16 bits.
#[derive(Clone, Copy, Debug, PartialEq, Eq)]
pub struct Instruction {
    /// Bits 15..12: the operation group.
    pub op: u8,
    /// Bits 11..8: the first register operand.
    pub x: u8,
    /// Bits 7..4: the second register operand.
    pub y: u8,
    /// Bits 3..0: a 4-bit immediate.
    pub n: u8,
    /// Bits 7..0: an 8-bit immediate.
    pub value: u8,
    /// Bits 11..0: a 12-bit address.
    pub address: u16,
}

/// Whether `ins` holds exactly the fields of the word `w`.
pub open spec fn fields_of(ins: Instruction, w: int) -> bool {
    &&& ins.op as int == w / 4096
    &&& ins.x as int == (w / 256) % 16
    &&& ins.y as int == (w / 16) % 16
    &&& ins.n as int == w % 16
    &&& ins.value as int == w % 256
    &&& ins.address as int == w % 4096
}

/// The fields of the instruction whose bytes are `hi` then `lo`.
pub open spec fn decoded(hi: u8, lo: u8) -> Instruction {
    Instruction {
        op: hi / 16,
        x: hi % 16,
        y: lo / 16,
        n: lo % 16,
        value: lo,
        address: ((hi % 16) as int * 256 + lo as int) as u16,
    }
}

/// Splits the instruction whose bytes are `hi` then `lo` into its fields.
pub fn decode(hi: u8, lo: u8) -> (ins: Instruction)
    ensures
        ins == decoded(hi, lo),
        fields_of(ins, word(hi, lo)),
{
    let ins = Instruction {
        op: hi / 16,
        x: hi % 16,
        y: lo / 16,
        n: lo % 16,
        value: lo,
        address: (hi % 16) as u16 * 256 + lo as u16,
    };
    assert(fields_of(ins, word(hi, lo))) by (nonlinear_arith)
        requires
            ins.op == hi / 16,
            ins.x == hi % 16,
            ins.y == lo / 16,
            ins.n == lo % 16,
            ins.value == lo,
            ins.address == (hi % 16) as int * 256 + lo as int,
            0 <= hi < 256,
            0 <= lo < 256,
    ;
    ins
}

/// Every field is a slice of the same word: the four nibbles put back
/// together give the word, the 8-bit immediate is the low two nibbles and
/// the address is the low three.
pub proof fn lemma_fields_recompose(hi: u8, lo: u8, ins: Instruction)
    requires
        fields_of(ins, word(hi, lo)),
    ensures
        word(hi, lo) == ins.op as int * 4096 + ins.x as int * 256 + ins.y as int * 16 + ins.n as int,
        ins.value as int == ins.y as int * 16 + ins.n as int,
        ins.address as int == ins.x as int * 256 + ins.value as int,
        ins.op as int == hi as int / 16 && ins.x as int == hi as int % 16,
        ins.y as int == lo as int / 16 && ins.n as int == lo as int % 16,
        ins.op < 16 && ins.x < 16 && ins.y < 16 && ins.n < 16,
{
    assert(0 <= hi < 256 && 0 <= lo < 256);
    let w = word(hi, lo);
    assert(w == ins.op as int * 4096 + ins.x as int * 256 + ins.y as int * 16 + ins.n as int
        && ins.value as int == ins.y as int * 16 + ins.n as int
        && ins.address as int == ins.x as int * 256 + ins.value as int
        && ins.op as int == hi as int / 16 && ins.x as int == hi as int % 16
        && ins.y as int == lo as int / 16 && ins.n as int == lo as int % 16
        && ins.op < 16 && ins.x < 16 && ins.y < 16 && ins.n < 16) by (nonlinear_arith)
        requires
            fields_of(ins, w),
            w == hi as int * 256 + lo as int,
            0 <= hi < 256,
            0 <= lo < 256,
    ;
}

} // verus!

verus! {

/// One operation of the instruction set, with the operands it reads.
/// Register operands are in `0..16`.
#[derive(Clone, Copy, Debug, PartialEq, Eq)]
pub enum Op {
    Clear,
    Return,
    Jump { address: u16 },
    Call { address: u16 },
    SkipEqImm { x: u8, value: u8 },
    SkipNeImm { x: u8, value: u8 },
    SkipEqReg { x: u8, y: u8 },
    LoadImm { x: u8, value: u8 },
    AddImm { x: u8, value: u8 },
    Assign { x: u8, y: u8 },
    Or { x: u8, y: u8 },
    And { x: u8, y: u8 },
    Xor { x: u8, y: u8 },
    AddCarry { x: u8, y: u8 },
    SubBorrow { x: u8, y: u8 },
    ShiftRight { x: u8, y: u8 },
    SubReverse { x: u8, y: u8 },
    ShiftLeft { x: u8, y: u8 },
    SkipNeReg { x: u8, y: u8 },
    SetIndex { address: u16 },
    JumpOffset { address: u16 },
    Random { x: u8, value: u8 },
    Draw { x: u8, y: u8, n: u8 },
    SkipKey { x: u8 },
    SkipNoKey { x: u8 },
    GetDelay { x: u8 },
    WaitKey { x: u8 },
    SetDelay { x: u8 },
    SetSound { x: u8 },
    AddIndex { x: u8 },
    FontChar { x: u8 },
    Bcd { x: u8 },
    StoreRegs { x: u8 },
    LoadRegs { x: u8 },
}

/// The operation that the fields select, tried in table order: some groups
/// are told apart by `op` alone, some also by `n`, some by the whole `value`
/// byte. `None` for a word outside the instruction set.
#[verifier::opaque]
pub open spec fn op_of(ins: Instruction) -> Option<Op> {
    let (x, y, n, value, address) = (ins.x, ins.y, ins.n, ins.value, ins.address);
    match (ins.op, value, n) {
        (0, 0xE0, _) => Some(Op::Clear),
        (0, 0xEE, _) => Some(Op::Return),
        (1, _, _) => Some(Op::Jump { address }),
        (2, _, _) => Some(Op::Call { address }),
        (3, _, _) => Some(Op::SkipEqImm { x, value }),
        (4, _, _) => Some(Op::SkipNeImm { x, value }),
        (5, _, 0) => Some(Op::SkipEqReg { x, y }),
        (6, _, _) => Some(Op::LoadImm { x, value }),
        (7, _, _) => Some(Op::AddImm { x, value }),
        (8, _, 0) => Some(Op::Assign { x, y }),
        (8, _, 1) => Some(Op::Or { x, y }),
        (8, _, 2) => Some(Op::And { x, y }),
        (8, _, 3) => Some(Op::Xor { x, y }),
        (8, _, 4) => Some(Op::AddCarry { x, y }),
        (8, _, 5) => Some(Op::SubBorrow { x, y }),
        (8, _, 6) => Some(Op::ShiftRight { x, y }),
        (8, _, 7) => Some(Op::SubReverse { x, y }),
        (8, _, 0xE) => Some(Op::ShiftLeft { x, y }),
        (9, _, 0) => Some(Op::SkipNeReg { x, y }),
        (0xA, _, _) => Some(Op::SetIndex { address }),
        (0xB, _, _) => Some(Op::JumpOffset { address }),
        (0xC, _, _) => Some(Op::Random { x, value }),
        (0xD, _, _) => Some(Op::Draw { x, y, n }),
        (0xE, 0x9E, _) => Some(Op::SkipKey { x }),
        (0xE, 0xA1, _) => Some(Op::SkipNoKey { x }),
        (0xF, 0x07, _) => Some(Op::GetDelay { x }),
        (0xF, 0x0A, _) => Some(Op::WaitKey { x }),
        (0xF, 0x15, _) => Some(Op::SetDelay { x }),
        (0xF, 0x18, _) => Some(Op::SetSound { x }),
        (0xF, 0x1E, _) => Some(Op::AddIndex { x }),
        (0xF, 0x29, _) => Some(Op::FontChar { x }),
        (0xF, 0x33, _) => Some(Op::Bcd { x }),
        (0xF, 0x55, _) => Some(Op::StoreRegs { x }),
        (0xF, 0x65, _) => Some(Op::LoadRegs { x }),
        _ => None,
    }
}

/// Names the operation that a decoded instruction selects, `None` when the
/// word is not an instruction.
pub fn classify(ins: &Instruction) -> (r: Option<Op>)
    ensures
        r == op_of(*ins),
{
    reveal(op_of);
    let (x, y, n, value, address) = (ins.x, ins.y, ins.n, ins.value, ins.address);
    match (ins.op, value, n) {
        (0, 0xE0, _) => Some(Op::Clear),
        (0, 0xEE, _) => Some(Op::Return),
        (1, _, _) => Some(Op::Jump { address }),
        (2, _, _) => Some(Op::Call { address }),
        (3, _, _) => Some(Op::SkipEqImm { x, value }),
        (4, _, _) => Some(Op::SkipNeImm { x, value }),
        (5, _, 0) => Some(Op::SkipEqReg { x, y }),
        (6, _, _) => Some(Op::LoadImm { x, value }),
        (7, _, _) => Some(Op::AddImm { x, value }),
        (8, _, 0) => Some(Op::Assign { x, y }),
        (8, _, 1) => Some(Op::Or { x, y }),
        (8, _, 2) => Some(Op::And { x, y }),
        (8, _, 3) => Some(Op::Xor { x, y }),
        (8, _, 4) => Some(Op::AddCarry { x, y }),
        (8, _, 5) => Some(Op::SubBorrow { x, y }),
        (8, _, 6) => Some(Op::ShiftRight { x, y }),
        (8, _, 7) => Some(Op::SubReverse { x, y }),
        (8, _, 0xE) => Some(Op::ShiftLeft { x, y }),
        (9, _, 0) => Some(Op::SkipNeReg { x, y }),
        (0xA, _, _) => Some(Op::SetIndex { address }),
        (0xB, _, _) => Some(Op::JumpOffset { address }),
        (0xC, _, _) => Some(Op::Random { x, value }),
        (0xD, _, _) => Some(Op::Draw { x, y, n }),
        (0xE, 0x9E, _) => Some(Op::SkipKey { x }),
        (0xE, 0xA1, _) => Some(Op::SkipNoKey { x }),
        (0xF, 0x07, _) => Some(Op::GetDelay { x }),
        (0xF, 0x0A, _) => Some(Op::WaitKey { x }),
        (0xF, 0x15, _) => Some(Op::SetDelay { x }),
        (0xF, 0x18, _) => Some(Op::SetSound { x }),
        (0xF, 0x1E, _) => Some(Op::AddIndex { x }),
        (0xF, 0x29, _) => Some(Op::FontChar { x }),
        (0xF, 0x33, _) => Some(Op::Bcd { x }),
        (0xF, 0x55, _) => Some(Op::StoreRegs { x }),
        (0xF, 0x65, _) => Some(Op::LoadRegs { x }),
        _ => None,
    }
}

} // verus!
