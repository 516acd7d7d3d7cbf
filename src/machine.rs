//! The virtual machine: memory, registers, call stack, timers and screen, and
//! the semantics of each operation on them.
use vstd::prelude::*;
use crate::alu::{add_with_carry, decimal_digits, shift_left, shift_right, sub_with_borrow};
use crate::decode::{classify, decode, decoded, op_of, Op};
use crate::display::{clear, collides, draw_sprite, drawn, pixel, HEIGHT, WIDTH};
use crate::keypad::{first_key, has_key, key_in, lowest_key, Keypad};

verus! {

pub const MEMORY_SIZE: usize = 4096;

pub const REGISTERS: usize = 16;

/// The flag register, written by arithmetic, shifts and draws.
pub const FLAG: usize = 15;

/// Where the hexadecimal font starts in memory.
pub const FONT_BASE: u16 = 0x50;

/// Where a program is loaded, and where execution starts.
pub const PROGRAM_START: u16 = 0x200;

/// The largest program that fits between its start and the end of memory.
pub const MAX_PROGRAM_LEN: usize = 3584;

/// The sprites of the hexadecimal digits 0..F, five rows each.
pub open spec fn font_glyphs() -> Seq<u8> {
    seq![
        0xF0u8, 0x90u8, 0x90u8, 0x90u8, 0xF0u8,
        0x20u8, 0x60u8, 0x20u8, 0x20u8, 0x70u8,
        0xF0u8, 0x10u8, 0xF0u8, 0x80u8, 0xF0u8,
        0xF0u8, 0x10u8, 0xF0u8, 0x10u8, 0xF0u8,
        0x90u8, 0x90u8, 0xF0u8, 0x10u8, 0x10u8,
        0xF0u8, 0x80u8, 0xF0u8, 0x10u8, 0xF0u8,
        0xF0u8, 0x80u8, 0xF0u8, 0x90u8, 0xF0u8,
        0xF0u8, 0x10u8, 0x20u8, 0x40u8, 0x40u8,
        0xF0u8, 0x90u8, 0xF0u8, 0x90u8, 0xF0u8,
        0xF0u8, 0x90u8, 0xF0u8, 0x10u8, 0xF0u8,
        0xF0u8, 0x90u8, 0xF0u8, 0x90u8, 0x90u8,
        0xE0u8, 0x90u8, 0xE0u8, 0x90u8, 0xE0u8,
        0xF0u8, 0x80u8, 0x80u8, 0x80u8, 0xF0u8,
        0xE0u8, 0x90u8, 0x90u8, 0x90u8, 0xE0u8,
        0xF0u8, 0x80u8, 0xF0u8, 0x80u8, 0xF0u8,
        0xF0u8, 0x80u8, 0xF0u8, 0x80u8, 0x80u8,
    ]
}

fn font() -> (r: Vec<u8>)
    ensures
        r@ == font_glyphs(),
{
    vec![
        0xF0, 0x90, 0x90, 0x90, 0xF0,
        0x20, 0x60, 0x20, 0x20, 0x70,
        0xF0, 0x10, 0xF0, 0x80, 0xF0,
        0xF0, 0x10, 0xF0, 0x10, 0xF0,
        0x90, 0x90, 0xF0, 0x10, 0x10,
        0xF0, 0x80, 0xF0, 0x10, 0xF0,
        0xF0, 0x80, 0xF0, 0x90, 0xF0,
        0xF0, 0x10, 0x20, 0x40, 0x40,
        0xF0, 0x90, 0xF0, 0x90, 0xF0,
        0xF0, 0x90, 0xF0, 0x10, 0xF0,
        0xF0, 0x90, 0xF0, 0x90, 0x90,
        0xE0, 0x90, 0xE0, 0x90, 0xE0,
        0xF0, 0x80, 0x80, 0x80, 0xF0,
        0xE0, 0x90, 0x90, 0x90, 0xE0,
        0xF0, 0x80, 0xF0, 0x80, 0xF0,
        0xF0, 0x80, 0xF0, 0x80, 0x80,
    ]
}

/// The machine's state as mathematical values.
pub struct State {
    pub mem: Seq<u8>,
    pub reg: Seq<u8>,
    pub stack: Seq<u16>,
    pub pc: u16,
    pub idx: u16,
    pub delay: u8,
    pub sound: u8,
    pub screen: Seq<u64>,
}

/// Memory, registers and screen have their fixed sizes.
pub open spec fn well_formed(s: State) -> bool {
    &&& s.mem.len() == MEMORY_SIZE
    &&& s.reg.len() == REGISTERS
    &&& s.screen.len() == HEIGHT
}

/// What the caller does after an operation.
#[derive(Clone, Copy, Debug, PartialEq, Eq)]
pub enum Flow {
    /// Go on with the next operation.
    Continue,
    /// The screen changed: show it, and end the current batch.
    Redraw,
}

/// Why a program cannot be loaded or cannot go on.
#[derive(Clone, Copy, Debug, PartialEq, Eq)]
pub enum VmError {
    /// The program does not fit in memory after its start address.
    ProgramTooLarge { len: usize },
    /// The word at the program counter is not an instruction.
    InvalidInstruction { word: u16 },
    /// A return with no call to return to.
    StackUnderflow,
}

/// A value taken modulo 2^16, as the 16-bit registers hold it.
pub open spec fn wrap16(v: int) -> u16 {
    (v % 65536) as u16
}

/// The memory cell that a 16-bit address plus `k` selects.
pub open spec fn cell(a: u16, k: int) -> int {
    (a as int + k) % (MEMORY_SIZE as int)
}

/// Operands that name registers are register numbers, and a sprite height
/// fits in a nibble: true of every operation that an instruction selects.
pub open spec fn operands_valid(op: Op) -> bool {
    match op {
        Op::SkipEqImm { x, .. } | Op::SkipNeImm { x, .. } | Op::LoadImm { x, .. } | Op::AddImm { x, .. }
        | Op::Random { x, .. } | Op::SkipKey { x } | Op::SkipNoKey { x } | Op::GetDelay { x }
        | Op::WaitKey { x } | Op::SetDelay { x } | Op::SetSound { x } | Op::AddIndex { x }
        | Op::FontChar { x } | Op::Bcd { x } | Op::StoreRegs { x } | Op::LoadRegs { x } => x < 16,
        Op::SkipEqReg { x, y } | Op::Assign { x, y } | Op::Or { x, y } | Op::And { x, y }
        | Op::Xor { x, y } | Op::AddCarry { x, y } | Op::SubBorrow { x, y } | Op::ShiftRight { x, y }
        | Op::SubReverse { x, y } | Op::ShiftLeft { x, y } | Op::SkipNeReg { x, y } => x < 16 && y < 16,
        Op::Draw { x, y, n } => x < 16 && y < 16 && n < 16,
        _ => true,
    }
}

/// `s` with the program counter moved past one more instruction when `cond`
/// holds.
pub open spec fn skip_if(s: State, cond: bool) -> State {
    if cond {
        State { pc: wrap16(s.pc + 2), ..s }
    } else {
        s
    }
}

/// `s` with register `x` set to `v`.
pub open spec fn with_reg(s: State, x: u8, v: int) -> State {
    State { reg: s.reg.update(x as int, v as u8), ..s }
}

/// `s` with register `x` set to `v`, and then the flag register to `f`.
pub open spec fn with_flag(s: State, x: u8, v: int, f: int) -> State {
    State { reg: s.reg.update(x as int, v as u8).update(FLAG as int, f as u8), ..s }
}

/// Memory after registers `0..k` are copied to the cells from `idx` on.
pub open spec fn stored(mem: Seq<u8>, reg: Seq<u8>, idx: u16, k: nat) -> Seq<u8>
    decreases k,
{
    if k == 0 {
        mem
    } else {
        stored(mem, reg, idx, (k - 1) as nat).update(cell(wrap16(idx + k - 1), 0), reg[k - 1])
    }
}

/// Registers after registers `0..k` are loaded from the cells from `idx` on.
pub open spec fn loaded(reg: Seq<u8>, mem: Seq<u8>, idx: u16, k: nat) -> Seq<u8>
    decreases k,
{
    if k == 0 {
        reg
    } else {
        loaded(reg, mem, idx, (k - 1) as nat).update(k - 1, mem[cell(wrap16(idx + k - 1), 0)])
    }
}

/// The `n` sprite bytes that a draw reads, from the cells from `idx` on.
pub open spec fn sprite_at(mem: Seq<u8>, idx: u16, n: u8) -> Seq<u8> {
    Seq::new(n as nat, |i: int| mem[cell(idx, i)])
}

/// The outcome of `op` on `s` (whose program counter is already past the
/// instruction), with `keys` as the keypad and `random` as the byte that a
/// random operation draws.
#[verifier::opaque]
pub open spec fn exec_spec(s: State, op: Op, keys: Keypad, random: u8) -> Result<(State, Flow), VmError> {
    if in_control_group(op) {
        control_spec(s, op, keys)
    } else if in_arith_group(op) {
        arith_spec(s, op, random)
    } else if in_index_timer_group(op) {
        index_timer_spec(s, op)
    } else {
        memory_spec(s, op)
    }
}

/// The outcome of an operation on the program counter or the call stack, or of clearing the screen.
pub open spec fn control_spec(s: State, op: Op, keys: Keypad) -> Result<(State, Flow), VmError>
    recommends
        in_control_group(op),
{
    let reg = s.reg;
    match op {
        Op::Clear => Ok((State { screen: Seq::new(HEIGHT as nat, |r: int| 0u64), ..s }, Flow::Redraw)),
        Op::Return => if s.stack.len() == 0 {
            Err(VmError::StackUnderflow)
        } else {
            Ok((State { pc: s.stack.last(), stack: s.stack.drop_last(), ..s }, Flow::Continue))
        },
        Op::Jump { address } => Ok((State { pc: address, ..s }, Flow::Continue)),
        Op::Call { address } => Ok((State { stack: s.stack.push(s.pc), pc: address, ..s }, Flow::Continue)),
        Op::SkipEqImm { x, value } => Ok((skip_if(s, reg[x as int] == value), Flow::Continue)),
        Op::SkipNeImm { x, value } => Ok((skip_if(s, reg[x as int] != value), Flow::Continue)),
        Op::SkipEqReg { x, y } => Ok((skip_if(s, reg[x as int] == reg[y as int]), Flow::Continue)),
        Op::SkipNeReg { x, y } => Ok((skip_if(s, reg[x as int] != reg[y as int]), Flow::Continue)),
        Op::JumpOffset { address } => Ok((State { pc: wrap16(address + reg[0]), ..s }, Flow::Continue)),
        Op::SkipKey { x } => Ok((skip_if(s, has_key(keys.pressed, reg[x as int] % 16)), Flow::Continue)),
        Op::SkipNoKey { x } => Ok((skip_if(s, !has_key(keys.pressed, reg[x as int] % 16)), Flow::Continue)),
        Op::WaitKey { x } => match lowest_key(keys.released) {
            Some(k) => Ok((with_reg(s, x, k as int), Flow::Continue)),
            None => Ok((State { pc: wrap16(s.pc + 65536 - 2), ..s }, Flow::Continue)),
        },
        _ => Ok((s, Flow::Continue)),
    }
}

/// The outcome of an operation that sets one register, and the flag register with some of them.
pub open spec fn arith_spec(s: State, op: Op, random: u8) -> Result<(State, Flow), VmError>
    recommends
        in_arith_group(op),
{
    let reg = s.reg;
    match op {
        Op::LoadImm { x, value } => Ok((with_reg(s, x, value as int), Flow::Continue)),
        Op::AddImm { x, value } => Ok((with_reg(s, x, (reg[x as int] + value) % 256), Flow::Continue)),
        Op::Assign { x, y } => Ok((with_reg(s, x, reg[y as int] as int), Flow::Continue)),
        Op::Or { x, y } => Ok((with_flag(s, x, (reg[x as int] | reg[y as int]) as int, 0), Flow::Continue)),
        Op::And { x, y } => Ok((with_flag(s, x, (reg[x as int] & reg[y as int]) as int, 0), Flow::Continue)),
        Op::Xor { x, y } => Ok((with_flag(s, x, (reg[x as int] ^ reg[y as int]) as int, 0), Flow::Continue)),
        Op::AddCarry { x, y } => {
            let (a, b) = (reg[x as int], reg[y as int]);
            Ok((with_flag(s, x, (a + b) % 256, if a + b >= 256 { 1 } else { 0 }), Flow::Continue))
        },
        Op::SubBorrow { x, y } => {
            let (a, b) = (reg[x as int], reg[y as int]);
            Ok((with_flag(s, x, (a - b + 256) % 256, if a >= b { 1 } else { 0 }), Flow::Continue))
        },
        Op::ShiftRight { x, y } => Ok((with_flag(s, x, reg[y as int] as int / 2, reg[y as int] as int % 2), Flow::Continue)),
        Op::SubReverse { x, y } => {
            let (a, b) = (reg[x as int], reg[y as int]);
            Ok((with_flag(s, x, (b - a + 256) % 256, if b >= a { 1 } else { 0 }), Flow::Continue))
        },
        Op::ShiftLeft { x, y } => Ok((with_flag(s, x, (reg[y as int] * 2) % 256, reg[y as int] as int / 128), Flow::Continue)),
        Op::Random { x, value } => Ok((with_reg(s, x, (random & value) as int), Flow::Continue)),
        Op::GetDelay { x } => Ok((with_reg(s, x, s.delay as int), Flow::Continue)),
        _ => Ok((s, Flow::Continue)),
    }
}

/// The outcome of an operation on the index register or the timers.
pub open spec fn index_timer_spec(s: State, op: Op) -> Result<(State, Flow), VmError>
    recommends
        in_index_timer_group(op),
{
    let reg = s.reg;
    match op {
        Op::SetIndex { address } => Ok((State { idx: address, ..s }, Flow::Continue)),
        Op::SetDelay { x } => Ok((State { delay: reg[x as int], ..s }, Flow::Continue)),
        Op::SetSound { x } => Ok((State { sound: reg[x as int], ..s }, Flow::Continue)),
        Op::AddIndex { x } => Ok((State { idx: wrap16(s.idx + reg[x as int]), ..s }, Flow::Continue)),
        Op::FontChar { x } => Ok((State { idx: (FONT_BASE + 5 * (reg[x as int] % 16)) as u16, ..s }, Flow::Continue)),
        _ => Ok((s, Flow::Continue)),
    }
}

/// The outcome of an operation on memory or the screen.
pub open spec fn memory_spec(s: State, op: Op) -> Result<(State, Flow), VmError>
    recommends
        in_memory_group(op),
{
    let reg = s.reg;
    match op {
        Op::Draw { x, y, n } => {
            let x0 = (reg[x as int] % 64) as u64;
            let y0 = (reg[y as int] % 32) as int;
            let sprite = sprite_at(s.mem, s.idx, n);
            let hit = collides(s.screen, sprite, x0, y0, n as int);
            Ok((
                State {
                    screen: drawn(s.screen, sprite, x0, y0, n as int),
                    reg: reg.update(FLAG as int, if hit { 1u8 } else { 0u8 }),
                    ..s
                },
                Flow::Redraw,
            ))
        },
        Op::Bcd { x } => {
            let v = reg[x as int];
            let mem = s.mem.update(cell(s.idx, 0), v / 100).update(cell(s.idx, 1), (v % 100) / 10).update(
                cell(s.idx, 2),
                v % 10,
            );
            Ok((State { mem, ..s }, Flow::Continue))
        },
        Op::StoreRegs { x } => Ok((
            State { mem: stored(s.mem, reg, s.idx, (x + 1) as nat), idx: wrap16(s.idx + x + 1), ..s },
            Flow::Continue,
        )),
        Op::LoadRegs { x } => Ok((
            State { reg: loaded(reg, s.mem, s.idx, (x + 1) as nat), idx: wrap16(s.idx + x + 1), ..s },
            Flow::Continue,
        )),
        _ => Ok((s, Flow::Continue)),
    }
}

} // verus!

verus! {

/// Operations on the program counter or the call stack, and clearing the screen.
pub open spec fn in_control_group(op: Op) -> bool {
    match op {
        Op::Clear | Op::Return | Op::Jump { .. } | Op::Call { .. } | Op::SkipEqImm { .. } | Op::SkipNeImm { .. } | Op::SkipEqReg { .. } | Op::SkipNeReg { .. } | Op::JumpOffset { .. } | Op::SkipKey { .. } | Op::SkipNoKey { .. } | Op::WaitKey { .. } => true,
        _ => false,
    }
}

/// Operations that set one register, and the flag register with some of them.
pub open spec fn in_arith_group(op: Op) -> bool {
    match op {
        Op::LoadImm { .. } | Op::AddImm { .. } | Op::Assign { .. } | Op::Or { .. } | Op::And { .. } | Op::Xor { .. } | Op::AddCarry { .. } | Op::SubBorrow { .. } | Op::ShiftRight { .. } | Op::SubReverse { .. } | Op::ShiftLeft { .. } | Op::Random { .. } | Op::GetDelay { .. } => true,
        _ => false,
    }
}

/// Operations on the index register or the timers.
pub open spec fn in_index_timer_group(op: Op) -> bool {
    match op {
        Op::SetIndex { .. } | Op::SetDelay { .. } | Op::SetSound { .. } | Op::AddIndex { .. } | Op::FontChar { .. } => true,
        _ => false,
    }
}

/// Operations on memory or the screen.
pub open spec fn in_memory_group(op: Op) -> bool {
    match op {
        Op::Draw { .. } | Op::Bcd { .. } | Op::StoreRegs { .. } | Op::LoadRegs { .. } => true,
        _ => false,
    }
}

/// The machine: 4 KiB of memory, sixteen 8-bit registers, the call stack, the
/// program counter and index register, the delay and sound timers, and the
/// screen.
pub struct Emulator {
    mem: Vec<u8>,
    reg: Vec<u8>,
    stack: Vec<u16>,
    pc: u16,
    idx: u16,
    delay: u8,
    sound: u8,
    screen: Vec<u64>,
}

impl View for Emulator {
    type V = State;

    closed spec fn view(&self) -> State {
        State {
            mem: self.mem@,
            reg: self.reg@,
            stack: self.stack@,
            pc: self.pc,
            idx: self.idx,
            delay: self.delay,
            sound: self.sound,
            screen: self.screen@,
        }
    }
}

impl Emulator {
    /// Memory, registers and screen have their fixed sizes.
    pub open spec fn wf(&self) -> bool {
        well_formed(self@)
    }

    fn set_reg(&mut self, x: u8, v: u8)
        requires
            old(self).wf(),
            x < 16,
        ensures
            final(self)@ == with_reg(old(self)@, x, v as int),
    {
        self.reg.set(x as usize, v);
    }

    fn set_with_flag(&mut self, x: u8, v: u8, f: u8)
        requires
            old(self).wf(),
            x < 16,
        ensures
            final(self)@ == with_flag(old(self)@, x, v as int, f as int),
    {
        self.reg.set(x as usize, v);
        self.reg.set(FLAG, f);
    }

    fn skip_if(&mut self, cond: bool)
        ensures
            final(self)@ == skip_if(old(self)@, cond),
    {
        if cond {
            self.pc = self.pc.wrapping_add(2);
        }
    }

    /// Performs `op`, whose instruction the program counter has already
    /// passed. `random` is the byte that a random operation draws.
    pub fn execute(&mut self, op: Op, keys: &Keypad, random: u8) -> (r: Result<Flow, VmError>)
        requires
            old(self).wf(),
            operands_valid(op),
        ensures
            final(self).wf(),
            match exec_spec(old(self)@, op, *keys, random) {
                Ok((s, flow)) => r == Ok::<Flow, VmError>(flow) && final(self)@ == s,
                Err(e) => r == Err::<Flow, VmError>(e) && final(self)@ == old(self)@,
            },
    {
        reveal(exec_spec);
        match op {
            Op::Clear | Op::Return | Op::Jump { .. } | Op::Call { .. } | Op::SkipEqImm { .. } | Op::SkipNeImm { .. } | Op::SkipEqReg { .. } | Op::SkipNeReg { .. } | Op::JumpOffset { .. } | Op::SkipKey { .. } | Op::SkipNoKey { .. } | Op::WaitKey { .. } => self.exec_control(op, keys),
            Op::LoadImm { .. } | Op::AddImm { .. } | Op::Assign { .. } | Op::Or { .. } | Op::And { .. } | Op::Xor { .. } | Op::AddCarry { .. } | Op::SubBorrow { .. } | Op::ShiftRight { .. } | Op::SubReverse { .. } | Op::ShiftLeft { .. } | Op::Random { .. } | Op::GetDelay { .. } => self.exec_arith(op, random),
            Op::SetIndex { .. } | Op::SetDelay { .. } | Op::SetSound { .. } | Op::AddIndex { .. } | Op::FontChar { .. } => self.exec_index_timer(op),
            Op::Draw { .. } | Op::Bcd { .. } | Op::StoreRegs { .. } | Op::LoadRegs { .. } => self.exec_memory(op),
        }
    }

    /// Operations on the program counter and the call stack, and clearing the screen.
    fn exec_control(&mut self, op: Op, keys: &Keypad) -> (r: Result<Flow, VmError>)
        requires
            old(self).wf(),
            operands_valid(op),
            in_control_group(op),
        ensures
            final(self).wf(),
            match control_spec(old(self)@, op, *keys) {
                Ok((s, flow)) => r == Ok::<Flow, VmError>(flow) && final(self)@ == s,
                Err(e) => r == Err::<Flow, VmError>(e) && final(self)@ == old(self)@,
            },
    {
        match op {
            Op::Clear => {
                clear(&mut self.screen);
                Ok(Flow::Redraw)
            },
            Op::Return => match self.stack.pop() {
                Some(a) => {
                    self.pc = a;
                    Ok(Flow::Continue)
                },
                None => Err(VmError::StackUnderflow),
            },
            Op::Jump { address } => {
                self.pc = address;
                Ok(Flow::Continue)
            },
            Op::Call { address } => {
                self.stack.push(self.pc);
                self.pc = address;
                Ok(Flow::Continue)
            },
            Op::SkipEqImm { x, value } => {
                let c = self.reg[x as usize] == value;
                self.skip_if(c);
                Ok(Flow::Continue)
            },
            Op::SkipNeImm { x, value } => {
                let c = self.reg[x as usize] != value;
                self.skip_if(c);
                Ok(Flow::Continue)
            },
            Op::SkipEqReg { x, y } => {
                let c = self.reg[x as usize] == self.reg[y as usize];
                self.skip_if(c);
                Ok(Flow::Continue)
            },
            Op::SkipNeReg { x, y } => {
                let c = self.reg[x as usize] != self.reg[y as usize];
                self.skip_if(c);
                Ok(Flow::Continue)
            },
            Op::JumpOffset { address } => {
                self.pc = address.wrapping_add(self.reg[0] as u16);
                Ok(Flow::Continue)
            },
            Op::SkipKey { x } => {
                let c = key_in(keys.pressed, self.reg[x as usize] % 16);
                self.skip_if(c);
                Ok(Flow::Continue)
            },
            Op::SkipNoKey { x } => {
                let c = !key_in(keys.pressed, self.reg[x as usize] % 16);
                self.skip_if(c);
                Ok(Flow::Continue)
            },
            Op::WaitKey { x } => {
                match first_key(keys.released) {
                    Some(k) => self.set_reg(x, k),
                    None => self.pc = self.pc.wrapping_sub(2),
                }
                Ok(Flow::Continue)
            },
            _ => Ok(Flow::Continue),
        }
    }

    /// Operations that set one register, and the flag register with some of them.
    fn exec_arith(&mut self, op: Op, random: u8) -> (r: Result<Flow, VmError>)
        requires
            old(self).wf(),
            operands_valid(op),
            in_arith_group(op),
        ensures
            final(self).wf(),
            match arith_spec(old(self)@, op, random) {
                Ok((s, flow)) => r == Ok::<Flow, VmError>(flow) && final(self)@ == s,
                Err(e) => r == Err::<Flow, VmError>(e) && final(self)@ == old(self)@,
            },
    {
        match op {
            Op::LoadImm { x, value } => {
                self.set_reg(x, value);
                Ok(Flow::Continue)
            },
            Op::AddImm { x, value } => {
                let v = self.reg[x as usize].wrapping_add(value);
                self.set_reg(x, v);
                Ok(Flow::Continue)
            },
            Op::Assign { x, y } => {
                let v = self.reg[y as usize];
                self.set_reg(x, v);
                Ok(Flow::Continue)
            },
            Op::Or { x, y } => {
                let v = self.reg[x as usize] | self.reg[y as usize];
                self.set_with_flag(x, v, 0);
                Ok(Flow::Continue)
            },
            Op::And { x, y } => {
                let v = self.reg[x as usize] & self.reg[y as usize];
                self.set_with_flag(x, v, 0);
                Ok(Flow::Continue)
            },
            Op::Xor { x, y } => {
                let v = self.reg[x as usize] ^ self.reg[y as usize];
                self.set_with_flag(x, v, 0);
                Ok(Flow::Continue)
            },
            Op::AddCarry { x, y } => {
                let (v, f) = add_with_carry(self.reg[x as usize], self.reg[y as usize]);
                self.set_with_flag(x, v, f);
                Ok(Flow::Continue)
            },
            Op::SubBorrow { x, y } => {
                let (v, f) = sub_with_borrow(self.reg[x as usize], self.reg[y as usize]);
                self.set_with_flag(x, v, f);
                Ok(Flow::Continue)
            },
            Op::ShiftRight { x, y } => {
                let (v, f) = shift_right(self.reg[y as usize]);
                self.set_with_flag(x, v, f);
                Ok(Flow::Continue)
            },
            Op::SubReverse { x, y } => {
                let (v, f) = sub_with_borrow(self.reg[y as usize], self.reg[x as usize]);
                self.set_with_flag(x, v, f);
                Ok(Flow::Continue)
            },
            Op::ShiftLeft { x, y } => {
                let (v, f) = shift_left(self.reg[y as usize]);
                self.set_with_flag(x, v, f);
                Ok(Flow::Continue)
            },
            Op::Random { x, value } => {
                self.set_reg(x, random & value);
                Ok(Flow::Continue)
            },
            Op::GetDelay { x } => {
                let v = self.delay;
                self.set_reg(x, v);
                Ok(Flow::Continue)
            },
            _ => Ok(Flow::Continue),
        }
    }

    /// Operations on the index register and the timers.
    fn exec_index_timer(&mut self, op: Op) -> (r: Result<Flow, VmError>)
        requires
            old(self).wf(),
            operands_valid(op),
            in_index_timer_group(op),
        ensures
            final(self).wf(),
            match index_timer_spec(old(self)@, op) {
                Ok((s, flow)) => r == Ok::<Flow, VmError>(flow) && final(self)@ == s,
                Err(e) => r == Err::<Flow, VmError>(e) && final(self)@ == old(self)@,
            },
    {
        match op {
            Op::SetIndex { address } => {
                self.idx = address;
                Ok(Flow::Continue)
            },
            Op::SetDelay { x } => {
                self.delay = self.reg[x as usize];
                Ok(Flow::Continue)
            },
            Op::SetSound { x } => {
                self.sound = self.reg[x as usize];
                Ok(Flow::Continue)
            },
            Op::AddIndex { x } => {
                self.idx = self.idx.wrapping_add(self.reg[x as usize] as u16);
                Ok(Flow::Continue)
            },
            Op::FontChar { x } => {
                self.idx = FONT_BASE + 5 * (self.reg[x as usize] % 16) as u16;
                Ok(Flow::Continue)
            },
            _ => Ok(Flow::Continue),
        }
    }

    /// Operations on memory and the screen.
    fn exec_memory(&mut self, op: Op) -> (r: Result<Flow, VmError>)
        requires
            old(self).wf(),
            operands_valid(op),
            in_memory_group(op),
        ensures
            final(self).wf(),
            match memory_spec(old(self)@, op) {
                Ok((s, flow)) => r == Ok::<Flow, VmError>(flow) && final(self)@ == s,
                Err(e) => r == Err::<Flow, VmError>(e) && final(self)@ == old(self)@,
            },
    {
        match op {
            Op::Draw { x, y, n } => {
                self.draw(x, y, n);
                Ok(Flow::Redraw)
            },
            Op::Bcd { x } => {
                self.store_digits(x);
                Ok(Flow::Continue)
            },
            Op::StoreRegs { x } => {
                self.store_registers(x);
                Ok(Flow::Continue)
            },
            Op::LoadRegs { x } => {
                self.load_registers(x);
                Ok(Flow::Continue)
            },
            _ => Ok(Flow::Continue),
        }
    }

    /// Draws the `n`-row sprite at the index register, at the position held
    /// in registers `x` and `y`, and sets the flag register to the collision.
    fn draw(&mut self, x: u8, y: u8, n: u8)
        requires
            old(self).wf(),
            x < 16,
            y < 16,
        ensures
            final(self).wf(),
            memory_spec(old(self)@, Op::Draw { x, y, n }) == Ok::<(State, Flow), VmError>((final(self)@, Flow::Redraw)),
    {
        let x0 = (self.reg[x as usize] % 64) as u64;
        let y0 = (self.reg[y as usize] % 32) as u64;
        let mut sprite: Vec<u8> = Vec::new();
        let mut i: u8 = 0;
        while i < n
            invariant
                i <= n,
                self.wf(),
                sprite@ == sprite_at(self@.mem, self@.idx, n).take(i as int),
            decreases n - i,
        {
            sprite.push(self.mem[(self.idx as usize + i as usize) % MEMORY_SIZE]);
            i = i + 1;
            assert(sprite@ =~= sprite_at(self@.mem, self@.idx, n).take(i as int));
        }
        assert(sprite@ =~= sprite_at(self@.mem, self@.idx, n));
        let hit = draw_sprite(&mut self.screen, &sprite, x0, y0);
        self.reg.set(FLAG, if hit { 1 } else { 0 });
    }

    /// Writes the hundreds, tens and units digits of register `x` to the
    /// three cells from the index register on.
    fn store_digits(&mut self, x: u8)
        requires
            old(self).wf(),
            x < 16,
        ensures
            final(self).wf(),
            memory_spec(old(self)@, Op::Bcd { x }) == Ok::<(State, Flow), VmError>((final(self)@, Flow::Continue)),
    {
        let (h, t, u) = decimal_digits(self.reg[x as usize]);
        let a = self.idx as usize;
        self.mem.set(a % MEMORY_SIZE, h);
        self.mem.set((a + 1) % MEMORY_SIZE, t);
        self.mem.set((a + 2) % MEMORY_SIZE, u);
    }

    /// Copies registers `0..=x` to memory from the index register on,
    /// advancing the index register once per register.
    fn store_registers(&mut self, x: u8)
        requires
            old(self).wf(),
            x < 16,
        ensures
            final(self).wf(),
            memory_spec(old(self)@, Op::StoreRegs { x }) == Ok::<(State, Flow), VmError>((final(self)@, Flow::Continue)),
            final(self)@ == (State {
                mem: stored(old(self)@.mem, old(self)@.reg, old(self)@.idx, (x + 1) as nat),
                idx: wrap16(old(self)@.idx + x + 1),
                ..old(self)@
            }),
    {
        let ghost start = self@;
        let mut i: usize = 0;
        while i <= x as usize
            invariant
                i <= x + 1,
                x < 16,
                self@ == (State { mem: stored(start.mem, start.reg, start.idx, i as nat), idx: wrap16(start.idx + i), ..start }),
                stored(start.mem, start.reg, start.idx, i as nat).len() == MEMORY_SIZE,
                start.reg.len() == REGISTERS,
            decreases x + 1 - i,
        {
            self.mem.set(self.idx as usize % MEMORY_SIZE, self.reg[i]);
            self.idx = self.idx.wrapping_add(1);
            i = i + 1;
            assert(wrap16(wrap16(start.idx + i - 1) + 1) == wrap16(start.idx + i));
        }
    }

    /// Loads registers `0..=x` from memory from the index register on,
    /// advancing the index register once per register.
    fn load_registers(&mut self, x: u8)
        requires
            old(self).wf(),
            x < 16,
        ensures
            final(self).wf(),
            memory_spec(old(self)@, Op::LoadRegs { x }) == Ok::<(State, Flow), VmError>((final(self)@, Flow::Continue)),
            final(self)@ == (State {
                reg: loaded(old(self)@.reg, old(self)@.mem, old(self)@.idx, (x + 1) as nat),
                idx: wrap16(old(self)@.idx + x + 1),
                ..old(self)@
            }),
    {
        let ghost start = self@;
        let mut i: usize = 0;
        while i <= x as usize
            invariant
                i <= x + 1,
                x < 16,
                self@ == (State { reg: loaded(start.reg, start.mem, start.idx, i as nat), idx: wrap16(start.idx + i), ..start }),
                loaded(start.reg, start.mem, start.idx, i as nat).len() == REGISTERS,
                start.mem.len() == MEMORY_SIZE,
            decreases x + 1 - i,
        {
            let v = self.mem[self.idx as usize % MEMORY_SIZE];
            self.reg.set(i, v);
            self.idx = self.idx.wrapping_add(1);
            i = i + 1;
            assert(wrap16(wrap16(start.idx + i - 1) + 1) == wrap16(start.idx + i));
        }
    }
}

} // verus!

verus! {

/// How many operations a frame runs at most.
pub const CYCLES_PER_FRAME: usize = 100;

/// The memory of a freshly loaded machine: the font at its base, the program
/// at its start, zero elsewhere.
pub open spec fn initial_memory(program: Seq<u8>) -> Seq<u8> {
    Seq::new(
        MEMORY_SIZE as nat,
        |a: int|
            if FONT_BASE <= a < FONT_BASE + 80 {
                font_glyphs()[a - FONT_BASE]
            } else if PROGRAM_START <= a < PROGRAM_START + program.len() {
                program[a - PROGRAM_START]
            } else {
                0u8
            },
    )
}

/// A freshly loaded machine: registers, timers and stack empty, the screen
/// dark, execution at the program's start.
pub open spec fn initial_state(program: Seq<u8>) -> State {
    State {
        mem: initial_memory(program),
        reg: Seq::new(REGISTERS as nat, |i: int| 0u8),
        stack: Seq::empty(),
        pc: PROGRAM_START,
        idx: 0,
        delay: 0,
        sound: 0,
        screen: Seq::new(HEIGHT as nat, |r: int| 0u64),
    }
}

/// The two bytes of the instruction at the program counter.
pub open spec fn fetched(s: State) -> (u8, u8) {
    (s.mem[cell(s.pc, 0)], s.mem[cell(s.pc, 1)])
}

/// One cycle: fetch the instruction at the program counter, move past it,
/// and perform it.
pub open spec fn step_spec(s: State, keys: Keypad, random: u8) -> Result<(State, Flow), VmError> {
    let (hi, lo) = fetched(s);
    match op_of(decoded(hi, lo)) {
        None => Err(VmError::InvalidInstruction { word: (hi as int * 256 + lo as int) as u16 }),
        Some(op) => exec_spec(State { pc: wrap16(s.pc + 2), ..s }, op, keys, random),
    }
}

/// The timers after one tick: each counts down by one unless it is zero.
pub open spec fn tick_spec(s: State) -> State {
    State {
        delay: if s.delay > 0 { (s.delay - 1) as u8 } else { 0 },
        sound: if s.sound > 0 { (s.sound - 1) as u8 } else { 0 },
        ..s
    }
}

/// Runs one cycle per byte of `randoms` (each the byte that a random
/// operation of that cycle draws), stopping early after an operation that
/// redraws the screen. Gives the state reached and whether the screen was
/// redrawn.
pub open spec fn cycles(s: State, keys: Keypad, randoms: Seq<u8>) -> Result<(State, bool), VmError>
    decreases randoms.len(),
{
    if randoms.len() == 0 {
        Ok((s, false))
    } else {
        match step_spec(s, keys, randoms[0]) {
            Err(e) => Err(e),
            Ok((next, Flow::Redraw)) => Ok((next, true)),
            Ok((next, Flow::Continue)) => cycles(next, keys, randoms.drop_first()),
        }
    }
}

/// What the host does after a frame.
#[derive(Clone, Copy, Debug, PartialEq, Eq)]
pub struct Frame {
    /// The screen changed and is to be shown.
    pub redraw: bool,
    /// The tone is to sound: the sound timer is running.
    pub tone: bool,
}

/// Relies on rand::random (thread-local generator): any byte may come back.
#[verifier::external_body]
fn random_byte() -> (r: u8) {
    rand::random::<u8>()
}

proof fn lemma_op_operands(hi: u8, lo: u8)
    ensures
        op_of(decoded(hi, lo)) matches Some(op) ==> operands_valid(op),
{
    reveal(op_of);
    crate::decode::lemma_fields_recompose(hi, lo, decoded(hi, lo));
}

impl Emulator {
    /// Loads `program` at the program start, with the font at its base.
    /// Fails when the program does not fit in memory.
    pub fn new(program: &[u8]) -> (r: Result<Emulator, VmError>)
        ensures
            program@.len() <= MAX_PROGRAM_LEN <==> (r is Ok),
            (r matches Ok(e) ==> e.wf() && e@ == initial_state(program@)),
            (r matches Err(e) ==> e == (VmError::ProgramTooLarge { len: program@.len() as usize })),
    {
        if program.len() > MAX_PROGRAM_LEN {
            return Err(VmError::ProgramTooLarge { len: program.len() });
        }
        let glyphs = font();
        let mut mem: Vec<u8> = Vec::new();
        let mut a: usize = 0;
        while a < MEMORY_SIZE
            invariant
                a <= MEMORY_SIZE,
                mem@.len() == a,
                glyphs@ == font_glyphs(),
                program@.len() <= MAX_PROGRAM_LEN,
                forall|b: int| 0 <= b < a ==> #[trigger] mem@[b] == initial_memory(program@)[b],
            decreases MEMORY_SIZE - a,
        {
            let v = if FONT_BASE as usize <= a && a < FONT_BASE as usize + 80 {
                glyphs[a - FONT_BASE as usize]
            } else if PROGRAM_START as usize <= a && a < PROGRAM_START as usize + program.len() {
                program[a - PROGRAM_START as usize]
            } else {
                0
            };
            mem.push(v);
            a = a + 1;
        }
        assert(mem@ =~= initial_memory(program@));
        let reg: Vec<u8> = vec![0u8; REGISTERS];
        let screen: Vec<u64> = vec![0u64; HEIGHT];
        let e = Emulator { mem, reg, stack: Vec::new(), pc: PROGRAM_START, idx: 0, delay: 0, sound: 0, screen };
        assert(e.reg@ =~= Seq::new(REGISTERS as nat, |i: int| 0u8));
        assert(e.screen@ =~= Seq::new(HEIGHT as nat, |r: int| 0u64));
        assert(e.stack@ =~= Seq::<u16>::empty());
        Ok(e)
    }

    /// Runs one cycle: fetches the instruction at the program counter, moves
    /// past it and performs it. `random` is the byte that a random operation
    /// draws.
    pub fn step(&mut self, keys: &Keypad, random: u8) -> (r: Result<Flow, VmError>)
        requires
            old(self).wf(),
        ensures
            final(self).wf(),
            match step_spec(old(self)@, *keys, random) {
                Ok((s, flow)) => r == Ok::<Flow, VmError>(flow) && final(self)@ == s,
                Err(e) => r == Err::<Flow, VmError>(e),
            },
    {
        let a = self.pc as usize;
        let hi = self.mem[a % MEMORY_SIZE];
        let lo = self.mem[(a + 1) % MEMORY_SIZE];
        let ins = decode(hi, lo);
        proof {
            lemma_op_operands(hi, lo);
        }
        match classify(&ins) {
            None => Err(VmError::InvalidInstruction { word: hi as u16 * 256 + lo as u16 }),
            Some(op) => {
                self.pc = self.pc.wrapping_add(2);
                self.execute(op, keys, random)
            },
        }
    }

    /// Counts each timer down by one unless it is already zero.
    pub fn tick_timers(&mut self)
        ensures
            final(self)@ == tick_spec(old(self)@),
    {
        if self.delay > 0 {
            self.delay = self.delay - 1;
        }
        if self.sound > 0 {
            self.sound = self.sound - 1;
        }
    }

    /// Runs one frame: ticks the timers, then runs cycles until an operation
    /// redraws the screen or `CYCLES_PER_FRAME` have run, drawing a fresh
    /// random byte for each cycle. Says whether to show the screen and whether
    /// the tone sounds; stops at the first error.
    pub fn run_frame(&mut self, keys: &Keypad) -> (r: Result<Frame, VmError>)
        requires
            old(self).wf(),
        ensures
            final(self).wf(),
            exists|randoms: Seq<u8>|
                randoms.len() == CYCLES_PER_FRAME && #[trigger] cycles(tick_spec(old(self)@), *keys, randoms) == match r {
                    Ok(f) => Ok::<(State, bool), VmError>((final(self)@, f.redraw)),
                    Err(e) => Err::<(State, bool), VmError>(e),
                },
            (r matches Ok(f) ==> f.tone == (final(self)@.sound > 0)),
    {
        self.tick_timers();
        let ghost start = self@;
        assert(start == tick_spec(old(self)@));
        let ghost used: Seq<u8> = Seq::empty();
        let mut i: usize = 0;
        while i < CYCLES_PER_FRAME
            invariant
                i <= CYCLES_PER_FRAME,
                self.wf(),
                start == tick_spec(old(self)@),
                used.len() == i,
                forall|rest: Seq<u8>|
                    rest.len() == CYCLES_PER_FRAME - i ==> #[trigger] cycles(start, *keys, used + rest) == cycles(self@, *keys, rest),
            decreases CYCLES_PER_FRAME - i,
        {
            let random = random_byte();
            let ghost before = self@;
            let flow = self.step(keys, random);
            proof {
                assert forall|rest: Seq<u8>| rest.len() == CYCLES_PER_FRAME - i - 1 implies
                    #[trigger] cycles(before, *keys, seq![random] + rest) == match flow {
                        Ok(Flow::Continue) => cycles(self@, *keys, rest),
                        Ok(Flow::Redraw) => Ok::<(State, bool), VmError>((self@, true)),
                        Err(e) => Err::<(State, bool), VmError>(e),
                    } by {
                    let full = seq![random] + rest;
                    assert(full[0] == random);
                    assert(full.drop_first() =~= rest);
                }
                assert forall|rest: Seq<u8>| rest.len() == CYCLES_PER_FRAME - i - 1 implies
                    #[trigger] cycles(start, *keys, used.push(random) + rest) == cycles(start, *keys, used + (seq![random] + rest)) by {
                    assert(used.push(random) + rest =~= used + (seq![random] + rest));
                }
            }
            match flow {
                Err(e) => {
                    proof {
                        let rest = Seq::new((CYCLES_PER_FRAME - i - 1) as nat, |j: int| 0u8);
                        assert(cycles(start, *keys, used.push(random) + rest) == cycles(start, *keys, used + (seq![random] + rest)));
                        assert(cycles(start, *keys, used + (seq![random] + rest)) == cycles(before, *keys, seq![random] + rest));
                        assert((used.push(random) + rest).len() == CYCLES_PER_FRAME);
                        assert(cycles(tick_spec(old(self)@), *keys, used.push(random) + rest) == cycles(before, *keys, seq![random] + rest));
                    }
                    return Err(e);
                },
                Ok(Flow::Redraw) => {
                    proof {
                        let rest = Seq::new((CYCLES_PER_FRAME - i - 1) as nat, |j: int| 0u8);
                        assert(cycles(start, *keys, used.push(random) + rest) == cycles(start, *keys, used + (seq![random] + rest)));
                        assert(cycles(start, *keys, used + (seq![random] + rest)) == cycles(before, *keys, seq![random] + rest));
                        assert((used.push(random) + rest).len() == CYCLES_PER_FRAME);
                        assert(cycles(tick_spec(old(self)@), *keys, used.push(random) + rest) == cycles(before, *keys, seq![random] + rest));
                    }
                    return Ok(Frame { redraw: true, tone: self.sound > 0 });
                },
                Ok(Flow::Continue) => {},
            }
            proof {
                assert forall|rest: Seq<u8>| rest.len() == CYCLES_PER_FRAME - (i + 1) implies
                    #[trigger] cycles(start, *keys, used.push(random) + rest) == cycles(self@, *keys, rest) by {
                    assert(cycles(start, *keys, used.push(random) + rest) == cycles(start, *keys, used + (seq![random] + rest)));
                    assert(cycles(start, *keys, used + (seq![random] + rest)) == cycles(before, *keys, seq![random] + rest));
                }
                used = used.push(random);
            }
            i = i + 1;
        }
        proof {
            let rest = Seq::<u8>::empty();
            assert(cycles(start, *keys, used + rest) == cycles(self@, *keys, rest));
            assert(used + rest =~= used);
            assert(cycles(tick_spec(old(self)@), *keys, used) == cycles(self@, *keys, rest));
        }
        Ok(Frame { redraw: false, tone: self.sound > 0 })
    }
}

} // verus!

verus! {

/// The colour of one framebuffer cell: all bits set when lit, else zero.
pub open spec fn colour(on: bool) -> u32 {
    if on {
        0xFFFF_FFFFu32
    } else {
        0u32
    }
}

/// The screen as one colour per pixel, row by row.
pub open spec fn frame_pixels(screen: Seq<u64>) -> Seq<u32> {
    Seq::new((WIDTH * HEIGHT) as nat, |k: int| colour(pixel(screen, k % 64, k / 64)))
}

impl Emulator {
    /// The program counter.
    pub fn pc(&self) -> (r: u16)
        ensures
            r == self@.pc,
    {
        self.pc
    }

    /// The index register.
    pub fn index(&self) -> (r: u16)
        ensures
            r == self@.idx,
    {
        self.idx
    }

    /// Register `x`.
    pub fn register(&self, x: usize) -> (r: u8)
        requires
            self.wf(),
            x < REGISTERS,
        ensures
            r == self@.reg[x as int],
    {
        self.reg[x]
    }

    /// The byte at memory cell `a`.
    pub fn memory(&self, a: usize) -> (r: u8)
        requires
            self.wf(),
            a < MEMORY_SIZE,
        ensures
            r == self@.mem[a as int],
    {
        self.mem[a]
    }

    /// How many return addresses the call stack holds.
    pub fn stack_depth(&self) -> (r: usize)
        ensures
            r == self@.stack.len(),
    {
        self.stack.len()
    }

    /// The delay timer.
    pub fn delay_timer(&self) -> (r: u8)
        ensures
            r == self@.delay,
    {
        self.delay
    }

    /// The sound timer.
    pub fn sound_timer(&self) -> (r: u8)
        ensures
            r == self@.sound,
    {
        self.sound
    }

    /// Whether the pixel at (`col`, `row`) is lit.
    pub fn is_lit(&self, col: usize, row: usize) -> (r: bool)
        requires
            self.wf(),
            col < WIDTH,
            row < HEIGHT,
        ensures
            r == pixel(self@.screen, col as int, row as int),
    {
        (self.screen[row] >> (63 - col) as u64) & 1u64 == 1u64
    }

    /// The screen as one colour per pixel, row by row, for a host surface.
    pub fn framebuffer(&self) -> (r: Vec<u32>)
        requires
            self.wf(),
        ensures
            r@ == frame_pixels(self@.screen),
    {
        let mut fb: Vec<u32> = Vec::new();
        let mut k: usize = 0;
        while k < WIDTH * HEIGHT
            invariant
                k <= WIDTH * HEIGHT,
                self.wf(),
                fb@.len() == k,
                forall|j: int| 0 <= j < k ==> #[trigger] fb@[j] == frame_pixels(self@.screen)[j],
            decreases WIDTH * HEIGHT - k,
        {
            let on = self.is_lit(k % WIDTH, k / WIDTH);
            fb.push(if on { 0xFFFF_FFFFu32 } else { 0u32 });
            k = k + 1;
        }
        assert(fb@ =~= frame_pixels(self@.screen));
        fb
    }
}

} // verus!
