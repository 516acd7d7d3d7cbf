//! Properties of the operations, stated over the machine's model and proved
//! from the semantics that `Emulator::execute` is held to.
use vstd::prelude::*;
use crate::decode::Op;
use crate::display::{covers, lemma_draw_collision, lemma_draw_pixels, pixel, HEIGHT, WIDTH};
use crate::keypad::Keypad;
use crate::machine::{exec_spec, sprite_at, well_formed, wrap16, Flow, State, VmError, FLAG};

verus! {

/// Add with carry: the register receives the sum modulo 256 (unless it is
/// the flag register itself), and the flag is 1 exactly when the sum reaches
/// 256.
pub proof fn lemma_add_carry(s: State, x: u8, y: u8, keys: Keypad, random: u8)
    requires
        well_formed(s),
        x < 16,
        y < 16,
    ensures
        exec_spec(s, Op::AddCarry { x, y }, keys, random) matches Ok((t, Flow::Continue)) && ({
            let (a, b) = (s.reg[x as int], s.reg[y as int]);
            &&& t.reg[FLAG as int] == (if a + b >= 256 { 1u8 } else { 0u8 })
            &&& x != FLAG ==> t.reg[x as int] == (a + b) % 256
        }),
{
    reveal(exec_spec);
}

/// Subtract with borrow: the register receives `a - b` modulo 256 (unless it
/// is the flag register itself), and the flag is 1 exactly when `a >= b`.
pub proof fn lemma_sub_borrow(s: State, x: u8, y: u8, keys: Keypad, random: u8)
    requires
        well_formed(s),
        x < 16,
        y < 16,
    ensures
        exec_spec(s, Op::SubBorrow { x, y }, keys, random) matches Ok((t, Flow::Continue)) && ({
            let (a, b) = (s.reg[x as int], s.reg[y as int]);
            &&& t.reg[FLAG as int] == (if a >= b { 1u8 } else { 0u8 })
            &&& x != FLAG ==> t.reg[x as int] == (a - b + 256) % 256
        }),
{
    reveal(exec_spec);
}

/// Shift right: the register receives `a >> 1` (unless it is the flag
/// register itself), and the flag receives `a & 1`.
pub proof fn lemma_shift_right(s: State, x: u8, y: u8, keys: Keypad, random: u8)
    requires
        well_formed(s),
        x < 16,
        y < 16,
    ensures
        exec_spec(s, Op::ShiftRight { x, y }, keys, random) matches Ok((t, Flow::Continue)) && ({
            let a = s.reg[y as int];
            &&& t.reg[FLAG as int] == a & 1u8
            &&& x != FLAG ==> t.reg[x as int] == a >> 1u8
        }),
{
    reveal(exec_spec);
    let a = s.reg[y as int];
    assert(a / 2 == a >> 1u8 && a % 2 == a & 1u8) by (bit_vector);
}

/// OR, AND and XOR leave the flag register at zero, whatever it held.
pub proof fn lemma_logic_clears_flag(s: State, x: u8, y: u8, keys: Keypad, random: u8)
    requires
        well_formed(s),
        x < 16,
        y < 16,
    ensures
        exec_spec(s, Op::Or { x, y }, keys, random) matches Ok((t, _)) && t.reg[FLAG as int] == 0,
        exec_spec(s, Op::And { x, y }, keys, random) matches Ok((t, _)) && t.reg[FLAG as int] == 0,
        exec_spec(s, Op::Xor { x, y }, keys, random) matches Ok((t, _)) && t.reg[FLAG as int] == 0,
{
    reveal(exec_spec);
}

/// Storing or loading registers `0..=x` leaves the index register advanced
/// by exactly `x + 1` (modulo 2^16).
pub proof fn lemma_register_copy_index(s: State, x: u8, keys: Keypad, random: u8)
    requires
        well_formed(s),
        x < 16,
    ensures
        exec_spec(s, Op::StoreRegs { x }, keys, random) matches Ok((t, _)) && t.idx == wrap16(s.idx + x + 1),
        exec_spec(s, Op::LoadRegs { x }, keys, random) matches Ok((t, _)) && t.idx == wrap16(s.idx + x + 1),
{
    reveal(exec_spec);
}

/// A return with an empty call stack is an error, never a silent no-op.
pub proof fn lemma_return_needs_caller(s: State, keys: Keypad, random: u8)
    requires
        s.stack.len() == 0,
    ensures
        exec_spec(s, Op::Return, keys, random) == Err::<(State, Flow), VmError>(VmError::StackUnderflow),
{
    reveal(exec_spec);
}

/// A draw flips exactly the pixels that a set sprite bit covers, leaves every
/// other pixel unchanged, never reaches past the right or bottom edge (what
/// falls there is dropped, not wrapped), and sets the flag to 1 exactly when
/// some covered pixel was already lit.
pub proof fn lemma_draw(s: State, x: u8, y: u8, n: u8, keys: Keypad, random: u8)
    requires
        well_formed(s),
        x < 16,
        y < 16,
    ensures
        exec_spec(s, Op::Draw { x, y, n }, keys, random) matches Ok((t, Flow::Redraw)) && ({
            let x0 = (s.reg[x as int] % 64) as int;
            let y0 = (s.reg[y as int] % 32) as int;
            let sprite = sprite_at(s.mem, s.idx, n);
            &&& t.screen.len() == HEIGHT
            &&& forall|col: int, row: int|
                0 <= col < WIDTH && 0 <= row < HEIGHT ==> #[trigger] pixel(t.screen, col, row) == (pixel(s.screen, col, row)
                    != covers(sprite, x0, y0, n as int, col, row))
            &&& forall|col: int, row: int|
                #[trigger] covers(sprite, x0, y0, n as int, col, row) ==> x0 <= col < x0 + 8 && y0 <= row < y0 + n
            &&& (t.reg[FLAG as int] == 1) == exists|col: int, row: int|
                0 <= col < WIDTH && 0 <= row < HEIGHT && #[trigger] covers(sprite, x0, y0, n as int, col, row)
                    && #[trigger] pixel(s.screen, col, row)
            &&& t.reg[FLAG as int] <= 1
        }),
{
    reveal(exec_spec);
    let x0 = (s.reg[x as int] % 64) as u64;
    let y0 = (s.reg[y as int] % 32) as int;
    let sprite = sprite_at(s.mem, s.idx, n);
    lemma_draw_collision(s.screen, sprite, x0, y0, n as int);
    assert forall|col: int, row: int| 0 <= col < WIDTH && 0 <= row < HEIGHT implies
        #[trigger] pixel(crate::display::drawn(s.screen, sprite, x0, y0, n as int), col, row) == (pixel(s.screen, col, row)
            != covers(sprite, x0 as int, y0, n as int, col, row)) by {
        lemma_draw_pixels(s.screen, sprite, x0, y0, n as int, col, row);
    }
}

} // verus!
