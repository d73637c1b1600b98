//! The machine as mathematics: its state, what each instruction does to it,
//! and what one step is. The interpreter is proved against these functions.
use vstd::prelude::*;
use crate::display::{blank_grid, grid_wf, Grid};
use crate::fault::Fault;
use crate::keyboard::first_pressed;
use crate::sprite::{draw_sprite, sprite_collides};

verus! {

/// The whole state of the machine.
#[verifier::ext_equal]
pub struct Machine {
    /// Address of the next instruction to fetch.
    pub pc: u16,
    /// The general registers V0 to VF; VF doubles as the flag.
    pub v: Seq<u8>,
    /// The index register I.
    pub i: u16,
    /// The delay timer.
    pub delay: u8,
    /// The sound timer.
    pub sound: u8,
    /// The 4096 bytes of memory.
    pub memory: Seq<u8>,
    /// The pixel grid, read as `screen[x][y]`.
    pub screen: Grid,
    /// The return addresses of the open calls, the latest last.
    pub stack: Seq<u16>,
    /// The press state of the sixteen keys.
    pub keys: Seq<bool>,
    /// Whether the machine waits for a key.
    pub halted: bool,
}

impl Machine {
    /// The parts of the state have their fixed sizes.
    pub open spec fn wf(self) -> bool {
        &&& self.v.len() == 16
        &&& self.memory.len() == 0x1000
        &&& grid_wf(self.screen)
        &&& self.keys.len() == 16
    }
}

/// The top four bits of an instruction: its family.
pub open spec fn family(instr: u16) -> int {
    instr as int / 0x1000
}

/// Bits 8 to 11 of an instruction: the register X.
pub open spec fn field_x(instr: u16) -> int {
    (instr as int / 0x100) % 0x10
}

/// Bits 4 to 7 of an instruction: the register Y.
pub open spec fn field_y(instr: u16) -> int {
    (instr as int / 0x10) % 0x10
}

/// The low four bits of an instruction: N.
pub open spec fn field_n(instr: u16) -> int {
    instr as int % 0x10
}

/// The low byte of an instruction: NN.
pub open spec fn field_nn(instr: u16) -> u8 {
    (instr as int % 0x100) as u8
}

/// The low twelve bits of an instruction: NNN.
pub open spec fn field_nnn(instr: u16) -> u16 {
    (instr as int % 0x1000) as u16
}

/// The big-endian instruction word made of two bytes.
pub open spec fn word(hi: u8, lo: u8) -> u16 {
    (hi as int * 0x100 + lo as int) as u16
}

/// The first address outside memory that an access starting at `start` and
/// walking upwards meets.
pub open spec fn first_outside(start: u16) -> u16 {
    if start >= 0x1000 {
        start
    } else {
        0x1000
    }
}

/// `value` with a carry or borrow dropped: reduced modulo 256.
pub open spec fn low_byte(value: int) -> u8 {
    (value % 0x100) as u8
}

/// 1 where `condition` holds, else 0.
pub open spec fn flag(condition: bool) -> u8 {
    if condition {
        1
    } else {
        0
    }
}

/// `s` with register `x` set to `value`.
pub open spec fn with_register(s: Machine, x: int, value: u8) -> Machine {
    Machine { v: s.v.update(x, value), ..s }
}

/// `s` with register `x` set to `value` and then VF set to `vf`. Where `x`
/// is 15, the flag is what stays.
pub open spec fn with_result_and_flag(s: Machine, x: int, value: u8, vf: u8) -> Machine {
    Machine { v: s.v.update(x, value).update(0xF, vf), ..s }
}

/// 00E0: every pixel unset.
pub open spec fn op_clear(s: Machine) -> Machine {
    Machine { screen: blank_grid(), ..s }
}

/// 00EE: back to the address that the latest open call left.
pub open spec fn op_return(s: Machine) -> Result<Machine, Fault> {
    if s.stack.len() == 0 {
        Err(Fault::StackUnderflow)
    } else {
        Ok(Machine { pc: s.stack.last(), stack: s.stack.drop_last(), ..s })
    }
}

/// 1NNN: go on at `nnn`.
pub open spec fn op_jump(s: Machine, nnn: u16) -> Machine {
    Machine { pc: nnn, ..s }
}

/// 2NNN: remember where to come back to, go on at `nnn`.
pub open spec fn op_call(s: Machine, nnn: u16) -> Machine {
    Machine { pc: nnn, stack: s.stack.push(s.pc), ..s }
}

/// 3XNN, 4XNN, 5XY0, 9XY0, EX9E, EXA1: pass over the next instruction
/// where `condition` holds.
pub open spec fn op_skip_if(s: Machine, condition: bool) -> Machine {
    if condition {
        Machine { pc: (s.pc + 2) as u16, ..s }
    } else {
        s
    }
}

/// 6XNN: VX := NN.
pub open spec fn op_load(s: Machine, x: int, nn: u8) -> Machine {
    with_register(s, x, nn)
}

/// 7XNN: VX := VX + NN, the carry dropped, the flag untouched.
pub open spec fn op_add_value(s: Machine, x: int, nn: u8) -> Machine {
    with_register(s, x, low_byte(s.v[x] + nn))
}

/// 8XY0: VX := VY.
pub open spec fn op_copy(s: Machine, x: int, y: int) -> Machine {
    with_register(s, x, s.v[y])
}

/// 8XY1: VX := VX OR VY.
pub open spec fn op_or(s: Machine, x: int, y: int) -> Machine {
    with_register(s, x, s.v[x] | s.v[y])
}

/// 8XY2: VX := VX AND VY.
pub open spec fn op_and(s: Machine, x: int, y: int) -> Machine {
    with_register(s, x, s.v[x] & s.v[y])
}

/// 8XY3: VX := VX XOR VY.
pub open spec fn op_xor(s: Machine, x: int, y: int) -> Machine {
    with_register(s, x, s.v[x] ^ s.v[y])
}

/// 8XY4: VX := VX + VY modulo 256; VF := 1 where the sum passed 255.
pub open spec fn op_add(s: Machine, x: int, y: int) -> Machine {
    with_result_and_flag(s, x, low_byte(s.v[x] + s.v[y]), flag(s.v[x] + s.v[y] >= 0x100))
}

/// 8XY5: VX := VX - VY modulo 256; VF := 1 where nothing was borrowed.
pub open spec fn op_subtract(s: Machine, x: int, y: int) -> Machine {
    with_result_and_flag(s, x, low_byte(s.v[x] - s.v[y]), flag(s.v[x] >= s.v[y]))
}

/// 8XY6: VX := VY shifted right by one; VF := the bit that fell off.
pub open spec fn op_shift_right(s: Machine, x: int, y: int) -> Machine {
    with_result_and_flag(s, x, s.v[y] / 2, s.v[y] % 2)
}

/// 8XY7: VX := VY - VX modulo 256; VF := 1 where nothing was borrowed.
pub open spec fn op_subtract_from(s: Machine, x: int, y: int) -> Machine {
    with_result_and_flag(s, x, low_byte(s.v[y] - s.v[x]), flag(s.v[y] >= s.v[x]))
}

/// 8XYE: VX := VY shifted left by one, the low eight bits kept; VF := the
/// bit that fell off.
pub open spec fn op_shift_left(s: Machine, x: int, y: int) -> Machine {
    with_result_and_flag(s, x, low_byte(s.v[y] * 2), s.v[y] / 0x80)
}

/// ANNN: I := NNN.
pub open spec fn op_set_index(s: Machine, nnn: u16) -> Machine {
    Machine { i: nnn, ..s }
}

/// BNNN: go on at NNN + V0.
pub open spec fn op_jump_offset(s: Machine, nnn: u16) -> Machine {
    Machine { pc: (nnn + s.v[0]) as u16, ..s }
}

/// CXNN: VX := `random` AND NN.
pub open spec fn op_random(s: Machine, x: int, nn: u8, random: u8) -> Machine {
    with_register(s, x, random & nn)
}

/// The `n` bytes of memory from address `start` on, as the rows of a sprite.
pub open spec fn sprite_rows(memory: Seq<u8>, start: u16, n: int) -> Seq<u8> {
    Seq::new(n as nat, |row: int| memory[start + row])
}

/// DXYN: the `n` bytes from address I on are drawn as rows of eight pixels
/// with the top left corner at (VX, VY), wrapping at the edges; VF := 1
/// where a set pixel was unset. A row outside memory is a fault.
pub open spec fn op_draw(s: Machine, x: int, y: int, n: int) -> Result<Machine, Fault> {
    if n > 0 && s.i + n > 0x1000 {
        Err(Fault::OutOfBounds(first_outside(s.i)))
    } else {
        let sprite = sprite_rows(s.memory, s.i, n);
        Ok(
            Machine {
                screen: draw_sprite(s.screen, sprite, s.v[x], s.v[y]),
                v: s.v.update(0xF, flag(sprite_collides(s.screen, sprite, s.v[x], s.v[y]))),
                ..s
            },
        )
    }
}

/// EX9E (`pressed` true) and EXA1 (`pressed` false): pass over the next
/// instruction where the key that VX names is in that state. A value above
/// 15 names no key.
pub open spec fn op_skip_key(s: Machine, x: int, pressed: bool) -> Result<Machine, Fault> {
    if s.v[x] >= 16 {
        Err(Fault::KeyOutOfRange(s.v[x]))
    } else {
        Ok(op_skip_if(s, s.keys[s.v[x] as int] == pressed))
    }
}

/// FX07: VX := the delay timer.
pub open spec fn op_read_delay(s: Machine, x: int) -> Machine {
    with_register(s, x, s.delay)
}

/// FX0A: where a key is pressed, the lowest such key is released and stored
/// in VX, and the machine runs; where none is, the machine waits.
pub open spec fn op_await_key(s: Machine, x: int) -> Machine {
    match first_pressed(s.keys) {
        Some(k) => Machine {
            v: s.v.update(x, k),
            keys: s.keys.update(k as int, false),
            halted: false,
            ..s
        },
        None => Machine { halted: true, ..s },
    }
}

/// FX15: the delay timer := VX.
pub open spec fn op_set_delay(s: Machine, x: int) -> Machine {
    Machine { delay: s.v[x], ..s }
}

/// FX18: the sound timer := VX.
pub open spec fn op_set_sound(s: Machine, x: int) -> Machine {
    Machine { sound: s.v[x], ..s }
}

/// FX1E: I := I + VX modulo 65536.
pub open spec fn op_add_index(s: Machine, x: int) -> Machine {
    Machine { i: ((s.i + s.v[x]) % 0x10000) as u16, ..s }
}

/// FX29: I := the address of the glyph of the digit in VX.
pub open spec fn op_glyph(s: Machine, x: int) -> Machine {
    Machine { i: (s.v[x] * 5) as u16, ..s }
}

/// FX33: the hundreds, tens and ones of VX go to I, I+1 and I+2.
pub open spec fn op_store_decimal(s: Machine, x: int) -> Result<Machine, Fault> {
    if s.i + 2 >= 0x1000 {
        Err(Fault::OutOfBounds(first_outside(s.i)))
    } else {
        Ok(
            Machine {
                memory: s.memory.update(s.i as int, s.v[x] / 100).update(
                    s.i + 1,
                    (s.v[x] / 10) % 10,
                ).update(s.i + 2, s.v[x] % 10),
                ..s
            },
        )
    }
}

/// FX55: V0 to VX go to memory from address I on; then I := I + X + 1.
pub open spec fn op_store_registers(s: Machine, x: int) -> Result<Machine, Fault> {
    if s.i + x >= 0x1000 {
        Err(Fault::OutOfBounds(first_outside(s.i)))
    } else {
        Ok(
            Machine {
                memory: Seq::new(
                    0x1000,
                    |a: int| if s.i <= a <= s.i + x { s.v[a - s.i] } else { s.memory[a] },
                ),
                i: (s.i + x + 1) as u16,
                ..s
            },
        )
    }
}

/// FX65: V0 to VX are read from memory from address I on; then
/// I := I + X + 1.
pub open spec fn op_fill_registers(s: Machine, x: int) -> Result<Machine, Fault> {
    if s.i + x >= 0x1000 {
        Err(Fault::OutOfBounds(first_outside(s.i)))
    } else {
        Ok(
            Machine {
                v: Seq::new(16, |k: int| if k <= x { s.memory[s.i + k] } else { s.v[k] }),
                i: (s.i + x + 1) as u16,
                ..s
            },
        )
    }
}

/// Family 0: clear the display or return, by the low byte.
pub open spec fn apply_family_0(s: Machine, instr: u16) -> Result<Machine, Fault> {
    if field_nn(instr) == 0xE0 {
        Ok(op_clear(s))
    } else if field_nn(instr) == 0xEE {
        op_return(s)
    } else {
        Err(Fault::UnknownOpcode(instr))
    }
}

/// Family 8: register-to-register arithmetic, by the low four bits.
pub open spec fn apply_family_8(s: Machine, instr: u16) -> Result<Machine, Fault> {
    let x = field_x(instr);
    let y = field_y(instr);
    let n = field_n(instr);
    if n == 0x0 {
        Ok(op_copy(s, x, y))
    } else if n == 0x1 {
        Ok(op_or(s, x, y))
    } else if n == 0x2 {
        Ok(op_and(s, x, y))
    } else if n == 0x3 {
        Ok(op_xor(s, x, y))
    } else if n == 0x4 {
        Ok(op_add(s, x, y))
    } else if n == 0x5 {
        Ok(op_subtract(s, x, y))
    } else if n == 0x6 {
        Ok(op_shift_right(s, x, y))
    } else if n == 0x7 {
        Ok(op_subtract_from(s, x, y))
    } else if n == 0xE {
        Ok(op_shift_left(s, x, y))
    } else {
        Err(Fault::UnknownOpcode(instr))
    }
}

/// Family E: skip on the state of a key, by the low byte.
pub open spec fn apply_family_e(s: Machine, instr: u16) -> Result<Machine, Fault> {
    if field_nn(instr) == 0x9E {
        op_skip_key(s, field_x(instr), true)
    } else if field_nn(instr) == 0xA1 {
        op_skip_key(s, field_x(instr), false)
    } else {
        Err(Fault::UnknownOpcode(instr))
    }
}

/// Family F: timers, the key wait, the index register and memory, by the low
/// byte.
pub open spec fn apply_family_f(s: Machine, instr: u16) -> Result<Machine, Fault> {
    let x = field_x(instr);
    let nn = field_nn(instr);
    if nn == 0x07 {
        Ok(op_read_delay(s, x))
    } else if nn == 0x0A {
        Ok(op_await_key(s, x))
    } else if nn == 0x15 {
        Ok(op_set_delay(s, x))
    } else if nn == 0x18 {
        Ok(op_set_sound(s, x))
    } else if nn == 0x1E {
        Ok(op_add_index(s, x))
    } else if nn == 0x29 {
        Ok(op_glyph(s, x))
    } else if nn == 0x33 {
        op_store_decimal(s, x)
    } else if nn == 0x55 {
        op_store_registers(s, x)
    } else if nn == 0x65 {
        op_fill_registers(s, x)
    } else {
        Err(Fault::UnknownOpcode(instr))
    }
}

/// What the instruction `instr` does to `s`, the program counter already
/// past it. `random` is the byte that CXNN uses.
pub open spec fn apply(s: Machine, instr: u16, random: u8) -> Result<Machine, Fault> {
    let x = field_x(instr);
    let y = field_y(instr);
    let nn = field_nn(instr);
    let nnn = field_nnn(instr);
    let f = family(instr);
    if f == 0x0 {
        apply_family_0(s, instr)
    } else if f == 0x1 {
        Ok(op_jump(s, nnn))
    } else if f == 0x2 {
        Ok(op_call(s, nnn))
    } else if f == 0x3 {
        Ok(op_skip_if(s, s.v[x] == nn))
    } else if f == 0x4 {
        Ok(op_skip_if(s, s.v[x] != nn))
    } else if f == 0x5 {
        Ok(op_skip_if(s, s.v[x] == s.v[y]))
    } else if f == 0x6 {
        Ok(op_load(s, x, nn))
    } else if f == 0x7 {
        Ok(op_add_value(s, x, nn))
    } else if f == 0x8 {
        apply_family_8(s, instr)
    } else if f == 0x9 {
        Ok(op_skip_if(s, s.v[x] != s.v[y]))
    } else if f == 0xA {
        Ok(op_set_index(s, nnn))
    } else if f == 0xB {
        Ok(op_jump_offset(s, nnn))
    } else if f == 0xC {
        Ok(op_random(s, x, nn, random))
    } else if f == 0xD {
        op_draw(s, x, y, field_n(instr))
    } else if f == 0xE {
        apply_family_e(s, instr)
    } else {
        apply_family_f(s, instr)
    }
}

/// The address that the next step fetches from: the program counter, or,
/// while the machine waits for a key, two below it, so that the waiting
/// instruction is fetched again. Two below an address under 2 is counted
/// round the sixteen bits, and lies outside memory.
pub open spec fn fetch_address(s: Machine) -> u16 {
    if s.halted {
        ((s.pc - 2) % 0x10000) as u16
    } else {
        s.pc
    }
}

/// Whether the two bytes of the next instruction lie inside memory.
pub open spec fn can_fetch(s: Machine) -> bool {
    fetch_address(s) + 1 < 0x1000
}

/// The instruction that the next step fetches.
pub open spec fn fetched_instruction(s: Machine) -> u16 {
    word(s.memory[fetch_address(s) as int], s.memory[fetch_address(s) + 1])
}

/// `s` with the program counter behind the instruction that is fetched.
pub open spec fn after_fetch(s: Machine) -> Machine {
    Machine { pc: (fetch_address(s) + 2) as u16, ..s }
}

/// One step: fetch the instruction, move the program counter behind it, do
/// what the instruction says. `random` is the byte that CXNN uses. A step
/// that faults has no next state.
pub open spec fn step(s: Machine, random: u8) -> Result<Machine, Fault> {
    if !can_fetch(s) {
        Err(Fault::OutOfBounds(first_outside(fetch_address(s))))
    } else {
        apply(after_fetch(s), fetched_instruction(s), random)
    }
}

/// The delay timer one lower, and not below zero.
pub open spec fn tick_timer(s: Machine) -> Machine {
    Machine { delay: if s.delay > 0 { (s.delay - 1) as u8 } else { 0 }, ..s }
}

/// Several steps in a row, one for each byte of `randoms`, each with its
/// byte as the one that CXNN uses. The run ends at the first fault: the
/// result is the state that was reached, and the fault if there was one.
pub open spec fn run(s: Machine, randoms: Seq<u8>) -> (Machine, Option<Fault>)
    decreases randoms.len(),
{
    if randoms.len() == 0 {
        (s, None)
    } else {
        let (reached, fault) = run(s, randoms.drop_last());
        if fault is Some {
            (reached, fault)
        } else {
            match step(reached, randoms.last()) {
                Ok(next) => (next, None),
                Err(f) => (reached, Some(f)),
            }
        }
    }
}

/// After a fault, further steps change nothing: the run has ended.
pub proof fn lemma_run_ends_at_fault(s: Machine, randoms: Seq<u8>, more: Seq<u8>)
    requires
        run(s, randoms).1 is Some,
    ensures
        run(s, randoms + more) == run(s, randoms),
    decreases more.len(),
{
    if more.len() == 0 {
        assert(randoms + more =~= randoms);
    } else {
        lemma_run_ends_at_fault(s, randoms, more.drop_last());
        assert((randoms + more).drop_last() =~= randoms + more.drop_last());
    }
}

} // verus!
