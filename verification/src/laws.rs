//! What holds of the machine whatever program it runs: facts about single
//! instructions and about pairs of them, stated over the model and proved.
use vstd::prelude::*;
use crate::display::{blank_grid, grid_is_binary, grid_wf};
use crate::fault::Fault;
use crate::keyboard::{first_pressed, lemma_first_pressed, none_pressed_below};
use crate::machine::{
    after_fetch, apply_family_8, apply_family_e, apply_family_f, can_fetch, family,
    fetch_address, fetched_instruction, field_n, field_nn, field_x, field_y, op_draw,
    op_fill_registers, op_store_registers, sprite_rows, step, Machine,
};
use crate::memory::with_program;
use crate::sprite::{
    draw_sprite, lemma_draw_keeps_binary, lemma_draw_keeps_dimensions, lemma_draw_twice_restores,
};

verus! {

/// The instruction word with family `f`, register `x` and low byte `nn`.
pub open spec fn instr_xnn(f: int, x: int, nn: int) -> u16 {
    (f * 0x1000 + x * 0x100 + nn) as u16
}

/// The instruction word with family `f`, registers `x` and `y` and low
/// four bits `n`.
pub open spec fn instr_xyn(f: int, x: int, y: int, n: int) -> u16 {
    (f * 0x1000 + x * 0x100 + y * 0x10 + n) as u16
}

/// A step keeps the sizes of the state's parts.
pub proof fn lemma_step_keeps_wf(s: Machine, random: u8)
    requires
        s.wf(),
        step(s, random) is Ok,
    ensures
        step(s, random)->Ok_0.wf(),
{
    let f = after_fetch(s);
    let instr = fetched_instruction(s);
    let x = field_x(instr);
    let y = field_y(instr);
    let n = field_n(instr);
    assert(f.wf());
    if family(instr) == 0x0 {
        assert(grid_wf(blank_grid()));
    } else if family(instr) == 0x8 {
        assert(apply_family_8(f, instr)->Ok_0.wf());
    } else if family(instr) == 0xD {
        lemma_draw_keeps_dimensions(f.screen, sprite_rows(f.memory, f.i, n), f.v[x], f.v[y]);
    } else if family(instr) == 0xE {
        assert(apply_family_e(f, instr)->Ok_0.wf());
    } else if family(instr) == 0xF {
        lemma_first_pressed(f.keys);
        assert(apply_family_f(f, instr)->Ok_0.wf());
    }
}

/// A step leaves a grid of zeros and ones a grid of zeros and ones.
pub proof fn lemma_step_keeps_binary(s: Machine, random: u8)
    requires
        s.wf(),
        grid_is_binary(s.screen),
        step(s, random) is Ok,
    ensures
        grid_is_binary(step(s, random)->Ok_0.screen),
{
    let f = after_fetch(s);
    let instr = fetched_instruction(s);
    let n = field_n(instr);
    let x = field_x(instr);
    let y = field_y(instr);
    if family(instr) == 0xD {
        lemma_draw_keeps_binary(f.screen, sprite_rows(f.memory, f.i, n), f.v[x], f.v[y]);
    }
}

/// 6XNN, then reading VX, yields NN.
pub proof fn lemma_load_sets_register(s: Machine, random: u8, x: int, nn: u8)
    requires
        s.wf(),
        0 <= x < 16,
        can_fetch(s),
        fetched_instruction(s) == instr_xnn(0x6, x, nn as int),
    ensures
        step(s, random) is Ok,
        step(s, random)->Ok_0.v[x] == nn,
{
    lemma_fields_of_xnn(0x6, x, nn);
}

/// 8XY4 with VX = a and VY = b sets VF to 1 if a + b is 256 or more and to 0
/// if not, and sets VX to a + b modulo 256 unless X is the flag register
/// itself.
pub proof fn lemma_add_sets_sum_and_carry(s: Machine, random: u8, x: int, y: int)
    requires
        s.wf(),
        0 <= x < 16,
        0 <= y < 16,
        can_fetch(s),
        fetched_instruction(s) == instr_xyn(0x8, x, y, 0x4),
    ensures
        step(s, random) is Ok,
        step(s, random)->Ok_0.v[0xF] == (if s.v[x] + s.v[y] >= 256 {
            1u8
        } else {
            0u8
        }),
        x != 0xF ==> step(s, random)->Ok_0.v[x] == (s.v[x] + s.v[y]) % 256,
{
    lemma_fields_of_xyn(0x8, x, y, 0x4);
}

/// 8XY5 with VX = a and VY = b sets VF to 1 if a >= b and to 0 if not, and
/// sets VX to a - b modulo 256 unless X is the flag register itself.
pub proof fn lemma_subtract_sets_difference_and_flag(s: Machine, random: u8, x: int, y: int)
    requires
        s.wf(),
        0 <= x < 16,
        0 <= y < 16,
        can_fetch(s),
        fetched_instruction(s) == instr_xyn(0x8, x, y, 0x5),
    ensures
        step(s, random) is Ok,
        step(s, random)->Ok_0.v[0xF] == (if s.v[x] >= s.v[y] {
            1u8
        } else {
            0u8
        }),
        x != 0xF ==> step(s, random)->Ok_0.v[x] == (s.v[x] - s.v[y]) % 256,
{
    lemma_fields_of_xyn(0x8, x, y, 0x5);
}

/// DXYN twice in a row, with neither X nor Y the flag register, leaves
/// every pixel as it was before the first.
pub proof fn lemma_draw_twice_restores_screen(s: Machine, x: int, y: int, n: int)
    requires
        s.wf(),
        0 <= x < 15,
        0 <= y < 15,
        0 <= n < 16,
        op_draw(s, x, y, n) is Ok,
    ensures
        op_draw(op_draw(s, x, y, n)->Ok_0, x, y, n) is Ok,
        op_draw(op_draw(s, x, y, n)->Ok_0, x, y, n)->Ok_0.screen == s.screen,
{
    lemma_draw_twice_restores(s.screen, sprite_rows(s.memory, s.i, n), s.v[x], s.v[y]);
}

/// The fields of an instruction word are those that it was made of.
pub proof fn lemma_fields_of_xnn(f: int, x: int, nn: u8)
    requires
        0 <= f < 16,
        0 <= x < 16,
    ensures
        family(instr_xnn(f, x, nn as int)) == f,
        field_x(instr_xnn(f, x, nn as int)) == x,
        field_nn(instr_xnn(f, x, nn as int)) == nn,
{
    let v = f * 0x1000 + x * 0x100 + nn;
    assert(0 <= v < 0x10000);
    assert(v / 0x1000 == f);
    assert(v / 0x100 == f * 0x10 + x);
}

/// The fields of an instruction word are those that it was made of.
pub proof fn lemma_fields_of_xyn(f: int, x: int, y: int, n: int)
    requires
        0 <= f < 16,
        0 <= x < 16,
        0 <= y < 16,
        0 <= n < 16,
    ensures
        family(instr_xyn(f, x, y, n)) == f,
        field_x(instr_xyn(f, x, y, n)) == x,
        field_y(instr_xyn(f, x, y, n)) == y,
        field_n(instr_xyn(f, x, y, n)) == n,
{
    let v = f * 0x1000 + x * 0x100 + y * 0x10 + n;
    assert(0 <= v < 0x10000);
    assert(v / 0x1000 == f);
    assert(v / 0x100 == f * 0x10 + x);
    assert(v / 0x10 == f * 0x100 + x * 0x10 + y);
}

/// A step that fetches DXYN is the drawing that it asks for.
pub proof fn lemma_draw_step(s: Machine, random: u8, x: int, y: int, n: int)
    requires
        0 <= x < 16,
        0 <= y < 16,
        0 <= n < 16,
        can_fetch(s),
        fetched_instruction(s) == instr_xyn(0xD, x, y, n),
    ensures
        step(s, random) == op_draw(after_fetch(s), x, y, n),
{
    lemma_fields_of_xyn(0xD, x, y, n);
}

/// Two steps in a row that both run the same DXYN, with neither X nor Y the
/// flag register, leave every pixel as it was before the first.
pub proof fn lemma_two_draw_steps_restore_screen(
    s: Machine,
    first: u8,
    second: u8,
    x: int,
    y: int,
    n: int,
)
    requires
        s.wf(),
        0 <= x < 15,
        0 <= y < 15,
        0 <= n < 16,
        can_fetch(s),
        fetched_instruction(s) == instr_xyn(0xD, x, y, n),
        step(s, first) is Ok,
        can_fetch(step(s, first)->Ok_0),
        fetched_instruction(step(s, first)->Ok_0) == instr_xyn(0xD, x, y, n),
    ensures
        step(step(s, first)->Ok_0, second) is Ok,
        step(step(s, first)->Ok_0, second)->Ok_0.screen == s.screen,
{
    let once = after_fetch(s);
    lemma_draw_step(s, first, x, y, n);
    let drawn = op_draw(once, x, y, n)->Ok_0;
    lemma_draw_step(drawn, second, x, y, n);
    let again = after_fetch(drawn);
    let sprite = sprite_rows(once.memory, once.i, n);
    assert(sprite_rows(again.memory, again.i, n) == sprite);
    assert(again.v[x] == once.v[x]);
    assert(again.v[y] == once.v[y]);
    assert(again.screen == draw_sprite(once.screen, sprite, once.v[x], once.v[y]));
    lemma_draw_twice_restores(once.screen, sprite, once.v[x], once.v[y]);
}

/// The random byte matters to CXNN alone: a step that runs any other
/// instruction, or that cannot fetch, is the same whatever the byte.
pub proof fn lemma_random_matters_to_cxnn_alone(s: Machine, one: u8, other: u8)
    requires
        !(can_fetch(s) && family(fetched_instruction(s)) == 0xC),
    ensures
        step(s, one) == step(s, other),
{
}

/// FX55 and then FX65 with the same X and with I as it was before the
/// store bring V0 to VX back to what they were, whatever the registers held
/// in between.
pub proof fn lemma_store_then_fill_restores(s: Machine, later: Machine, x: int)
    requires
        s.wf(),
        later.wf(),
        0 <= x < 16,
        op_store_registers(s, x) is Ok,
        later.memory == op_store_registers(s, x)->Ok_0.memory,
        later.i == s.i,
    ensures
        op_fill_registers(later, x) is Ok,
        forall|k: int| 0 <= k <= x ==> op_fill_registers(later, x)->Ok_0.v[k] == s.v[k],
{
}

/// The state in which the machine waits at the instruction that `s` is
/// about to fetch.
pub open spec fn waiting(s: Machine) -> Machine {
    Machine { halted: true, pc: (fetch_address(s) + 2) as u16, ..s }
}

/// FX0A with no key pressed makes the machine wait behind the instruction,
/// and every further step leaves it there: the program counter and all else
/// stay as they are.
pub proof fn lemma_wait_without_key(s: Machine, random: u8, again: u8, x: int)
    requires
        s.wf(),
        0 <= x < 16,
        can_fetch(s),
        fetched_instruction(s) == instr_xnn(0xF, x, 0x0A),
        none_pressed_below(s.keys, 16),
    ensures
        step(s, random) == Ok::<Machine, Fault>(waiting(s)),
        can_fetch(waiting(s)),
        fetched_instruction(waiting(s)) == fetched_instruction(s),
        step(waiting(s), again) == Ok::<Machine, Fault>(waiting(s)),
{
    lemma_fields_of_xnn(0xF, x, 0x0A);
    lemma_first_pressed(s.keys);
    assert(fetch_address(waiting(s)) == fetch_address(s));
    assert(after_fetch(waiting(s)) == waiting(s));
    assert(after_fetch(s) == Machine { pc: (fetch_address(s) + 2) as u16, ..s });
}

/// While the machine waits at FX0A with no key pressed, pressing `key` makes
/// the next step store `key` in VX, release it, and run on behind the
/// instruction.
pub proof fn lemma_key_ends_wait(s: Machine, random: u8, x: int, key: u8)
    requires
        s.wf(),
        0 <= x < 16,
        key < 16,
        can_fetch(s),
        fetched_instruction(s) == instr_xnn(0xF, x, 0x0A),
        none_pressed_below(s.keys, 16),
    ensures
        step(Machine { keys: s.keys.update(key as int, true), ..s }, random) == Ok::<
            Machine,
            Fault,
        >(
            Machine {
                v: s.v.update(x, key),
                halted: false,
                pc: (fetch_address(s) + 2) as u16,
                ..s
            },
        ),
{
    let pressed = Machine { keys: s.keys.update(key as int, true), ..s };
    lemma_fields_of_xnn(0xF, x, 0x0A);
    lemma_first_pressed(pressed.keys);
    assert(pressed.keys[key as int]);
    assert(forall|j: int| 0 <= j < 16 && j != key ==> pressed.keys[j] == s.keys[j]);
    assert(first_pressed(pressed.keys) == Some(key));
    assert(pressed.keys.update(key as int, false) =~= s.keys);
}

/// Loading a program leaves every byte below address 0x200 as it was, the
/// glyph table among them.
pub proof fn lemma_program_spares_low_memory(mem: Seq<u8>, program: Seq<u8>, a: int)
    requires
        mem.len() == 0x1000,
        0 <= a < 0x200,
    ensures
        with_program(mem, program)[a] == mem[a],
{
}

} // verus!
