//! The interpreter: registers, program counter, call stack and timers, with
//! the memory, the display and the keys that it owns. One call runs one
//! instruction.
use vstd::prelude::*;
use crate::decode::{
    address, immediate, instruction_word, low_nibble, opcode_family, register_x, register_y,
};
use crate::display::Display;
use crate::fault::Fault;
use crate::keyboard::Keyboard;
use crate::machine::{
    after_fetch, apply, apply_family_0, apply_family_8, apply_family_e, apply_family_f, can_fetch,
    family, fetch_address, fetched_instruction, field_n, field_nn, field_nnn, field_x, field_y,
    first_outside, lemma_run_ends_at_fault, op_add, op_add_index, op_add_value, op_await_key,
    op_call, op_draw, op_fill_registers, op_glyph, op_jump, op_jump_offset, op_load, op_random,
    op_read_delay, op_return, op_set_delay, op_set_index, op_set_sound, op_shift_left,
    op_shift_right, op_skip_if, op_skip_key, op_store_decimal, op_store_registers, op_subtract,
    op_subtract_from, run, sprite_rows, step, tick_timer, word, Machine,
};
use crate::memory::{with_program, Memory};
use crate::rom::Rom;
use crate::sprite::{
    draw_partial, lemma_draw_all, lemma_draw_nothing, lemma_draw_pixel, lemma_draw_row_done,
    partial_collides, target_column, target_row,
};
use crate::util::get_bit_val;

verus! {

/// The interpreter and everything it owns.
pub struct Cpu {
    program_counter: u16,
    v_registers: [u8; 16],
    i_register: u16,
    delay_timer: u8,
    sound_timer: u8,
    memory: Memory,
    display: Display,
    stack: Vec<u16>,
    keyboard: Keyboard,
    halted: bool,
}

impl View for Cpu {
    type V = Machine;

    closed spec fn view(&self) -> Machine {
        Machine {
            pc: self.program_counter,
            v: self.v_registers@,
            i: self.i_register,
            delay: self.delay_timer,
            sound: self.sound_timer,
            memory: self.memory@,
            screen: self.display@,
            stack: self.stack@,
            keys: self.keyboard@,
            halted: self.halted,
        }
    }
}

/// How the result of a call stands to what the model expects: on success the
/// state after the call is the expected one; on a fault it is the expected
/// fault, and the state is as it was before the call.
pub open spec fn agrees(
    expected: Result<Machine, Fault>,
    before: Machine,
    res: Result<(), Fault>,
    after: Machine,
) -> bool {
    match res {
        Ok(_) => expected == Ok::<Machine, Fault>(after),
        Err(f) => expected == Err::<Machine, Fault>(f) && after == before,
    }
}

impl Cpu {
    /// The state of an interpreter always has its fixed sizes.
    pub proof fn lemma_view_wf(&self)
        ensures
            self@.wf(),
    {
        self.memory.lemma_size();
        self.display.lemma_dimensions();
        self.keyboard.lemma_size();
    }

    /// An interpreter about to run the program at 0x200: registers and
    /// timers zero, no open call, not waiting.
    pub fn new(memory: Memory, display: Display, keyboard: Keyboard) -> (cpu: Self)
        ensures
            cpu@ == (Machine {
                pc: 0x200,
                v: Seq::new(16, |k: int| 0u8),
                i: 0,
                delay: 0,
                sound: 0,
                memory: memory@,
                screen: display@,
                stack: Seq::empty(),
                keys: keyboard@,
                halted: false,
            }),
    {
        let cpu = Cpu {
            program_counter: 0x200,
            v_registers: [0; 16],
            i_register: 0,
            delay_timer: 0,
            sound_timer: 0,
            memory,
            display,
            stack: Vec::new(),
            keyboard,
            halted: false,
        };
        assert(cpu@.v =~= Seq::new(16, |k: int| 0u8));
        cpu
    }

    /// Copies the program into memory from address 0x200 on.
    pub fn load_program(&mut self, rom: Rom)
        requires
            rom@.len() <= 0xE00,
        ensures
            final(self)@ == (Machine { memory: with_program(old(self)@.memory, rom@), ..old(self)@ }),
    {
        self.memory.load_program(rom);
    }

    /// The whole pixel grid, column by column.
    pub fn get_display_state(&self) -> (state: &[[u8; 32]; 64])
        ensures
            crate::display::grid_of(*state) == self@.screen,
    {
        self.display.get_screen_state()
    }

    /// The value of the pixel at (`x`, `y`).
    pub fn get_display_pixel(&self, x: usize, y: usize) -> (val: u8)
        requires
            x < 64,
            y < 32,
        ensures
            val == self@.screen[x as int][y as int],
    {
        self.display.get_pixel(x, y)
    }

    /// Marks `key` as pressed.
    pub fn press_key(&mut self, key: u8)
        requires
            key < 16,
        ensures
            final(self)@ == (Machine { keys: old(self)@.keys.update(key as int, true), ..old(self)@ }),
    {
        self.keyboard.press_key(key);
    }

    /// Marks `key` as not pressed.
    pub fn release_key(&mut self, key: u8)
        requires
            key < 16,
        ensures
            final(self)@ == (Machine { keys: old(self)@.keys.update(key as int, false), ..old(self)@ }),
    {
        self.keyboard.release_key(key);
    }

    /// Lowers the delay timer by one, unless it is zero.
    pub fn decrement_timer(&mut self)
        ensures
            final(self)@ == tick_timer(old(self)@),
    {
        if self.delay_timer > 0 {
            self.delay_timer -= 1;
        }
    }

    /// The value of register V`index`.
    pub fn register(&self, index: u8) -> (value: u8)
        requires
            index < 16,
        ensures
            value == self@.v[index as int],
    {
        self.v_registers[index as usize]
    }

    /// The address of the next instruction.
    pub fn program_counter(&self) -> (pc: u16)
        ensures
            pc == self@.pc,
    {
        self.program_counter
    }

    /// The value of the index register I.
    pub fn index_register(&self) -> (i: u16)
        ensures
            i == self@.i,
    {
        self.i_register
    }

    /// The value of the delay timer.
    pub fn delay_timer(&self) -> (delay: u8)
        ensures
            delay == self@.delay,
    {
        self.delay_timer
    }

    /// The value of the sound timer.
    pub fn sound_timer(&self) -> (sound: u8)
        ensures
            sound == self@.sound,
    {
        self.sound_timer
    }

    /// Whether the machine waits for a key.
    pub fn is_halted(&self) -> (halted: bool)
        ensures
            halted == self@.halted,
    {
        self.halted
    }

    /// The number of calls that are open.
    pub fn stack_depth(&self) -> (depth: usize)
        ensures
            depth == self@.stack.len(),
    {
        self.stack.len()
    }

    /// The byte of memory at `addr`.
    pub fn memory_byte(&self, addr: u16) -> (byte: u8)
        requires
            addr < 0x1000,
        ensures
            byte == self@.memory[addr as int],
    {
        self.memory.read(addr)
    }

    /// Whether `key` is pressed.
    pub fn is_key_pressed(&self, key: u8) -> (pressed: bool)
        requires
            key < 16,
        ensures
            pressed == self@.keys[key as int],
    {
        self.keyboard.is_pressed(key)
    }

    /// Runs one instruction, with a fresh random byte where the instruction
    /// asks for one. The outcome is that of `execute_with` for some byte,
    /// and for every byte where the instruction is not CXNN.
    pub fn execute(&mut self) -> (res: Result<(), Fault>)
        ensures
            exists|random: u8| agrees(step(old(self)@, random), old(self)@, res, final(self)@),
            !(can_fetch(old(self)@) && family(fetched_instruction(old(self)@)) == 0xC) ==> forall|
                random: u8,
            | agrees(#[trigger] step(old(self)@, random), old(self)@, res, final(self)@),
    {
        let random: u8 = if self.next_is_random() {
            random_byte()
        } else {
            0
        };
        let res = self.execute_with(random);
        assert(agrees(step(old(self)@, random), old(self)@, res, self@));
        res
    }

    /// Runs `count` instructions, or fewer if one faults: the run ends at
    /// the first fault, which is returned. The outcome is that of the model's
    /// run for some `count` random bytes.
    pub fn execute_cycles(&mut self, count: u32) -> (res: Result<(), Fault>)
        ensures
            exists|randoms: Seq<u8>|
                randoms.len() == count && #[trigger] run(old(self)@, randoms) == (
                    final(self)@,
                    match res {
                        Ok(_) => None::<Fault>,
                        Err(f) => Some(f),
                    },
                ),
    {
        let ghost mut drawn: Seq<u8> = Seq::empty();
        let mut done: u32 = 0;
        while done < count
            invariant
                done <= count,
                drawn.len() == done,
                run(old(self)@, drawn) == (self@, None::<Fault>),
            decreases count - done,
        {
            let ghost before = self@;
            let res = self.execute();
            let ghost random = choose|random: u8| agrees(step(before, random), before, res, self@);
            proof {
                assert(drawn.push(random).drop_last() =~= drawn);
            }
            match res {
                Ok(()) => {
                    proof {
                        drawn = drawn.push(random);
                    }
                },
                Err(fault) => {
                    proof {
                        let rest = Seq::new((count - done - 1) as nat, |k: int| 0u8);
                        lemma_run_ends_at_fault(old(self)@, drawn.push(random), rest);
                        assert((drawn.push(random) + rest).len() == count);
                    }
                    return Err(fault);
                },
            }
            done += 1;
        }
        Ok(())
    }

    /// Runs one instruction, with `random` as the byte that CXNN draws. While
    /// the machine waits for a key, the waiting instruction is run again. On
    /// a fault nothing has changed.
    pub fn execute_with(&mut self, random: u8) -> (res: Result<(), Fault>)
        ensures
            agrees(step(old(self)@, random), old(self)@, res, final(self)@),
    {
        let saved: u16 = self.program_counter;
        let at: u16 = self.next_fetch_address();
        if at >= 0xFFF {
            return Err(Fault::OutOfBounds(outside_from(at)));
        }
        self.program_counter = at;
        let instr: u16 = self.get_instruction();
        assert(self@ == after_fetch(old(self)@));
        match self.dispatch(instr, random) {
            Ok(()) => Ok(()),
            Err(fault) => {
                self.program_counter = saved;
                Err(fault)
            },
        }
    }

    /// Whether the instruction that the next step runs is CXNN.
    pub fn next_is_random(&self) -> (b: bool)
        ensures
            b == (can_fetch(self@) && family(fetched_instruction(self@)) == 0xC),
    {
        let at: u16 = self.next_fetch_address();
        if at >= 0xFFF {
            return false;
        }
        let instr: u16 = instruction_word(self.memory.read(at), self.memory.read(at + 1));
        opcode_family(instr) == 0xC
    }

    /// The address that the next step fetches from.
    fn next_fetch_address(&self) -> (at: u16)
        ensures
            at == fetch_address(self@),
    {
        if self.halted {
            self.program_counter.wrapping_sub(2)
        } else {
            self.program_counter
        }
    }

    /// Does what `instr` says, by its family.
    fn dispatch(&mut self, instr: u16, random: u8) -> (res: Result<(), Fault>)
        requires
            old(self)@.pc <= 0x1000,
        ensures
            agrees(apply(old(self)@, instr, random), old(self)@, res, final(self)@),
    {
        let prefix: u16 = opcode_family(instr);
        let x: usize = register_x(instr);
        let y: usize = register_y(instr);
        if prefix == 0x0 {
            self.do_execute_zero_instr(instr)
        } else if prefix == 0x1 {
            self.do_jump_to_address(instr);
            Ok(())
        } else if prefix == 0x2 {
            self.do_execute_subroutine(instr);
            Ok(())
        } else if prefix == 0x3 {
            self.do_skip_instruction(instr, immediate(instr), true);
            Ok(())
        } else if prefix == 0x4 {
            self.do_skip_instruction(instr, immediate(instr), false);
            Ok(())
        } else if prefix == 0x5 {
            let value: u8 = self.v_registers[y];
            self.do_skip_instruction(instr, value, true);
            Ok(())
        } else if prefix == 0x6 {
            self.do_store_number_in_v(instr);
            Ok(())
        } else if prefix == 0x7 {
            self.do_add_value_to_vx(instr);
            Ok(())
        } else if prefix == 0x8 {
            self.do_execute_8_instr(instr)
        } else if prefix == 0x9 {
            let value: u8 = self.v_registers[y];
            self.do_skip_instruction(instr, value, false);
            Ok(())
        } else if prefix == 0xA {
            self.do_store_memory_address_in_i(instr);
            Ok(())
        } else if prefix == 0xB {
            self.do_jump_with_offset(instr);
            Ok(())
        } else if prefix == 0xC {
            self.do_set_vx_to_random_with_mask(instr, random);
            Ok(())
        } else if prefix == 0xD {
            self.do_draw_sprite(instr)
        } else if prefix == 0xE {
            self.do_execute_e_instr(instr)
        } else {
            self.do_execute_f_instr(instr)
        }
    }

    /// Reads the instruction at the program counter and moves the program
    /// counter behind it.
    fn get_instruction(&mut self) -> (instr: u16)
        requires
            old(self)@.pc + 1 < 0x1000,
        ensures
            instr == word(old(self)@.memory[old(self)@.pc as int], old(self)@.memory[old(self)@.pc + 1]),
            final(self)@ == (Machine { pc: (old(self)@.pc + 2) as u16, ..old(self)@ }),
    {
        let hi_byte: u8 = self.memory.read(self.program_counter);
        let lo_byte: u8 = self.memory.read(self.program_counter + 1);
        self.program_counter += 2;
        instruction_word(hi_byte, lo_byte)
    }

    /// Family 0: clears the display or returns from a call.
    fn do_execute_zero_instr(&mut self, instr: u16) -> (res: Result<(), Fault>)
        ensures
            agrees(apply_family_0(old(self)@, instr), old(self)@, res, final(self)@),
    {
        let lower: u8 = immediate(instr);
        if lower == 0xE0 {
            self.display.clear_screen();
            Ok(())
        } else if lower == 0xEE {
            self.do_return_from_subroutine()
        } else {
            Err(Fault::UnknownOpcode(instr))
        }
    }

    /// Family 8: arithmetic between two registers.
    fn do_execute_8_instr(&mut self, instr: u16) -> (res: Result<(), Fault>)
        ensures
            agrees(apply_family_8(old(self)@, instr), old(self)@, res, final(self)@),
    {
        let x: usize = register_x(instr);
        let y: usize = register_y(instr);
        let n: u16 = low_nibble(instr);
        if n == 0x0 {
            self.v_registers[x] = self.v_registers[y];
        } else if n == 0x1 {
            self.v_registers[x] = self.v_registers[x] | self.v_registers[y];
        } else if n == 0x2 {
            self.v_registers[x] = self.v_registers[x] & self.v_registers[y];
        } else if n == 0x3 {
            self.v_registers[x] = self.v_registers[x] ^ self.v_registers[y];
        } else if n == 0x4 {
            self.do_add_vy_to_vx(instr);
        } else if n == 0x5 {
            self.do_subtract_vy_from_vx(instr);
        } else if n == 0x6 {
            self.do_shift_bit_right(instr);
        } else if n == 0x7 {
            self.do_subtract_vx_from_vy(instr);
        } else if n == 0xE {
            self.do_shift_bit_left(instr);
        } else {
            return Err(Fault::UnknownOpcode(instr));
        }
        Ok(())
    }

    /// Family E: skips on the state of a key.
    fn do_execute_e_instr(&mut self, instr: u16) -> (res: Result<(), Fault>)
        requires
            old(self)@.pc <= 0x1000,
        ensures
            agrees(apply_family_e(old(self)@, instr), old(self)@, res, final(self)@),
    {
        let lower: u8 = immediate(instr);
        if lower == 0x9E {
            self.do_key_pressed_skip(instr)
        } else if lower == 0xA1 {
            self.do_key_not_pressed_skip(instr)
        } else {
            Err(Fault::UnknownOpcode(instr))
        }
    }

    /// Family F: timers, the key wait, the index register and memory.
    fn do_execute_f_instr(&mut self, instr: u16) -> (res: Result<(), Fault>)
        ensures
            agrees(apply_family_f(old(self)@, instr), old(self)@, res, final(self)@),
    {
        let lower: u8 = immediate(instr);
        if lower == 0x07 {
            self.do_store_delay_timer(instr);
            Ok(())
        } else if lower == 0x0A {
            self.do_await_key_press(instr);
            Ok(())
        } else if lower == 0x15 {
            self.do_set_delay_timer(instr);
            Ok(())
        } else if lower == 0x18 {
            self.do_set_sound_timer(instr);
            Ok(())
        } else if lower == 0x1E {
            self.do_add_to_i_register(instr);
            Ok(())
        } else if lower == 0x29 {
            self.do_set_i_to_sprite_location(instr);
            Ok(())
        } else if lower == 0x33 {
            self.do_store_binary_coded_decimal(instr)
        } else if lower == 0x55 {
            self.do_store_v_registers(instr)
        } else if lower == 0x65 {
            self.do_fill_v_registers(instr)
        } else {
            Err(Fault::UnknownOpcode(instr))
        }
    }

    /// 1NNN: goes on at NNN.
    fn do_jump_to_address(&mut self, instr: u16)
        ensures
            final(self)@ == op_jump(old(self)@, field_nnn(instr)),
    {
        self.program_counter = address(instr);
    }

    /// 00EE: goes back to where the latest open call came from.
    fn do_return_from_subroutine(&mut self) -> (res: Result<(), Fault>)
        ensures
            agrees(op_return(old(self)@), old(self)@, res, final(self)@),
    {
        match self.stack.pop() {
            Some(val) => {
                self.program_counter = val;
                Ok(())
            },
            None => Err(Fault::StackUnderflow),
        }
    }

    /// 2NNN: remembers the program counter and goes on at NNN.
    fn do_execute_subroutine(&mut self, instr: u16)
        ensures
            final(self)@ == op_call(old(self)@, field_nnn(instr)),
    {
        let addr: u16 = address(instr);
        self.stack.push(self.program_counter);
        self.program_counter = addr;
    }

    /// Passes over the next instruction where VX equals `value`, or, with
    /// `should_equal_val` false, where it differs.
    fn do_skip_instruction(&mut self, instr: u16, value: u8, should_equal_val: bool)
        requires
            old(self)@.pc <= 0x1000,
        ensures
            final(self)@ == op_skip_if(
                old(self)@,
                (old(self)@.v[field_x(instr)] == value) == should_equal_val,
            ),
    {
        let register_x: usize = register_x(instr);
        let condition: bool = if should_equal_val {
            self.v_registers[register_x] == value
        } else {
            self.v_registers[register_x] != value
        };
        if condition {
            self.program_counter = self.program_counter + 2;
        }
    }

    /// 6XNN: VX := NN.
    fn do_store_number_in_v(&mut self, instr: u16)
        ensures
            final(self)@ == op_load(old(self)@, field_x(instr), field_nn(instr)),
    {
        let v: usize = register_x(instr);
        let value: u8 = immediate(instr);
        self.v_registers[v] = value;
    }

    /// 7XNN: VX := VX + NN, wrapping.
    fn do_add_value_to_vx(&mut self, instr: u16)
        ensures
            final(self)@ == op_add_value(old(self)@, field_x(instr), field_nn(instr)),
    {
        let register_x: usize = register_x(instr);
        let value: u8 = immediate(instr);
        self.v_registers[register_x] = self.v_registers[register_x].wrapping_add(value);
    }

    /// 8XY4: VX := VX + VY, wrapping; VF := the carry.
    fn do_add_vy_to_vx(&mut self, instr: u16)
        ensures
            final(self)@ == op_add(old(self)@, field_x(instr), field_y(instr)),
    {
        let register_x: usize = register_x(instr);
        let register_y: usize = register_y(instr);
        let carry: u8 = match self.v_registers[register_x].checked_add(self.v_registers[register_y]) {
            Some(_) => 0,
            None => 1,
        };
        self.v_registers[register_x] = self.v_registers[register_x].wrapping_add(
            self.v_registers[register_y],
        );
        self.v_registers[0xF] = carry;
    }

    /// 8XY5: VX := VX - VY, wrapping; VF := 1 unless a borrow was needed.
    fn do_subtract_vy_from_vx(&mut self, instr: u16)
        ensures
            final(self)@ == op_subtract(old(self)@, field_x(instr), field_y(instr)),
    {
        let register_x: usize = register_x(instr);
        let register_y: usize = register_y(instr);
        let no_borrow: u8 = match self.v_registers[register_x].checked_sub(self.v_registers[register_y]) {
            Some(_) => 1,
            None => 0,
        };
        self.v_registers[register_x] = self.v_registers[register_x].wrapping_sub(
            self.v_registers[register_y],
        );
        self.v_registers[0xF] = no_borrow;
    }

    /// 8XY7: VX := VY - VX, wrapping; VF := 1 unless a borrow was needed.
    fn do_subtract_vx_from_vy(&mut self, instr: u16)
        ensures
            final(self)@ == op_subtract_from(old(self)@, field_x(instr), field_y(instr)),
    {
        let register_x: usize = register_x(instr);
        let register_y: usize = register_y(instr);
        let no_borrow: u8 = match self.v_registers[register_y].checked_sub(self.v_registers[register_x]) {
            Some(_) => 1,
            None => 0,
        };
        self.v_registers[register_x] = self.v_registers[register_y].wrapping_sub(
            self.v_registers[register_x],
        );
        self.v_registers[0xF] = no_borrow;
    }

    /// 8XY6: VX := VY >> 1; VF := the lowest bit of VY.
    fn do_shift_bit_right(&mut self, instr: u16)
        ensures
            final(self)@ == op_shift_right(old(self)@, field_x(instr), field_y(instr)),
    {
        let register_x: usize = register_x(instr);
        let register_y: usize = register_y(instr);
        let val: u8 = self.v_registers[register_y];
        assert(val >> 1 == val / 2 && val & 0x1 == val % 2) by (bit_vector);
        self.v_registers[register_x] = val >> 1;
        self.v_registers[0xF] = val & 0x1;
    }

    /// 8XYE: VX := VY << 1; VF := the highest bit of VY.
    fn do_shift_bit_left(&mut self, instr: u16)
        ensures
            final(self)@ == op_shift_left(old(self)@, field_x(instr), field_y(instr)),
    {
        let register_x: usize = register_x(instr);
        let register_y: usize = register_y(instr);
        let val: u8 = self.v_registers[register_y];
        assert(val << 1 == (val * 2) % 0x100 && val >> 7 == val / 0x80) by (bit_vector);
        self.v_registers[register_x] = val << 1;
        self.v_registers[0xF] = val >> 7;
    }

    /// ANNN: I := NNN.
    fn do_store_memory_address_in_i(&mut self, instr: u16)
        ensures
            final(self)@ == op_set_index(old(self)@, field_nnn(instr)),
    {
        let addr: u16 = address(instr);
        self.i_register = addr;
    }

    /// BNNN: goes on at NNN + V0.
    fn do_jump_with_offset(&mut self, instr: u16)
        ensures
            final(self)@ == op_jump_offset(old(self)@, field_nnn(instr)),
    {
        self.program_counter = address(instr) + (self.v_registers[0x0] as u16);
    }

    /// CXNN: VX := `random_val` AND NN.
    fn do_set_vx_to_random_with_mask(&mut self, instr: u16, random_val: u8)
        ensures
            final(self)@ == op_random(old(self)@, field_x(instr), field_nn(instr), random_val),
    {
        let register_x: usize = register_x(instr);
        let value: u8 = immediate(instr);
        self.v_registers[register_x] = random_val & value;
    }

    /// DXYN: draws the N bytes from address I on as a sprite at (VX, VY);
    /// VF := 1 where a set pixel was unset.
    fn do_draw_sprite(&mut self, instr: u16) -> (res: Result<(), Fault>)
        ensures
            agrees(
                op_draw(old(self)@, field_x(instr), field_y(instr), field_n(instr)),
                old(self)@,
                res,
                final(self)@,
            ),
    {
        let register_x: usize = register_x(instr);
        let register_y: usize = register_y(instr);
        let rows: u16 = low_nibble(instr);
        if rows > 0 && self.i_register as usize + rows as usize > 0x1000 {
            return Err(Fault::OutOfBounds(outside_from(self.i_register)));
        }
        let x_pos: u8 = self.v_registers[register_x];
        let mut y_pos: u8 = self.v_registers[register_y];
        let ghost before = self@;
        let ghost vy = y_pos;
        let ghost sprite = sprite_rows(before.memory, before.i, rows as int);
        proof {
            self.lemma_view_wf();
            lemma_draw_nothing(before.screen, sprite, x_pos, vy);
        }
        let mut any_flipped: bool = false;
        let mut row: u16 = 0;
        while row < rows
            invariant
                row <= rows <= 15,
                rows > 0 ==> before.i + rows <= 0x1000,
                before.wf(),
                sprite == sprite_rows(before.memory, before.i, rows as int),
                y_pos == (vy + row) % 256,
                self@ == (Machine {
                    screen: draw_partial(before.screen, sprite, row as int, 0, x_pos, vy),
                    ..before
                }),
                any_flipped == partial_collides(before.screen, sprite, row as int, 0, x_pos, vy),
            decreases rows - row,
        {
            let sprite_data: u8 = self.memory.read(self.i_register + row);
            let mut col: u8 = 0;
            while col < 8
                invariant
                    col <= 8,
                    row < rows <= 15,
                    before.wf(),
                    sprite.len() == rows,
                    sprite_data == sprite[row as int],
                    y_pos == (vy + row) % 256,
                    self@ == (Machine {
                        screen: draw_partial(
                            before.screen,
                            sprite,
                            row as int,
                            col as int,
                            x_pos,
                            vy,
                        ),
                        ..before
                    }),
                    any_flipped == partial_collides(
                        before.screen,
                        sprite,
                        row as int,
                        col as int,
                        x_pos,
                        vy,
                    ),
                decreases 8 - col,
            {
                let val: u8 = get_bit_val(sprite_data, 7 - col);
                let x_idx: usize = ((x_pos as usize) + (col as usize)) % 64;
                let y_idx: usize = (y_pos as usize) % 32;
                proof {
                    lemma_draw_pixel(before.screen, sprite, row as int, col as int, x_pos, vy);
                    assert(x_idx == target_column(x_pos, col as int));
                    assert(y_idx == target_row(vy, row as int));
                }
                let erased: bool = self.display.set_pixel(x_idx, y_idx, val);
                any_flipped = erased || any_flipped;
                col += 1;
            }
            proof {
                lemma_draw_row_done(before.screen, sprite, row as int, x_pos, vy);
            }
            y_pos = y_pos.wrapping_add(1);
            row += 1;
        }
        proof {
            lemma_draw_all(before.screen, sprite, x_pos, vy);
        }
        self.v_registers[0xF] = if any_flipped {
            1
        } else {
            0
        };
        Ok(())
    }

    /// EX9E: passes over the next instruction where the key in VX is pressed.
    fn do_key_pressed_skip(&mut self, instr: u16) -> (res: Result<(), Fault>)
        requires
            old(self)@.pc <= 0x1000,
        ensures
            agrees(op_skip_key(old(self)@, field_x(instr), true), old(self)@, res, final(self)@),
    {
        let register_x: usize = register_x(instr);
        let key: u8 = self.v_registers[register_x];
        if key >= 16 {
            return Err(Fault::KeyOutOfRange(key));
        }
        if self.keyboard.is_pressed(key) {
            self.program_counter = self.program_counter + 2;
        }
        Ok(())
    }

    /// EXA1: passes over the next instruction where the key in VX is not
    /// pressed.
    fn do_key_not_pressed_skip(&mut self, instr: u16) -> (res: Result<(), Fault>)
        requires
            old(self)@.pc <= 0x1000,
        ensures
            agrees(op_skip_key(old(self)@, field_x(instr), false), old(self)@, res, final(self)@),
    {
        let register_x: usize = register_x(instr);
        let key: u8 = self.v_registers[register_x];
        if key >= 16 {
            return Err(Fault::KeyOutOfRange(key));
        }
        if !self.keyboard.is_pressed(key) {
            self.program_counter = self.program_counter + 2;
        }
        Ok(())
    }

    /// FX07: VX := the delay timer.
    fn do_store_delay_timer(&mut self, instr: u16)
        ensures
            final(self)@ == op_read_delay(old(self)@, field_x(instr)),
    {
        let register_x: usize = register_x(instr);
        self.v_registers[register_x] = self.delay_timer;
    }

    /// FX0A: takes the lowest pressed key into VX, or waits where none is
    /// pressed.
    fn do_await_key_press(&mut self, instr: u16)
        ensures
            final(self)@ == op_await_key(old(self)@, field_x(instr)),
    {
        let register_x: usize = register_x(instr);
        self.halted = true;
        match self.keyboard.get_pressed() {
            Some(key) => {
                self.halted = false;
                self.v_registers[register_x] = key;
            },
            None => (),
        }
    }

    /// FX15: the delay timer := VX.
    fn do_set_delay_timer(&mut self, instr: u16)
        ensures
            final(self)@ == op_set_delay(old(self)@, field_x(instr)),
    {
        let register_x: usize = register_x(instr);
        self.delay_timer = self.v_registers[register_x];
    }

    /// FX18: the sound timer := VX.
    fn do_set_sound_timer(&mut self, instr: u16)
        ensures
            final(self)@ == op_set_sound(old(self)@, field_x(instr)),
    {
        let register_x: usize = register_x(instr);
        self.sound_timer = self.v_registers[register_x];
    }

    /// FX1E: I := I + VX, wrapping at sixteen bits.
    fn do_add_to_i_register(&mut self, instr: u16)
        ensures
            final(self)@ == op_add_index(old(self)@, field_x(instr)),
    {
        let register_x: usize = register_x(instr);
        self.i_register = self.i_register.wrapping_add(self.v_registers[register_x] as u16);
    }

    /// FX29: I := the address of the glyph of the digit in VX.
    fn do_set_i_to_sprite_location(&mut self, instr: u16)
        ensures
            final(self)@ == op_glyph(old(self)@, field_x(instr)),
    {
        let register_x: usize = register_x(instr);
        let value: u8 = self.v_registers[register_x];
        self.i_register = (value as u16) * 5;
    }

    /// FX33: stores the hundreds, tens and ones of VX at I, I+1 and I+2.
    fn do_store_binary_coded_decimal(&mut self, instr: u16) -> (res: Result<(), Fault>)
        ensures
            agrees(op_store_decimal(old(self)@, field_x(instr)), old(self)@, res, final(self)@),
    {
        let register_x: usize = register_x(instr);
        let value: u8 = self.v_registers[register_x];
        if self.i_register >= 0x1000 - 2 {
            return Err(Fault::OutOfBounds(outside_from(self.i_register)));
        }
        let most_significant_digit: u8 = value / 100;
        let middle_digit: u8 = (value / 10) % 10;
        let least_significant_digit: u8 = value % 10;
        self.memory.write(self.i_register, most_significant_digit);
        self.memory.write(self.i_register + 1, middle_digit);
        self.memory.write(self.i_register + 2, least_significant_digit);
        Ok(())
    }

    /// FX55: stores V0 to VX from address I on; I := I + X + 1.
    fn do_store_v_registers(&mut self, instr: u16) -> (res: Result<(), Fault>)
        ensures
            agrees(op_store_registers(old(self)@, field_x(instr)), old(self)@, res, final(self)@),
    {
        let register_x: usize = register_x(instr);
        if self.i_register as usize + register_x >= 0x1000 {
            return Err(Fault::OutOfBounds(outside_from(self.i_register)));
        }
        let ghost before = self@;
        proof {
            self.lemma_view_wf();
            assert(self@.memory =~= Seq::new(
                0x1000,
                |a: int|
                    if before.i <= a < before.i + 0 {
                        before.v[a - before.i]
                    } else {
                        before.memory[a]
                    },
            ));
        }
        let mut k: usize = 0;
        while k <= register_x
            invariant
                k <= register_x + 1,
                register_x < 16,
                before.i + register_x < 0x1000,
                before.wf(),
                self@ == (Machine {
                    memory: Seq::new(
                        0x1000,
                        |a: int|
                            if before.i <= a < before.i + k {
                                before.v[a - before.i]
                            } else {
                                before.memory[a]
                            },
                    ),
                    ..before
                }),
            decreases register_x + 1 - k,
        {
            self.memory.write(self.i_register + k as u16, self.v_registers[k]);
            k += 1;
            assert(self@.memory =~= Seq::new(
                0x1000,
                |a: int|
                    if before.i <= a < before.i + k {
                        before.v[a - before.i]
                    } else {
                        before.memory[a]
                    },
            ));
        }
        self.i_register = self.i_register + register_x as u16 + 1;
        assert(self@.memory =~= op_store_registers(before, register_x as int)->Ok_0.memory);
        Ok(())
    }

    /// FX65: fills V0 to VX from address I on; I := I + X + 1.
    fn do_fill_v_registers(&mut self, instr: u16) -> (res: Result<(), Fault>)
        ensures
            agrees(op_fill_registers(old(self)@, field_x(instr)), old(self)@, res, final(self)@),
    {
        let register_x: usize = register_x(instr);
        if self.i_register as usize + register_x >= 0x1000 {
            return Err(Fault::OutOfBounds(outside_from(self.i_register)));
        }
        let ghost before = self@;
        proof {
            self.lemma_view_wf();
            assert(self@.v =~= Seq::new(
                16,
                |j: int| if j < 0 { before.memory[before.i + j] } else { before.v[j] },
            ));
        }
        let mut k: usize = 0;
        while k <= register_x
            invariant
                k <= register_x + 1,
                register_x < 16,
                before.i + register_x < 0x1000,
                before.wf(),
                self@ == (Machine {
                    v: Seq::new(
                        16,
                        |j: int| if j < k { before.memory[before.i + j] } else { before.v[j] },
                    ),
                    ..before
                }),
            decreases register_x + 1 - k,
        {
            self.v_registers[k] = self.memory.read(self.i_register + k as u16);
            k += 1;
            assert(self@.v =~= Seq::new(
                16,
                |j: int| if j < k { before.memory[before.i + j] } else { before.v[j] },
            ));
        }
        self.i_register = self.i_register + register_x as u16 + 1;
        assert(self@.v =~= op_fill_registers(before, register_x as int)->Ok_0.v);
        Ok(())
    }
}

/// A byte drawn by `rand::random`, which asks the thread's generator for a
/// uniformly distributed `u8`. Nothing is claimed of the byte: any value may
/// come back.
#[verifier::external_body]
fn random_byte() -> (byte: u8) {
    rand::random::<u8>()
}

/// The first address outside memory that an access walking upwards from
/// `start` meets.
fn outside_from(start: u16) -> (addr: u16)
    ensures
        addr == first_outside(start),
{
    if start >= 0x1000 {
        start
    } else {
        0x1000
    }
}

} // verus!
