//! The processor: registers, memory, call stack and timers, and the engine
//! that fetches and executes instructions on them.

use vstd::prelude::*;
use crate::display::{is_grid, Display};
use crate::instruction::{decode, join_bytes, op_class, op_n, op_nn, op_x, op_y};
use crate::keyboard::Keyboard;
use crate::machine::{
    arithmetic, call, can_fetch, execute_cpu, execute_display, execute_result, fetched, instruction_at,
    keyboard_skip, misc, ret, sprite_of, step_cpu, step_display, step_result, CpuState, EngineError, LoadError,
    RunState, MAX_PROGRAM_SIZE, MEMORY_SIZE,
};
use crate::sprite::{
    collides_up_to, draw_sprite, drawn_up_to, lemma_draw_end, lemma_draw_next_row, lemma_draw_position,
    lemma_draw_start, sprite_collides,
};

verus! {

/// The processor. Its state is private; the view is the [`CpuState`] that the
/// contracts speak of.
pub struct CPU {
    registers: [u8; 16],
    memory: [u8; 4096],
    pc: usize,
    i: u16,
    stack: Vec<usize>,
    delay_timer: u8,
    sound_timer: u8,
    state: RunState,
    diagnostics: Vec<u16>,
}

impl View for CPU {
    type V = CpuState;

    closed spec fn view(&self) -> CpuState {
        CpuState {
            registers: self.registers@,
            memory: self.memory@,
            pc: self.pc as nat,
            index: self.i,
            stack: self.stack@.map_values(|address: usize| address as nat),
            delay_timer: self.delay_timer,
            sound_timer: self.sound_timer,
            run_state: self.state,
            diagnostics: self.diagnostics@,
        }
    }
}

impl CPU {
    /// A processor with cleared registers and memory, ready to run from
    /// `PROGRAM_START`.
    pub fn new() -> (cpu: CPU)
        ensures
            cpu@ == CpuState::initial(),
    {
        let cpu = CPU {
            registers: [0; 16],
            memory: [0; 4096],
            pc: 0x200,
            i: 0,
            stack: Vec::new(),
            delay_timer: 0,
            sound_timer: 0,
            state: RunState::Running,
            diagnostics: Vec::new(),
        };
        assert(cpu@ =~= CpuState::initial());
        cpu
    }

    /// Copies a program into memory from `PROGRAM_START` onward. A program
    /// that does not fit is rejected and memory is left as it was.
    pub fn load_rom(&mut self, rom: &[u8]) -> (result: Result<(), LoadError>)
        requires
            old(self)@.well_formed(),
        ensures
            rom@.len() <= MAX_PROGRAM_SIZE ==> result == Ok::<(), LoadError>(()) && final(self)@ == old(self)@.load(
                rom@,
            ),
            rom@.len() > MAX_PROGRAM_SIZE ==> result == Err::<(), LoadError>(LoadError { length: rom.len() })
                && final(self)@ == old(self)@,
            final(self)@.well_formed(),
    {
        if rom.len() > 4096 - 0x200 {
            return Err(LoadError { length: rom.len() });
        }
        let mut offset: usize = 0;
        while offset < rom.len()
            invariant
                offset <= rom.len() <= 3584,
                forall|a: int|
                    0 <= a < 4096 ==> self.memory@[a] == if 0x200 <= a < 0x200 + offset {
                        rom@[a - 0x200]
                    } else {
                        old(self).memory@[a]
                    },
                self.registers == old(self).registers,
                self.pc == old(self).pc,
                self.i == old(self).i,
                self.stack == old(self).stack,
                self.delay_timer == old(self).delay_timer,
                self.sound_timer == old(self).sound_timer,
                self.state == old(self).state,
                self.diagnostics == old(self).diagnostics,
            decreases rom.len() - offset,
        {
            self.memory[0x200 + offset] = rom[offset];
            offset += 1;
        }
        assert(self@ =~= old(self)@.load(rom@));
        Ok(())
    }

    /// Reads the instruction word at the program counter, the more
    /// significant byte first, and moves the program counter past it.
    pub fn fetch(&mut self) -> (result: Result<u16, EngineError>)
        requires
            old(self)@.well_formed(),
        ensures
            can_fetch(old(self)@) ==> result == Ok::<u16, EngineError>(instruction_at(old(self)@))
                && final(self)@ == fetched(old(self)@),
            !can_fetch(old(self)@) ==> result == Err::<u16, EngineError>(EngineError::MemoryAccess)
                && final(self)@ == old(self)@,
            final(self)@.well_formed(),
    {
        if self.pc >= 4095 {
            return Err(EngineError::MemoryAccess);
        }
        let hi = self.memory[self.pc];
        let lo = self.memory[self.pc + 1];
        self.pc += 2;
        Ok(join_bytes(hi, lo))
    }

    /// `00EE`: pops the most recent return address into the program counter.
    fn return_from_subroutine(&mut self) -> (result: Result<(), EngineError>)
        ensures
            old(self)@.stack.len() == 0 ==> result == Err::<(), EngineError>(EngineError::StackUnderflow)
                && final(self)@ == old(self)@,
            old(self)@.stack.len() > 0 ==> result == Ok::<(), EngineError>(()) && final(self)@ == ret(old(self)@),
    {
        match self.stack.pop() {
            Some(address) => {
                self.pc = address;
                assert(self@ =~= ret(old(self)@));
                Ok(())
            },
            None => {
                assert(self@ =~= old(self)@);
                Err(EngineError::StackUnderflow)
            },
        }
    }

    /// `1nnn`: continues at `addr`.
    fn jump(&mut self, addr: u16)
        ensures
            final(self)@ == old(self)@.jump(addr as int),
    {
        self.pc = addr as usize;
    }

    /// `2nnn`: saves the program counter on the stack and continues at `addr`.
    fn call_subroutine(&mut self, addr: u16)
        ensures
            final(self)@ == call(old(self)@, addr as int),
    {
        self.stack.push(self.pc);
        self.pc = addr as usize;
        assert(self@ =~= call(old(self)@, addr as int));
    }

    /// Moves the program counter past the next instruction.
    fn skip(&mut self)
        requires
            old(self)@.pc + 2 <= usize::MAX,
        ensures
            final(self)@ == old(self)@.skip_if(true),
    {
        self.pc = self.pc + 2;
    }

    /// `3xnn`: skips the next instruction if register `x` holds `nn`.
    fn skip_if_equal(&mut self, x: usize, nn: u8)
        requires
            x < 16,
            old(self)@.pc + 2 <= usize::MAX,
        ensures
            final(self)@ == old(self)@.skip_if(old(self)@.v(x as int) == nn),
    {
        if self.registers[x] == nn {
            self.skip();
        }
    }

    /// `4xnn`: skips the next instruction unless register `x` holds `nn`.
    fn skip_if_not_equal(&mut self, x: usize, nn: u8)
        requires
            x < 16,
            old(self)@.pc + 2 <= usize::MAX,
        ensures
            final(self)@ == old(self)@.skip_if(old(self)@.v(x as int) != nn),
    {
        if self.registers[x] != nn {
            self.skip();
        }
    }

    /// `5xy0`: skips the next instruction if registers `x` and `y` are equal.
    fn skip_if_registers_equal(&mut self, x: usize, y: usize)
        requires
            x < 16,
            y < 16,
            old(self)@.pc + 2 <= usize::MAX,
        ensures
            final(self)@ == old(self)@.skip_if(old(self)@.v(x as int) == old(self)@.v(y as int)),
    {
        if self.registers[x] == self.registers[y] {
            self.skip();
        }
    }

    /// `9xy0`: skips the next instruction if registers `x` and `y` differ.
    fn skip_if_registers_not_equal(&mut self, x: usize, y: usize)
        requires
            x < 16,
            y < 16,
            old(self)@.pc + 2 <= usize::MAX,
        ensures
            final(self)@ == old(self)@.skip_if(old(self)@.v(x as int) != old(self)@.v(y as int)),
    {
        if self.registers[x] != self.registers[y] {
            self.skip();
        }
    }

    /// `6xnn`: puts `value` into register `reg`.
    fn set_register(&mut self, reg: usize, value: u8)
        requires
            reg < 16,
        ensures
            final(self)@ == old(self)@.set_register(reg as int, value as int),
    {
        self.registers[reg] = value;
    }

    /// `7xnn`: adds `value` to register `reg` modulo 256; the flag register
    /// is not touched.
    fn add_to_register(&mut self, reg: usize, value: u8)
        requires
            reg < 16,
        ensures
            final(self)@ == old(self)@.set_register(reg as int, (old(self)@.v(reg as int) + value) % 256),
    {
        self.registers[reg] = self.registers[reg].wrapping_add(value);
    }

    /// Records an instruction word that names no instruction.
    fn report_unknown(&mut self, opcode: u16)
        ensures
            final(self)@ == old(self)@.report_unknown(opcode),
    {
        self.diagnostics.push(opcode);
    }

    /// `8xyn`: the register-to-register operations.
    fn arithmetic_operations(&mut self, opcode: u16, x: usize, y: usize, n: u8)
        requires
            x == op_x(opcode),
            y == op_y(opcode),
            n == op_n(opcode),
        ensures
            final(self)@ == arithmetic(old(self)@, opcode),
    {
        let vx = self.registers[x];
        let vy = self.registers[y];
        match n {
            0x0 => {
                self.registers[x] = vy;
            },
            0x1 => {
                self.registers[x] = vx | vy;
            },
            0x2 => {
                self.registers[x] = vx & vy;
            },
            0x3 => {
                self.registers[x] = vx ^ vy;
            },
            0x4 => {
                let sum: u16 = vx as u16 + vy as u16;
                self.registers[x] = (sum % 256) as u8;
                self.registers[0xF] = if sum > 255 {
                    1
                } else {
                    0
                };
            },
            0x5 => {
                self.registers[x] = vx.wrapping_sub(vy);
                self.registers[0xF] = if vx >= vy {
                    1
                } else {
                    0
                };
            },
            0x6 => {
                assert(vx & 1 == vx % 2) by (bit_vector);
                self.registers[0xF] = vx & 1;
                let shifted = self.registers[x];
                assert(shifted >> 1 == shifted / 2) by (bit_vector);
                self.registers[x] = shifted >> 1;
            },
            0x7 => {
                self.registers[x] = vy.wrapping_sub(vx);
                self.registers[0xF] = if vy >= vx {
                    1
                } else {
                    0
                };
            },
            0xE => {
                assert((vx & 0x80) >> 7 == (if vx >= 128 { 1u8 } else { 0u8 })) by (bit_vector);
                self.registers[0xF] = (vx & 0x80) >> 7;
                let shifted = self.registers[x];
                assert(shifted << 1 == (shifted * 2) % 256) by (bit_vector);
                self.registers[x] = shifted << 1;
            },
            _ => {
                self.diagnostics.push(opcode);
            },
        }
        assert(self@ =~= arithmetic(old(self)@, opcode));
    }

    /// `Annn`: points the index register at `value`.
    fn set_index(&mut self, value: u16)
        ensures
            final(self)@ == old(self)@.set_index(value as int),
    {
        self.i = value;
    }

    /// `Bnnn`: continues at `addr` plus the value of register 0.
    fn jump_with_offset(&mut self, addr: u16)
        requires
            addr < 0x1000,
        ensures
            final(self)@ == old(self)@.jump(addr + old(self)@.v(0)),
    {
        self.pc = addr as usize + self.registers[0] as usize;
    }

    /// `Cxnn`: puts `random_byte` masked with `nn` into register `x`.
    fn random(&mut self, x: usize, nn: u8, random_byte: u8)
        requires
            x < 16,
        ensures
            final(self)@ == old(self)@.set_register(x as int, (random_byte & nn) as int),
    {
        self.registers[x] = random_byte & nn;
    }

    /// `Dxyn`: draws the `height` sprite rows at the index register with the
    /// top left corner at the position held in registers `x` and `y`, and
    /// sets the flag register to whether a lit pixel was turned off. Nothing
    /// is drawn when a sprite row lies past the end of memory.
    fn draw(&mut self, opcode: u16, x: usize, y: usize, height: u8, display: &mut Display) -> (result: Result<
        (),
        EngineError,
    >)
        requires
            x == op_x(opcode),
            y == op_y(opcode),
            height == op_n(opcode),
        ensures
            height > 0 && old(self)@.index + height > MEMORY_SIZE ==> result == Err::<(), EngineError>(
                EngineError::MemoryAccess,
            ) && final(self)@ == old(self)@ && final(display)@ == old(display)@,
            !(height > 0 && old(self)@.index + height > MEMORY_SIZE) ==> result == Ok::<(), EngineError>(())
                && final(display)@
                == draw_sprite(
                old(display)@,
                sprite_of(old(self)@, opcode),
                old(self)@.v(x as int),
                old(self)@.v(y as int),
            ) && final(self)@ == old(self)@.set_flag(
                sprite_collides(
                    old(display)@,
                    sprite_of(old(self)@, opcode),
                    old(self)@.v(x as int),
                    old(self)@.v(y as int),
                ),
            ),
    {
        let x_coord = self.registers[x] as usize;
        let y_coord = self.registers[y] as usize;
        let start = self.i as usize;
        let rows = height as usize;
        if rows > 0 && start + rows > 4096 {
            return Err(EngineError::MemoryAccess);
        }
        let ghost sprite = sprite_of(self@, opcode);
        let ghost before = display@;
        let ghost vx = x_coord as int;
        let ghost vy = y_coord as int;
        proof {
            display.lemma_is_grid();
            lemma_draw_start(before, sprite, vx, vy);
        }
        let mut flipped = false;
        let mut row: usize = 0;
        while row < rows
            invariant
                row <= rows < 16,
                rows == 0 || start + rows <= 4096,
                x_coord < 256,
                y_coord < 256,
                vx == x_coord,
                vy == y_coord,
                sprite.len() == rows,
                forall|r: int| 0 <= r < rows ==> sprite[r] == self.memory@[start + r],
                is_grid(before),
                drawn_up_to(before, display@, sprite, vx, vy, row as int, 0),
                flipped == collides_up_to(before, sprite, vx, vy, row as int, 0),
            decreases rows - row,
        {
            let sprite_byte = self.memory[start + row];
            let mut col: usize = 0;
            while col < 8
                invariant
                    col <= 8,
                    row < rows < 16,
                    x_coord < 256,
                    y_coord < 256,
                    vx == x_coord,
                    vy == y_coord,
                    sprite.len() == rows,
                    sprite_byte == sprite[row as int],
                    is_grid(before),
                    drawn_up_to(before, display@, sprite, vx, vy, row as int, col as int),
                    flipped == collides_up_to(before, sprite, vx, vy, row as int, col as int),
                decreases 8 - col,
            {
                let mask: u8 = 0x80u8 >> col;
                proof {
                    let c = col as u8;
                    assert(c < 8 ==> ((sprite_byte & (0x80u8 >> c)) != 0) == ((sprite_byte >> ((7 - c) as u8)) & 1
                        == 1)) by (bit_vector);
                    lemma_draw_position(before, display@, sprite, vx, vy, row as int, col as int);
                }
                if (sprite_byte & mask) != 0 {
                    if display.set_pixel(x_coord + col, y_coord + row, true) {
                        flipped = true;
                    }
                }
                col += 1;
            }
            proof {
                lemma_draw_next_row(before, display@, sprite, vx, vy, row as int);
            }
            row += 1;
        }
        self.registers[0xF] = if flipped {
            1
        } else {
            0
        };
        proof {
            lemma_draw_end(before, display@, sprite, vx, vy);
        }
        Ok(())
    }

    /// `Ex9E`, `ExA1`: skips the next instruction if the key named by
    /// register `x` is, or is not, held down. A value above 15 names no key,
    /// and no key is never held down.
    fn keyboard_operations(&mut self, opcode: u16, x: usize, nn: u8, keyboard: &Keyboard)
        requires
            x == op_x(opcode),
            nn == op_nn(opcode),
            old(self)@.pc + 2 <= usize::MAX,
        ensures
            final(self)@ == keyboard_skip(old(self)@, keyboard@, opcode),
    {
        proof {
            keyboard.lemma_key_count();
        }
        let key = self.registers[x] as usize;
        match nn {
            0x9E => {
                if key < 16 && keyboard.is_key_pressed(key) {
                    self.skip();
                }
            },
            0xA1 => {
                if !(key < 16 && keyboard.is_key_pressed(key)) {
                    self.skip();
                }
            },
            _ => {
                self.report_unknown(opcode);
            },
        }
    }

    /// `Fxnn`: timer, index and memory instructions. A store or load that
    /// would reach past the end of memory changes nothing.
    fn misc_operations(&mut self, opcode: u16, x: usize, nn: u8) -> (result: Result<(), EngineError>)
        requires
            op_class(opcode) == 0xF,
            x == op_x(opcode),
            nn == op_nn(opcode),
            old(self)@.run_state is Running,
        ensures
            result == execute_result(old(self)@, opcode),
            result is Ok ==> final(self)@ == misc(old(self)@, opcode),
            result is Err ==> final(self)@ == old(self)@,
    {
        let vx = self.registers[x];
        let index = self.i as usize;
        match nn {
            0x07 => {
                self.registers[x] = self.delay_timer;
            },
            0x0A => {
                self.state = RunState::AwaitingKey(x);
            },
            0x15 => {
                self.delay_timer = vx;
            },
            0x18 => {
                self.sound_timer = vx;
            },
            0x1E => {
                self.i = self.i.wrapping_add(vx as u16);
            },
            0x29 => {
                self.i = (vx as u16) * 5;
            },
            0x33 => {
                if index + 2 >= 4096 {
                    return Err(EngineError::MemoryAccess);
                }
                self.memory[index] = vx / 100;
                self.memory[index + 1] = (vx / 10) % 10;
                self.memory[index + 2] = vx % 10;
            },
            0x55 => {
                if index + x >= 4096 {
                    return Err(EngineError::MemoryAccess);
                }
                let mut r: usize = 0;
                while r <= x
                    invariant
                        r <= x + 1,
                        x < 16,
                        index + x < 4096,
                        forall|a: int|
                            0 <= a < 4096 ==> self.memory@[a] == if index <= a < index + r {
                                self.registers@[a - index]
                            } else {
                                old(self).memory@[a]
                            },
                        self.registers == old(self).registers,
                        self.pc == old(self).pc,
                        self.i == old(self).i,
                        self.stack == old(self).stack,
                        self.delay_timer == old(self).delay_timer,
                        self.sound_timer == old(self).sound_timer,
                        self.state == old(self).state,
                        self.diagnostics == old(self).diagnostics,
                    decreases x + 1 - r,
                {
                    self.memory[index + r] = self.registers[r];
                    r += 1;
                }
            },
            0x65 => {
                if index + x >= 4096 {
                    return Err(EngineError::MemoryAccess);
                }
                let mut r: usize = 0;
                while r <= x
                    invariant
                        r <= x + 1,
                        x < 16,
                        index + x < 4096,
                        forall|k: int|
                            0 <= k < 16 ==> self.registers@[k] == if k < r {
                                self.memory@[index + k]
                            } else {
                                old(self).registers@[k]
                            },
                        self.memory == old(self).memory,
                        self.pc == old(self).pc,
                        self.i == old(self).i,
                        self.stack == old(self).stack,
                        self.delay_timer == old(self).delay_timer,
                        self.sound_timer == old(self).sound_timer,
                        self.state == old(self).state,
                        self.diagnostics == old(self).diagnostics,
                    decreases x + 1 - r,
                {
                    self.registers[r] = self.memory[index + r];
                    r += 1;
                }
            },
            _ => {
                self.diagnostics.push(opcode);
            },
        }
        assert(self@ =~= misc(old(self)@, opcode));
        Ok(())
    }

    /// Carries out one instruction word, with `random_byte` as the byte that
    /// `Cxnn` draws. Nothing happens while a key wait is pending. An
    /// instruction that faults is reported and changes nothing; a word that
    /// names no instruction is recorded among the diagnostics and otherwise
    /// ignored.
    ///
    /// The program counter must leave room for a skip within `usize`, as it
    /// does after every fetch.
    pub fn execute_with_random(
        &mut self,
        opcode: u16,
        display: &mut Display,
        keyboard: &mut Keyboard,
        random_byte: u8,
    ) -> (result: Result<(), EngineError>)
        requires
            old(self)@.well_formed(),
            old(self)@.pc + 2 <= usize::MAX,
        ensures
            result == execute_result(old(self)@, opcode),
            final(self)@ == execute_cpu(old(self)@, old(display)@, old(keyboard)@, opcode, random_byte),
            final(display)@ == execute_display(old(self)@, old(display)@, opcode),
            final(keyboard)@ == old(keyboard)@,
            final(self)@.well_formed(),
    {
        match self.state {
            RunState::AwaitingKey(_) => {
                return Ok(());
            },
            RunState::Running => {},
        }
        let fields = decode(opcode);
        let x = fields.x;
        let y = fields.y;
        let n = fields.n;
        let nn = fields.nn;
        let nnn = fields.nnn;
        match fields.class {
            0x0 => {
                if opcode == 0x00E0 {
                    display.clear();
                    Ok(())
                } else if opcode == 0x00EE {
                    self.return_from_subroutine()
                } else {
                    self.report_unknown(opcode);
                    Ok(())
                }
            },
            0x1 => {
                self.jump(nnn);
                Ok(())
            },
            0x2 => {
                self.call_subroutine(nnn);
                Ok(())
            },
            0x3 => {
                self.skip_if_equal(x, nn);
                Ok(())
            },
            0x4 => {
                self.skip_if_not_equal(x, nn);
                Ok(())
            },
            0x5 => {
                self.skip_if_registers_equal(x, y);
                Ok(())
            },
            0x6 => {
                self.set_register(x, nn);
                Ok(())
            },
            0x7 => {
                self.add_to_register(x, nn);
                Ok(())
            },
            0x8 => {
                self.arithmetic_operations(opcode, x, y, n);
                Ok(())
            },
            0x9 => {
                self.skip_if_registers_not_equal(x, y);
                Ok(())
            },
            0xA => {
                self.set_index(nnn);
                Ok(())
            },
            0xB => {
                self.jump_with_offset(nnn);
                Ok(())
            },
            0xC => {
                self.random(x, nn, random_byte);
                Ok(())
            },
            0xD => self.draw(opcode, x, y, n, display),
            0xE => {
                self.keyboard_operations(opcode, x, nn, keyboard);
                Ok(())
            },
            _ => self.misc_operations(opcode, x, nn),
        }
    }

    /// Carries out one instruction word as `execute_with_random` does, with
    /// a byte from the random number generator for `Cxnn`.
    pub fn execute(&mut self, opcode: u16, display: &mut Display, keyboard: &mut Keyboard) -> (result: Result<
        (),
        EngineError,
    >)
        requires
            old(self)@.well_formed(),
            old(self)@.pc + 2 <= usize::MAX,
        ensures
            result == execute_result(old(self)@, opcode),
            exists|random: u8|
                final(self)@ == #[trigger] execute_cpu(old(self)@, old(display)@, old(keyboard)@, opcode, random),
            forall|random: u8|
                op_class(opcode) != 0xC ==> final(self)@ == #[trigger] execute_cpu(
                    old(self)@,
                    old(display)@,
                    old(keyboard)@,
                    opcode,
                    random,
                ),
            final(display)@ == execute_display(old(self)@, old(display)@, opcode),
            final(keyboard)@ == old(keyboard)@,
            final(self)@.well_formed(),
    {
        let random = if opcode >> 12 == 0xC {
            random_byte()
        } else {
            0
        };
        assert((opcode >> 12 == 0xC) == (opcode / 0x1000 == 0xC)) by (bit_vector);
        self.execute_with_random(opcode, display, keyboard, random)
    }

    /// Resolves a pending key wait from the latch.
    fn deliver_key(&mut self, register: usize, keyboard: &Keyboard)
        requires
            register < 16,
        ensures
            final(self)@ == crate::machine::deliver_key(old(self)@, register as int, keyboard@),
    {
        match keyboard.wait_for_key_press() {
            Some(key) => {
                self.registers[register] = key as u8;
                self.state = RunState::Running;
            },
            None => {},
        }
    }

    /// One engine cycle, with `random_byte` as the byte that `Cxnn` draws.
    ///
    /// While a key wait is pending the latch is polled: with no key pressed
    /// nothing changes, otherwise the lowest pressed key goes to the waiting
    /// register and the engine runs again from the next step on. The latch is
    /// only read, so a key that stays pressed is seen again by a later wait.
    /// Otherwise one instruction is fetched and executed.
    pub fn step_with_random(&mut self, display: &mut Display, keyboard: &mut Keyboard, random_byte: u8) -> (result:
        Result<(), EngineError>)
        requires
            old(self)@.well_formed(),
        ensures
            result == step_result(old(self)@),
            final(self)@ == step_cpu(old(self)@, old(display)@, old(keyboard)@, random_byte),
            final(display)@ == step_display(old(self)@, old(display)@),
            final(keyboard)@ == old(keyboard)@,
            final(self)@.well_formed(),
    {
        match self.state {
            RunState::AwaitingKey(register) => {
                self.deliver_key(register, keyboard);
                Ok(())
            },
            RunState::Running => {
                match self.fetch() {
                    Ok(opcode) => self.execute_with_random(opcode, display, keyboard, random_byte),
                    Err(error) => Err(error),
                }
            },
        }
    }

    /// One engine cycle as `step_with_random` performs it, with a byte from
    /// the random number generator for `Cxnn`.
    pub fn step(&mut self, display: &mut Display, keyboard: &mut Keyboard) -> (result: Result<(), EngineError>)
        requires
            old(self)@.well_formed(),
        ensures
            result == step_result(old(self)@),
            exists|random: u8|
                final(self)@ == #[trigger] step_cpu(old(self)@, old(display)@, old(keyboard)@, random),
            final(display)@ == step_display(old(self)@, old(display)@),
            final(keyboard)@ == old(keyboard)@,
            final(self)@.well_formed(),
    {
        match self.state {
            RunState::AwaitingKey(register) => {
                self.deliver_key(register, keyboard);
                assert(self@ == step_cpu(old(self)@, old(display)@, old(keyboard)@, 0u8));
                Ok(())
            },
            RunState::Running => {
                match self.fetch() {
                    Ok(opcode) => {
                        let ghost after_fetch = self@;
                        let result = self.execute(opcode, display, keyboard);
                        proof {
                            let random = choose|random: u8|
                                self@ == #[trigger] execute_cpu(
                                    after_fetch,
                                    old(display)@,
                                    old(keyboard)@,
                                    opcode,
                                    random,
                                );
                            assert(self@ == step_cpu(old(self)@, old(display)@, old(keyboard)@, random));
                        }
                        result
                    },
                    Err(error) => {
                        assert(self@ == step_cpu(old(self)@, old(display)@, old(keyboard)@, 0u8));
                        Err(error)
                    },
                }
            },
        }
    }

    /// Address of the next instruction.
    pub fn pc(&self) -> (pc: usize)
        ensures
            pc == self@.pc,
    {
        self.pc
    }

    /// The index register `I`.
    pub fn index(&self) -> (index: u16)
        ensures
            index == self@.index,
    {
        self.i
    }

    /// The value of register `x`.
    pub fn register(&self, x: usize) -> (value: u8)
        requires
            x < 16,
        ensures
            self@.registers.len() == 16,
            value == self@.registers[x as int],
    {
        self.registers[x]
    }

    /// The byte at `address`, or a memory access error for an address past
    /// the end of memory.
    pub fn memory_at(&self, address: usize) -> (result: Result<u8, EngineError>)
        ensures
            self@.memory.len() == MEMORY_SIZE,
            address < MEMORY_SIZE ==> result == Ok::<u8, EngineError>(self@.memory[address as int]),
            address >= MEMORY_SIZE ==> result == Err::<u8, EngineError>(EngineError::MemoryAccess),
    {
        if address < 4096 {
            Ok(self.memory[address])
        } else {
            Err(EngineError::MemoryAccess)
        }
    }

    /// How many return addresses are on the call stack.
    pub fn stack_depth(&self) -> (depth: usize)
        ensures
            depth == self@.stack.len(),
    {
        self.stack.len()
    }

    /// Whether the engine runs or waits for a key.
    pub fn run_state(&self) -> (state: RunState)
        ensures
            state == self@.run_state,
    {
        self.state
    }

    /// The delay timer, for the driver that counts it down.
    pub fn delay_timer(&self) -> (value: u8)
        ensures
            value == self@.delay_timer,
    {
        self.delay_timer
    }

    /// The sound timer, for the driver that counts it down and sounds the tone.
    pub fn sound_timer(&self) -> (value: u8)
        ensures
            value == self@.sound_timer,
    {
        self.sound_timer
    }

    /// Sets the delay timer; everything else stays as it is.
    pub fn set_delay_timer(&mut self, value: u8)
        ensures
            final(self)@ == (CpuState { delay_timer: value, ..old(self)@ }),
    {
        self.delay_timer = value;
    }

    /// Sets the sound timer; everything else stays as it is.
    pub fn set_sound_timer(&mut self, value: u8)
        ensures
            final(self)@ == (CpuState { sound_timer: value, ..old(self)@ }),
    {
        self.sound_timer = value;
    }

    /// Hands out the instruction words that were skipped as unknown since
    /// the last call, oldest first, and empties the record.
    pub fn take_diagnostics(&mut self) -> (words: Vec<u16>)
        ensures
            words@ == old(self)@.diagnostics,
            final(self)@ == (CpuState { diagnostics: Seq::empty(), ..old(self)@ }),
    {
        let mut words: Vec<u16> = Vec::new();
        std::mem::swap(&mut words, &mut self.diagnostics);
        words
    }
}

/// One byte from the thread-local generator of the `rand` crate, by
/// `rand::random::<u8>()`. Nothing is claimed of the byte: any value may come
/// back, and two calls need not agree.
#[verifier::external_body]
fn random_byte() -> (byte: u8) {
    rand::random::<u8>()
}

} // verus!
