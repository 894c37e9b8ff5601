//! The abstract machine: what the processor holds and what each instruction
//! does to it, stated over sequences and integers.
//!
//! The executable processor in [`crate::cpu`] is proved to follow these
//! definitions.

use vstd::prelude::*;
use crate::display::{blank_grid, is_grid, Grid};
use crate::instruction::{op_class, op_n, op_nn, op_nnn, op_x, op_y, word_of};
use crate::keyboard::lowest_pressed;
use crate::sprite::{
    draw_sprite, lemma_draw_twice_restores, lemma_second_draw_collides, lights_at, sprite_collides,
};

verus! {

/// Bytes in the address space.
pub const MEMORY_SIZE: usize = 4096;

/// Address at which a program is loaded and at which execution starts.
pub const PROGRAM_START: usize = 0x200;

/// Largest program that fits between `PROGRAM_START` and the end of memory.
pub const MAX_PROGRAM_SIZE: usize = 3584;

/// Number of general-purpose registers.
pub const REGISTER_COUNT: usize = 16;

/// Index of the register that receives carry, borrow, shift and collision flags.
pub const FLAG_REGISTER: usize = 0xF;

/// Whether the engine executes instructions or waits for a key.
#[derive(Clone, Copy, Debug, PartialEq, Eq, Structural)]
pub enum RunState {
    /// Instructions are fetched and executed.
    Running,
    /// A wait-for-key instruction is pending; the key goes to this register.
    AwaitingKey(usize),
}

/// Why an instruction could not be carried out.
#[derive(Clone, Copy, Debug, PartialEq, Eq, Structural)]
pub enum EngineError {
    /// A return was executed while the call stack was empty.
    StackUnderflow,
    /// An instruction fetch or a memory operand reached past the end of memory.
    MemoryAccess,
}

/// A program was too large to fit into memory above `PROGRAM_START`.
#[derive(Clone, Copy, Debug, PartialEq, Eq, Structural)]
pub struct LoadError {
    /// Length in bytes of the rejected program.
    pub length: usize,
}

/// Everything the processor holds.
#[verifier::ext_equal]
pub struct CpuState {
    /// The general-purpose registers `V0..=VF`.
    pub registers: Seq<u8>,
    /// The address space.
    pub memory: Seq<u8>,
    /// Address of the next instruction.
    pub pc: nat,
    /// The index register `I`.
    pub index: u16,
    /// Return addresses, the most recent call last.
    pub stack: Seq<nat>,
    /// The delay timer.
    pub delay_timer: u8,
    /// The sound timer.
    pub sound_timer: u8,
    /// Whether a wait-for-key instruction is pending.
    pub run_state: RunState,
    /// The instruction words that were skipped because they name no
    /// instruction, oldest first.
    pub diagnostics: Seq<u16>,
}

impl CpuState {
    /// The register file and the memory have their fixed sizes and a pending
    /// key wait names a register.
    pub open spec fn well_formed(self) -> bool {
        &&& self.registers.len() == REGISTER_COUNT
        &&& self.memory.len() == MEMORY_SIZE
        &&& (self.run_state matches RunState::AwaitingKey(x) ==> x < REGISTER_COUNT)
    }

    /// The state of a processor before anything was loaded or executed.
    pub open spec fn initial() -> CpuState {
        CpuState {
            registers: Seq::new(REGISTER_COUNT as nat, |r: int| 0u8),
            memory: Seq::new(MEMORY_SIZE as nat, |a: int| 0u8),
            pc: PROGRAM_START as nat,
            index: 0,
            stack: Seq::empty(),
            delay_timer: 0,
            sound_timer: 0,
            run_state: RunState::Running,
            diagnostics: Seq::empty(),
        }
    }

    /// The value of register `x`.
    pub open spec fn v(self, x: int) -> int {
        self.registers[x] as int
    }

    /// This state with `value` in register `x`.
    pub open spec fn set_register(self, x: int, value: int) -> CpuState {
        CpuState { registers: self.registers.update(x, value as u8), ..self }
    }

    /// This state with 1 or 0 in the flag register.
    pub open spec fn set_flag(self, flag: bool) -> CpuState {
        self.set_register(FLAG_REGISTER as int, if flag { 1 } else { 0 })
    }

    /// This state with the program counter at `pc`.
    pub open spec fn jump(self, pc: int) -> CpuState {
        CpuState { pc: pc as nat, ..self }
    }

    /// This state with the next instruction skipped if `condition` holds.
    pub open spec fn skip_if(self, condition: bool) -> CpuState {
        if condition {
            self.jump(self.pc as int + 2)
        } else {
            self
        }
    }

    /// This state with the index register at `index`.
    pub open spec fn set_index(self, index: int) -> CpuState {
        CpuState { index: index as u16, ..self }
    }

    /// This state with `opcode` recorded as a word that names no instruction.
    pub open spec fn report_unknown(self, opcode: u16) -> CpuState {
        CpuState { diagnostics: self.diagnostics.push(opcode), ..self }
    }

    /// This state with the program `rom` copied to `PROGRAM_START`.
    pub open spec fn load(self, rom: Seq<u8>) -> CpuState {
        CpuState {
            memory: Seq::new(
                MEMORY_SIZE as nat,
                |a: int|
                    if PROGRAM_START <= a < PROGRAM_START + rom.len() {
                        rom[a - PROGRAM_START]
                    } else {
                        self.memory[a]
                    },
            ),
            ..self
        }
    }
}

/// Whether key number `key` exists and is held down.
pub open spec fn key_down(keys: Seq<bool>, key: int) -> bool {
    0 <= key < keys.len() && keys[key]
}

/// `2nnn`: the state after a call to `target`.
pub open spec fn call(s: CpuState, target: int) -> CpuState {
    CpuState { stack: s.stack.push(s.pc), pc: target as nat, ..s }
}

/// `00EE`: the state after a return, for a stack that is not empty.
pub open spec fn ret(s: CpuState) -> CpuState {
    CpuState { pc: s.stack.last(), stack: s.stack.drop_last(), ..s }
}

/// `8xyn`: the state after the register-to-register operation `n`.
///
/// Where an operation defines the flag, the two register writes happen in
/// the order given here, which decides the outcome when `x` is the flag
/// register itself.
pub open spec fn arithmetic(s: CpuState, opcode: u16) -> CpuState {
    let x = op_x(opcode);
    let y = op_y(opcode);
    let n = op_n(opcode);
    let vx = s.v(x);
    let vy = s.v(y);
    if n == 0x0 {
        s.set_register(x, vy)
    } else if n == 0x1 {
        s.set_register(x, (s.registers[x] | s.registers[y]) as int)
    } else if n == 0x2 {
        s.set_register(x, (s.registers[x] & s.registers[y]) as int)
    } else if n == 0x3 {
        s.set_register(x, (s.registers[x] ^ s.registers[y]) as int)
    } else if n == 0x4 {
        s.set_register(x, (vx + vy) % 256).set_flag(vx + vy > 255)
    } else if n == 0x5 {
        s.set_register(x, (vx - vy) % 256).set_flag(vx >= vy)
    } else if n == 0x6 {
        let flagged = s.set_flag(vx % 2 == 1);
        flagged.set_register(x, flagged.v(x) / 2)
    } else if n == 0x7 {
        s.set_register(x, (vy - vx) % 256).set_flag(vy >= vx)
    } else if n == 0xE {
        let flagged = s.set_flag(vx >= 128);
        flagged.set_register(x, (flagged.v(x) * 2) % 256)
    } else {
        s.report_unknown(opcode)
    }
}

/// `Ex9E`, `ExA1`: the state after a skip that depends on a key.
pub open spec fn keyboard_skip(s: CpuState, keys: Seq<bool>, opcode: u16) -> CpuState {
    let key = s.v(op_x(opcode));
    let nn = op_nn(opcode);
    if nn == 0x9E {
        s.skip_if(key_down(keys, key))
    } else if nn == 0xA1 {
        s.skip_if(!key_down(keys, key))
    } else {
        s.report_unknown(opcode)
    }
}

/// `Fx33`: memory with the hundreds, tens and ones of `value` at `index`,
/// `index + 1` and `index + 2`.
pub open spec fn store_decimal(memory: Seq<u8>, index: int, value: int) -> Seq<u8> {
    memory.update(index, (value / 100) as u8).update(index + 1, ((value / 10) % 10) as u8).update(
        index + 2,
        (value % 10) as u8,
    )
}

/// `Fx55`: memory with registers `0..=last` copied to `index` onward.
pub open spec fn store_registers(memory: Seq<u8>, registers: Seq<u8>, index: int, last: int) -> Seq<u8> {
    Seq::new(
        memory.len(),
        |a: int|
            if index <= a <= index + last {
                registers[a - index]
            } else {
                memory[a]
            },
    )
}

/// `Fx65`: the registers with `0..=last` loaded from `index` onward.
pub open spec fn load_registers(registers: Seq<u8>, memory: Seq<u8>, index: int, last: int) -> Seq<u8> {
    Seq::new(
        registers.len(),
        |r: int|
            if r <= last {
                memory[index + r]
            } else {
                registers[r]
            },
    )
}

/// `Fxnn`: the state after a timer, index or memory instruction that does
/// not fault.
pub open spec fn misc(s: CpuState, opcode: u16) -> CpuState {
    let x = op_x(opcode);
    let nn = op_nn(opcode);
    let vx = s.v(x);
    let index = s.index as int;
    if nn == 0x07 {
        s.set_register(x, s.delay_timer as int)
    } else if nn == 0x0A {
        CpuState { run_state: RunState::AwaitingKey(x as usize), ..s }
    } else if nn == 0x15 {
        CpuState { delay_timer: vx as u8, ..s }
    } else if nn == 0x18 {
        CpuState { sound_timer: vx as u8, ..s }
    } else if nn == 0x1E {
        s.set_index((index + vx) % 0x10000)
    } else if nn == 0x29 {
        s.set_index(vx * 5)
    } else if nn == 0x33 {
        CpuState { memory: store_decimal(s.memory, index, vx), ..s }
    } else if nn == 0x55 {
        CpuState { memory: store_registers(s.memory, s.registers, index, x), ..s }
    } else if nn == 0x65 {
        CpuState { registers: load_registers(s.registers, s.memory, index, x), ..s }
    } else {
        s.report_unknown(opcode)
    }
}

/// The rows of the sprite that `Dxyn` draws: `n` bytes of memory from the
/// index register onward.
pub open spec fn sprite_of(s: CpuState, opcode: u16) -> Seq<u8> {
    Seq::new(op_n(opcode) as nat, |row: int| s.memory[s.index as int + row])
}

/// Whether `opcode` is the instruction that clears the display.
pub open spec fn is_clear(opcode: u16) -> bool {
    opcode == 0x00E0
}

/// Whether `opcode` is the return instruction.
pub open spec fn is_return(opcode: u16) -> bool {
    opcode == 0x00EE
}

/// The error that executing `opcode` in state `s` runs into, if any.
///
/// A return faults on an empty stack. A draw, a decimal store and a register
/// block transfer fault when an operand address lies past the end of memory.
/// Nothing faults while a key wait is pending.
pub open spec fn execute_fault(s: CpuState, opcode: u16) -> Option<EngineError> {
    let class = op_class(opcode);
    let nn = op_nn(opcode);
    let index = s.index as int;
    if s.run_state is AwaitingKey {
        None
    } else if is_return(opcode) && s.stack.len() == 0 {
        Some(EngineError::StackUnderflow)
    } else if class == 0xD && op_n(opcode) > 0 && index + op_n(opcode) > MEMORY_SIZE {
        Some(EngineError::MemoryAccess)
    } else if class == 0xF && nn == 0x33 && index + 2 >= MEMORY_SIZE {
        Some(EngineError::MemoryAccess)
    } else if class == 0xF && (nn == 0x55 || nn == 0x65) && index + op_x(opcode) >= MEMORY_SIZE {
        Some(EngineError::MemoryAccess)
    } else {
        None
    }
}

/// What executing `opcode` reports.
pub open spec fn execute_result(s: CpuState, opcode: u16) -> Result<(), EngineError> {
    match execute_fault(s, opcode) {
        Some(error) => Err(error),
        None => Ok(()),
    }
}

/// The state after `opcode` was carried out in the running state `s`, for an
/// instruction that does not fault. `random` is the byte that `Cxnn` draws.
pub open spec fn run(s: CpuState, grid: Grid, keys: Seq<bool>, opcode: u16, random: u8) -> CpuState {
    let class = op_class(opcode);
    let x = op_x(opcode);
    let y = op_y(opcode);
    let nn = op_nn(opcode);
    let nnn = op_nnn(opcode);
    if class == 0x0 {
        if is_clear(opcode) {
            s
        } else if is_return(opcode) {
            ret(s)
        } else {
            s.report_unknown(opcode)
        }
    } else if class == 0x1 {
        s.jump(nnn)
    } else if class == 0x2 {
        call(s, nnn)
    } else if class == 0x3 {
        s.skip_if(s.v(x) == nn)
    } else if class == 0x4 {
        s.skip_if(s.v(x) != nn)
    } else if class == 0x5 {
        s.skip_if(s.v(x) == s.v(y))
    } else if class == 0x6 {
        s.set_register(x, nn)
    } else if class == 0x7 {
        s.set_register(x, (s.v(x) + nn) % 256)
    } else if class == 0x8 {
        arithmetic(s, opcode)
    } else if class == 0x9 {
        s.skip_if(s.v(x) != s.v(y))
    } else if class == 0xA {
        s.set_index(nnn)
    } else if class == 0xB {
        s.jump(nnn + s.v(0))
    } else if class == 0xC {
        s.set_register(x, (random & (nn as u8)) as int)
    } else if class == 0xD {
        s.set_flag(sprite_collides(grid, sprite_of(s, opcode), s.v(x), s.v(y)))
    } else if class == 0xE {
        keyboard_skip(s, keys, opcode)
    } else {
        misc(s, opcode)
    }
}

/// The processor state after `execute` was called with `opcode`. While a key
/// wait is pending, and when the instruction faults, the state stays as it is.
pub open spec fn execute_cpu(s: CpuState, grid: Grid, keys: Seq<bool>, opcode: u16, random: u8) -> CpuState {
    if s.run_state is AwaitingKey || execute_fault(s, opcode) is Some {
        s
    } else {
        run(s, grid, keys, opcode, random)
    }
}

/// The display after `execute` was called with `opcode`: cleared by `00E0`,
/// drawn on by `Dxyn`, and otherwise as it was.
pub open spec fn execute_display(s: CpuState, grid: Grid, opcode: u16) -> Grid {
    if s.run_state is AwaitingKey || execute_fault(s, opcode) is Some {
        grid
    } else if is_clear(opcode) {
        blank_grid()
    } else if op_class(opcode) == 0xD {
        draw_sprite(grid, sprite_of(s, opcode), s.v(op_x(opcode)), s.v(op_y(opcode)))
    } else {
        grid
    }
}

/// Whether the instruction at the program counter lies within memory.
pub open spec fn can_fetch(s: CpuState) -> bool {
    s.pc + 1 < MEMORY_SIZE
}

/// The instruction word at the program counter: two bytes, the more
/// significant one first.
pub open spec fn instruction_at(s: CpuState) -> u16 {
    word_of(s.memory[s.pc as int], s.memory[s.pc as int + 1]) as u16
}

/// The state after the instruction at the program counter was fetched.
pub open spec fn fetched(s: CpuState) -> CpuState {
    s.jump(s.pc as int + 2)
}

/// The state after a pending key wait has seen the latch `keys`: the lowest
/// pressed key goes to the waiting register and the engine runs again; with no
/// key pressed nothing changes.
pub open spec fn deliver_key(s: CpuState, register: int, keys: Seq<bool>) -> CpuState {
    match lowest_pressed(keys) {
        Some(key) => CpuState { run_state: RunState::Running, ..s.set_register(register, key) },
        None => s,
    }
}

/// What one step reports: the fault of the fetch or of the fetched
/// instruction, and success while a key wait is pending.
pub open spec fn step_result(s: CpuState) -> Result<(), EngineError> {
    if s.run_state is AwaitingKey {
        Ok(())
    } else if !can_fetch(s) {
        Err(EngineError::MemoryAccess)
    } else {
        execute_result(fetched(s), instruction_at(s))
    }
}

/// The processor state after one step.
///
/// A pending key wait is resolved from the latch and nothing is fetched. A
/// fetch that faults changes nothing. Otherwise the program counter moves past
/// the instruction, which is then executed.
pub open spec fn step_cpu(s: CpuState, grid: Grid, keys: Seq<bool>, random: u8) -> CpuState {
    match s.run_state {
        RunState::AwaitingKey(register) => deliver_key(s, register as int, keys),
        RunState::Running => if can_fetch(s) {
            execute_cpu(fetched(s), grid, keys, instruction_at(s), random)
        } else {
            s
        },
    }
}

/// The display after one step.
pub open spec fn step_display(s: CpuState, grid: Grid) -> Grid {
    if s.run_state is Running && can_fetch(s) {
        execute_display(fetched(s), grid, instruction_at(s))
    } else {
        grid
    }
}

/// Executing an instruction keeps a well-formed state well-formed.
pub proof fn lemma_execute_well_formed(s: CpuState, grid: Grid, keys: Seq<bool>, opcode: u16, random: u8)
    requires
        s.well_formed(),
    ensures
        execute_cpu(s, grid, keys, opcode, random).well_formed(),
{
}

/// A step keeps a well-formed state well-formed.
pub proof fn lemma_step_well_formed(s: CpuState, grid: Grid, keys: Seq<bool>, random: u8)
    requires
        s.well_formed(),
    ensures
        step_cpu(s, grid, keys, random).well_formed(),
{
    if s.run_state is Running && can_fetch(s) {
        lemma_execute_well_formed(fetched(s), grid, keys, instruction_at(s), random);
    }
}

/// The random byte matters to `Cxnn` alone.
pub proof fn lemma_random_only_in_class_c(
    s: CpuState,
    grid: Grid,
    keys: Seq<bool>,
    opcode: u16,
    first: u8,
    second: u8,
)
    requires
        op_class(opcode) != 0xC,
    ensures
        execute_cpu(s, grid, keys, opcode, first) == execute_cpu(s, grid, keys, opcode, second),
{
}

/// A fetch moves the program counter forward by exactly two and touches
/// nothing else.
pub proof fn lemma_fetch_advances_by_two(s: CpuState)
    ensures
        fetched(s).pc == s.pc + 2,
        fetched(s) == (CpuState { pc: s.pc + 2, ..s }),
        instruction_at(s) == s.memory[s.pc as int] * 256 + s.memory[s.pc as int + 1],
{
}

/// A call followed by a return puts the program counter back to where it
/// stood when the call was executed, that is, right behind the call
/// instruction, and leaves the stack and everything else as they were.
pub proof fn lemma_call_then_return(
    s: CpuState,
    grid: Grid,
    keys: Seq<bool>,
    call_opcode: u16,
    random: u8,
)
    requires
        s.run_state is Running,
        op_class(call_opcode) == 0x2,
    ensures
        ({
            let called = execute_cpu(s, grid, keys, call_opcode, random);
            let returned = execute_cpu(called, grid, keys, 0x00EE, random);
            &&& execute_result(s, call_opcode) is Ok
            &&& called.pc == op_nnn(call_opcode)
            &&& called.stack == s.stack.push(s.pc)
            &&& execute_result(called, 0x00EE) is Ok
            &&& returned == s
        }),
{
    let called = execute_cpu(s, grid, keys, call_opcode, random);
    assert(op_class(0x00EEu16) == 0);
    assert(called == call(s, op_nnn(call_opcode)));
    assert(called.stack.drop_last() =~= s.stack);
    let returned = execute_cpu(called, grid, keys, 0x00EE, random);
    assert(returned == ret(called));
    assert(returned =~= s);
}

/// A return on an empty stack is reported as a stack underflow and changes
/// nothing.
pub proof fn lemma_return_on_empty_stack(s: CpuState, grid: Grid, keys: Seq<bool>, random: u8)
    requires
        s.run_state is Running,
        s.stack.len() == 0,
    ensures
        execute_result(s, 0x00EE) == Err::<(), EngineError>(EngineError::StackUnderflow),
        execute_cpu(s, grid, keys, 0x00EE, random) == s,
        execute_display(s, grid, 0x00EE) == grid,
{
}

/// `Fx0A` puts the engine into the key wait for register `x` and changes
/// nothing else.
pub proof fn lemma_wait_for_key_suspends(s: CpuState, grid: Grid, keys: Seq<bool>, opcode: u16, random: u8)
    requires
        s.run_state is Running,
        op_class(opcode) == 0xF,
        op_nn(opcode) == 0x0A,
    ensures
        execute_result(s, opcode) is Ok,
        execute_cpu(s, grid, keys, opcode, random) == (CpuState {
            run_state: RunState::AwaitingKey(op_x(opcode) as usize),
            ..s
        }),
        execute_display(s, grid, opcode) == grid,
{
}

/// While a key wait is pending and no key is pressed, neither a step nor an
/// executed instruction changes anything.
pub proof fn lemma_waiting_changes_nothing(s: CpuState, grid: Grid, keys: Seq<bool>, opcode: u16, random: u8)
    requires
        s.run_state is AwaitingKey,
    ensures
        execute_result(s, opcode) is Ok,
        execute_cpu(s, grid, keys, opcode, random) == s,
        execute_display(s, grid, opcode) == grid,
        step_result(s) is Ok,
        step_display(s, grid) == grid,
        lowest_pressed(keys) is None ==> step_cpu(s, grid, keys, random) == s,
{
}

/// A step during a key wait with a key pressed stores the lowest pressed key
/// in the waiting register, returns the engine to running, and changes
/// nothing else; no instruction is fetched by that step.
pub proof fn lemma_key_press_resumes(s: CpuState, grid: Grid, keys: Seq<bool>, random: u8, register: usize, key: int)
    requires
        s.run_state == RunState::AwaitingKey(register),
        lowest_pressed(keys) == Some(key),
    ensures
        step_result(s) is Ok,
        step_cpu(s, grid, keys, random) == (CpuState {
            registers: s.registers.update(register as int, key as u8),
            run_state: RunState::Running,
            ..s
        }),
        step_display(s, grid) == grid,
{
}

/// Drawing the same sprite twice through `Dxyn` gives back the display as it
/// was, and the second draw sets the flag exactly when the first one lit a
/// pixel. This holds when neither coordinate register is the flag register,
/// which the first draw overwrites.
pub proof fn lemma_draw_twice(s: CpuState, grid: Grid, keys: Seq<bool>, opcode: u16, random: u8)
    requires
        s.well_formed(),
        is_grid(grid),
        s.run_state is Running,
        op_class(opcode) == 0xD,
        op_x(opcode) != FLAG_REGISTER,
        op_y(opcode) != FLAG_REGISTER,
        execute_fault(s, opcode) is None,
    ensures
        ({
            let once = execute_cpu(s, grid, keys, opcode, random);
            let grid_once = execute_display(s, grid, opcode);
            let twice = execute_cpu(once, grid_once, keys, opcode, random);
            let sprite = sprite_of(s, opcode);
            let vx = s.v(op_x(opcode));
            let vy = s.v(op_y(opcode));
            &&& execute_fault(once, opcode) is None
            &&& execute_display(once, grid_once, opcode) == grid
            &&& twice.v(FLAG_REGISTER as int) == 1 <==> exists|px: int, py: int|
                lights_at(grid, sprite, vx, vy, px, py)
            &&& twice.v(FLAG_REGISTER as int) == 0 || twice.v(FLAG_REGISTER as int) == 1
        }),
{
    let once = execute_cpu(s, grid, keys, opcode, random);
    let sprite = sprite_of(s, opcode);
    let vx = s.v(op_x(opcode));
    let vy = s.v(op_y(opcode));
    assert(sprite_of(once, opcode) =~= sprite);
    assert(once.v(op_x(opcode)) == vx);
    assert(once.v(op_y(opcode)) == vy);
    lemma_draw_twice_restores(grid, sprite, vx, vy);
    lemma_second_draw_collides(grid, sprite, vx, vy);
}

} // verus!
