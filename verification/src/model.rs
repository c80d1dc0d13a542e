//! The machine as a mathematical object: its state and the effect of every
//! operation on it, independent of how the interpreter stores anything.

use vstd::prelude::*;
use crate::consts::{DISPLAY_SIZE, FLAG, FONTSET, FONTSET_SIZE, NUM_KEYS, NUM_REGS, RAM_SIZE, START_ADDR, STACK_SIZE};
use crate::error::Chip8Error;
use crate::opcode::{decode_spec, Instruction};
use crate::sprite::Sprite;

verus! {

/// The complete architectural state of a machine.
pub struct MachineState {
    /// Address of the next instruction word.
    pub pc: u16,
    /// The memory, one entry per byte.
    pub memory: Seq<u8>,
    /// The index register, a pointer into memory.
    pub index: u16,
    /// The general purpose registers.
    pub registers: Seq<u8>,
    /// The pending return addresses, oldest first.
    pub stack: Seq<u16>,
    /// The pixels, row by row, `true` for a lit pixel.
    pub display: Seq<bool>,
    /// The keys that are held down.
    pub keys: Seq<bool>,
    /// The delay timer.
    pub delay_timer: u8,
    /// The sound timer; a tone sounds while it is not zero.
    pub sound_timer: u8,
}

/// The result of an operation that either yields a new state or is refused.
pub type Step = Result<MachineState, Chip8Error>;

/// The state a machine is in after an operation with outcome `step` was
/// attempted on `before`: a refused operation changes nothing.
pub open spec fn state_after(before: MachineState, step: Step) -> MachineState {
    match step {
        Ok(after) => after,
        Err(_) => before,
    }
}

/// What the caller of an operation with outcome `step` is told.
pub open spec fn status(step: Step) -> Result<(), Chip8Error> {
    match step {
        Ok(_) => Ok(()),
        Err(e) => Err(e),
    }
}

/// An operation with outcome `step`, attempted on `before`, told its caller
/// `done` and left the machine in `after`.
pub open spec fn follows(
    before: MachineState,
    step: Step,
    done: Result<(), Chip8Error>,
    after: MachineState,
) -> bool {
    done == status(step) && after == state_after(before, step)
}

/// The sixteen-bit word made of two bytes, most significant first.
pub open spec fn word(high: u8, low: u8) -> u16 {
    (high * 256 + low) as u16
}

impl MachineState {
    /// Every component has the size the machine gives it.
    pub open spec fn wf(self) -> bool {
        &&& self.memory.len() == RAM_SIZE
        &&& self.index < RAM_SIZE
        &&& self.registers.len() == NUM_REGS
        &&& self.stack.len() <= STACK_SIZE
        &&& self.display.len() == DISPLAY_SIZE
        &&& self.keys.len() == NUM_KEYS
    }

    /// The machine with everything zero and the program counter at the
    /// start address.
    pub open spec fn blank() -> MachineState {
        MachineState {
            pc: START_ADDR,
            memory: Seq::new(RAM_SIZE as nat, |i: int| 0u8),
            index: 0,
            registers: Seq::new(NUM_REGS as nat, |i: int| 0u8),
            stack: Seq::empty(),
            display: Seq::new(DISPLAY_SIZE as nat, |i: int| false),
            keys: Seq::new(NUM_KEYS as nat, |i: int| false),
            delay_timer: 0,
            sound_timer: 0,
        }
    }

    /// The machine as it is switched on: blank, with the font at the bottom
    /// of memory.
    pub open spec fn power_on() -> MachineState {
        MachineState {
            memory: Seq::new(
                RAM_SIZE as nat,
                |i: int| if i < FONTSET_SIZE { FONTSET@[i] } else { 0u8 },
            ),
            ..Self::blank()
        }
    }

    /// Copies a program to the start address. A program that does not fit
    /// is refused as a whole.
    pub open spec fn load(self, program: Seq<u8>) -> Step {
        if program.len() <= RAM_SIZE - START_ADDR {
            Ok(
                MachineState {
                    memory: Seq::new(
                        self.memory.len(),
                        |i: int|
                            if START_ADDR <= i < START_ADDR + program.len() {
                                program[i - START_ADDR]
                            } else {
                                self.memory[i]
                            },
                    ),
                    ..self
                },
            )
        } else {
            Err(Chip8Error::ProgramTooLarge { len: program.len() as usize })
        }
    }

    /// Whether an instruction word can be read at the program counter: both
    /// of its bytes lie inside the memory.
    pub open spec fn can_fetch(self) -> bool {
        self.pc + 1 < RAM_SIZE
    }

    /// The instruction word at the program counter.
    pub open spec fn current_word(self) -> u16 {
        word(self.memory[self.pc as int], self.memory[self.pc + 1])
    }

    /// Moves the program counter past the instruction word it points at.
    pub open spec fn fetch(self) -> Step {
        if self.can_fetch() {
            Ok(MachineState { pc: (self.pc + 2) as u16, ..self })
        } else {
            Err(Chip8Error::MemoryOutOfBounds { address: self.pc })
        }
    }

    /// What a fetch hands back: the word at the program counter, or the
    /// refusal.
    pub open spec fn fetched_word(self) -> Result<u16, Chip8Error> {
        match self.fetch() {
            Ok(_) => Ok(self.current_word()),
            Err(e) => Err(e),
        }
    }

    /// The value of register `x`.
    pub open spec fn reg(self, x: u8) -> u8 {
        self.registers[x as int]
    }

    /// Sets register `x` to `value`.
    pub open spec fn with_register(self, x: u8, value: u8) -> MachineState {
        MachineState { registers: self.registers.update(x as int, value), ..self }
    }

    /// Sets register `x` to `value` and then the flag register to `flag`.
    pub open spec fn with_result(self, x: u8, value: u8, flag: u8) -> MachineState {
        MachineState {
            registers: self.registers.update(x as int, value).update(FLAG as int, flag),
            ..self
        }
    }

    /// Sets the program counter to `target`.
    pub open spec fn jump(self, target: u16) -> MachineState {
        MachineState { pc: target, ..self }
    }

    /// Moves the program counter past one more instruction word if `taken`
    /// holds. A skip that would carry the program counter past the largest
    /// address it can hold is refused.
    pub open spec fn skip_if(self, taken: bool) -> Step {
        if !taken {
            Ok(self)
        } else if self.pc + 2 <= u16::MAX {
            Ok(self.jump((self.pc + 2) as u16))
        } else {
            Err(Chip8Error::MemoryOutOfBounds { address: self.pc })
        }
    }

    /// Turns every pixel off.
    pub open spec fn clear_screen(self) -> MachineState {
        MachineState { display: Seq::new(DISPLAY_SIZE as nat, |i: int| false), ..self }
    }

    /// Puts `addr` on top of the call stack.
    pub open spec fn push(self, addr: u16) -> Step {
        if self.stack.len() < STACK_SIZE {
            Ok(MachineState { stack: self.stack.push(addr), ..self })
        } else {
            Err(Chip8Error::StackOverflow)
        }
    }

    /// Takes the newest return address off the call stack.
    pub open spec fn pop(self) -> Step {
        if self.stack.len() > 0 {
            Ok(MachineState { stack: self.stack.drop_last(), ..self })
        } else {
            Err(Chip8Error::StackUnderflow)
        }
    }

    /// What a pop hands back: the newest return address, or the refusal.
    pub open spec fn popped_address(self) -> Result<u16, Chip8Error> {
        match self.pop() {
            Ok(_) => Ok(self.stack.last()),
            Err(e) => Err(e),
        }
    }

    /// Calls the subroutine at `addr`: the program counter goes on the call
    /// stack and execution continues at `addr`.
    pub open spec fn call(self, addr: u16) -> Step {
        match self.push(self.pc) {
            Ok(pushed) => Ok(pushed.jump(addr)),
            Err(e) => Err(e),
        }
    }

    /// Returns from a subroutine: execution continues at the newest return
    /// address, which leaves the call stack.
    pub open spec fn ret(self) -> Step {
        match self.pop() {
            Ok(popped) => Ok(popped.jump(self.stack.last())),
            Err(e) => Err(e),
        }
    }

    /// The sprite of `height` rows that lies at the index register, placed
    /// at the position held by registers `x` and `y`.
    pub open spec fn sprite(self, x: u8, y: u8, height: u8) -> Sprite {
        Sprite {
            rows: self.memory.subrange(self.index as int, self.index + height),
            left: self.reg(x),
            top: self.reg(y),
        }
    }

    /// Draws the sprite of `height` rows at the index register at the
    /// position held by registers `x` and `y`, and reports in the flag
    /// register whether a lit pixel was turned off. A sprite that reaches
    /// past the end of memory is refused.
    pub open spec fn draw(self, x: u8, y: u8, height: u8) -> Step {
        if self.index + height <= RAM_SIZE {
            let sprite = self.sprite(x, y, height);
            Ok(
                MachineState {
                    display: sprite.drawn_on(self.display),
                    registers: self.registers.update(
                        FLAG as int,
                        if sprite.collides(self.display) {
                            1u8
                        } else {
                            0u8
                        },
                    ),
                    ..self
                },
            )
        } else {
            Err(Chip8Error::MemoryOutOfBounds { address: self.index })
        }
    }

    /// The effect of a decoded instruction. `random` is the byte that an
    /// instruction asking for randomness receives.
    pub open spec fn perform(self, instruction: Instruction, random: u8) -> Step {
        match instruction {
            Instruction::Nop => Ok(self),
            Instruction::ClearScreen => Ok(self.clear_screen()),
            Instruction::Return => self.ret(),
            Instruction::Jump { addr } => Ok(self.jump(addr)),
            Instruction::Call { addr } => self.call(addr),
            Instruction::SkipEqImm { x, nn } => self.skip_if(self.reg(x) == nn),
            Instruction::SkipNeImm { x, nn } => self.skip_if(self.reg(x) != nn),
            Instruction::SkipEqReg { x, y } => self.skip_if(self.reg(x) == self.reg(y)),
            Instruction::LoadImm { x, nn } => Ok(self.with_register(x, nn)),
            Instruction::AddImm { x, nn } => Ok(
                self.with_register(x, ((self.reg(x) + nn) % 256) as u8),
            ),
            Instruction::Move { x, y } => Ok(self.with_register(x, self.reg(y))),
            Instruction::Or { x, y } => Ok(self.with_register(x, self.reg(x) | self.reg(y))),
            Instruction::And { x, y } => Ok(self.with_register(x, self.reg(x) & self.reg(y))),
            Instruction::Xor { x, y } => Ok(self.with_register(x, self.reg(x) ^ self.reg(y))),
            Instruction::AddReg { x, y } => Ok(
                self.with_result(
                    x,
                    ((self.reg(x) + self.reg(y)) % 256) as u8,
                    if self.reg(x) + self.reg(y) > 255 {
                        1
                    } else {
                        0
                    },
                ),
            ),
            Instruction::SubReg { x, y } => Ok(
                self.with_result(
                    x,
                    ((self.reg(x) - self.reg(y)) % 256) as u8,
                    if self.reg(x) < self.reg(y) {
                        0
                    } else {
                        1
                    },
                ),
            ),
            Instruction::ShiftRight { x } => Ok(
                self.with_result(x, self.reg(x) / 2, self.reg(x) % 2),
            ),
            Instruction::SubFrom { x, y } => Ok(
                self.with_result(
                    x,
                    ((self.reg(y) - self.reg(x)) % 256) as u8,
                    if self.reg(y) < self.reg(x) {
                        0
                    } else {
                        1
                    },
                ),
            ),
            Instruction::ShiftLeft { x } => Ok(
                self.with_result(x, ((self.reg(x) * 2) % 256) as u8, self.reg(x) / 128),
            ),
            Instruction::SkipNeReg { x, y } => self.skip_if(self.reg(x) != self.reg(y)),
            Instruction::LoadIndex { addr } => Ok(MachineState { index: addr, ..self }),
            Instruction::JumpOffset { addr } => Ok(self.jump((self.reg(0) + addr) as u16)),
            Instruction::Random { x, nn } => Ok(self.with_register(x, random & nn)),
            Instruction::Draw { x, y, n } => self.draw(x, y, n),
        }
    }

    /// The effect of the instruction word `opcode`. A word outside the
    /// implemented instruction set is refused; the refusal names `origin`
    /// as the address of the word.
    pub open spec fn execute_from(self, opcode: u16, random: u8, origin: u16) -> Step {
        match decode_spec(opcode) {
            Some(instruction) => self.perform(instruction, random),
            None => Err(Chip8Error::UnsupportedInstruction { opcode, address: origin }),
        }
    }

    /// The effect of the instruction word `opcode` on a machine whose
    /// program counter already points past it.
    pub open spec fn execute(self, opcode: u16, random: u8) -> Step {
        self.execute_from(opcode, random, self.pc)
    }

    /// One full cycle: the word at the program counter is fetched and
    /// executed.
    pub open spec fn tick(self, random: u8) -> Step {
        match self.fetch() {
            Ok(fetched) => fetched.execute_from(self.current_word(), random, self.pc),
            Err(e) => Err(e),
        }
    }

    /// Records that key `key` is held down or was released. A key that the
    /// keypad does not have is ignored.
    pub open spec fn with_key(self, key: int, pressed: bool) -> MachineState {
        if 0 <= key < NUM_KEYS {
            MachineState { keys: self.keys.update(key, pressed), ..self }
        } else {
            self
        }
    }

    /// Whether the pixel in column `px` of row `py` is lit, or `None` for a
    /// position outside the display.
    pub open spec fn pixel(self, px: int, py: int) -> Option<bool> {
        if 0 <= px < 64 && 0 <= py < 32 {
            Some(self.display[px + 64 * py])
        } else {
            None
        }
    }

    /// Whether the next timer tick ends the tone: the sound timer is about
    /// to go from one to zero.
    pub open spec fn sound_ends(self) -> bool {
        self.sound_timer == 1
    }

    /// One tick of the timers: each timer that is not zero goes down by one.
    pub open spec fn tick_timers(self) -> MachineState {
        MachineState {
            delay_timer: if self.delay_timer > 0 {
                (self.delay_timer - 1) as u8
            } else {
                0
            },
            sound_timer: if self.sound_timer > 0 {
                (self.sound_timer - 1) as u8
            } else {
                0
            },
            ..self
        }
    }
}

} // verus!
