//! The interpreter: the machine state in fixed-size buffers, and the
//! operations on it, each proved to follow the model.

use vstd::prelude::*;
use crate::alu::{add_with_carry, make_word, shift_left, shift_right, sub_with_borrow, wrapping_sum};
use crate::consts::{DISPLAY_SIZE, FLAG, FONTSET, NUM_KEYS, NUM_REGS, RAM_SIZE, SCREEN_HEIGHT, SCREEN_WIDTH, START_ADDR, STACK_SIZE};
use crate::error::Chip8Error;
use crate::model::{follows, state_after, status, MachineState};
use crate::opcode::{decode, needs_random, uses_random, Instruction};
use crate::rng::random_byte;
use crate::sprite::draw_sprite;

verus! {

/// A CHIP-8 machine.
pub struct Emulator {
    /// Address of the next instruction word.
    pc: u16,
    /// The memory: the font at the bottom, programs from the start address.
    ram: [u8; RAM_SIZE],
    /// The index register; always an address inside the memory.
    address_register: u16,
    /// The general purpose registers; the last one is the flag register.
    registers: [u8; NUM_REGS],
    /// The pixels, row by row.
    display: [bool; DISPLAY_SIZE],
    /// Number of return addresses on the call stack; never above its size.
    stack_pointer: u16,
    /// The call stack; the entries from the stack pointer on are stale.
    stack: [u16; STACK_SIZE],
    /// The keys that the host reported as held down.
    keys: [bool; NUM_KEYS],
    /// The delay timer.
    delay_timer: u8,
    /// The sound timer.
    sound_timer: u8,
}

impl View for Emulator {
    type V = MachineState;

    /// The state of the machine. Of the call stack only the entries below
    /// the stack pointer are part of it.
    closed spec fn view(&self) -> MachineState {
        MachineState {
            pc: self.pc,
            memory: self.ram@,
            index: self.address_register,
            registers: self.registers@,
            stack: self.stack@.subrange(0, self.stack_pointer as int),
            display: self.display@,
            keys: self.keys@,
            delay_timer: self.delay_timer,
            sound_timer: self.sound_timer,
        }
    }
}

impl Default for Emulator {
    /// A machine with everything zero and no font in memory.
    fn default() -> (emu: Self)
        ensures
            emu@ == MachineState::blank(),
            emu@.wf(),
    {
        let emu = Emulator {
            pc: START_ADDR,
            ram: [0; RAM_SIZE],
            address_register: 0,
            registers: [0; NUM_REGS],
            display: [false; DISPLAY_SIZE],
            stack_pointer: 0,
            stack: [0; STACK_SIZE],
            keys: [false; NUM_KEYS],
            delay_timer: 0,
            sound_timer: 0,
        };
        proof {
            let blank = MachineState::blank();
            assert(emu@.memory =~= blank.memory);
            assert(emu@.registers =~= blank.registers);
            assert(emu@.stack =~= blank.stack);
            assert(emu@.display =~= blank.display);
            assert(emu@.keys =~= blank.keys);
        }
        emu
    }
}

impl Emulator {
    #[verifier::type_invariant]
    spec fn inv(self) -> bool {
        &&& self.stack_pointer <= STACK_SIZE
        &&& self.address_register < RAM_SIZE
    }

    /// Copies `bytes` into memory from address `at` on.
    fn write_bytes(&mut self, at: usize, bytes: &[u8])
        requires
            at + bytes@.len() <= RAM_SIZE,
        ensures
            final(self)@ == (MachineState {
                memory: Seq::new(
                    RAM_SIZE as nat,
                    |i: int|
                        if at <= i < at + bytes@.len() {
                            bytes@[i - at]
                        } else {
                            old(self)@.memory[i]
                        },
                ),
                ..old(self)@
            }),
    {
        let ghost before = self@;
        let mut i: usize = 0;
        while i < bytes.len()
            invariant
                at + bytes@.len() <= RAM_SIZE,
                i <= bytes@.len(),
                before.memory.len() == RAM_SIZE,
                self@ == (MachineState { memory: self@.memory, ..before }),
                forall|j: int|
                    0 <= j < RAM_SIZE ==> #[trigger] self@.memory[j] == if at <= j < at + i {
                        bytes@[j - at]
                    } else {
                        before.memory[j]
                    },
            decreases bytes@.len() - i,
        {
            proof {
                use_type_invariant(&*self);
            }
            self.ram[at + i] = bytes[i];
            i += 1;
        }
        proof {
            assert(self@.memory =~= Seq::new(
                RAM_SIZE as nat,
                |i: int|
                    if at <= i < at + bytes@.len() {
                        bytes@[i - at]
                    } else {
                        before.memory[i]
                    },
            ));
        }
    }

    /// A machine as it is switched on: the font in memory, everything else
    /// zero, the program counter at the start address.
    pub fn new() -> (emu: Self)
        ensures
            emu@ == MachineState::power_on(),
            emu@.wf(),
    {
        let mut emu: Emulator = Default::default();
        emu.write_bytes(0, &FONTSET);
        proof {
            assert(emu@.memory =~= MachineState::power_on().memory);
        }
        emu
    }

    /// Returns the machine to the state in which it was switched on. The
    /// loaded program and the display contents are lost.
    pub fn reset(&mut self)
        ensures
            final(self)@ == MachineState::power_on(),
            final(self)@.wf(),
    {
        proof {
            use_type_invariant(&*self);
        }
        self.pc = START_ADDR;
        self.ram = [0; RAM_SIZE];
        self.address_register = 0;
        self.registers = [0; NUM_REGS];
        self.stack_pointer = 0;
        self.stack = [0; STACK_SIZE];
        self.keys = [false; NUM_KEYS];
        self.delay_timer = 0;
        self.sound_timer = 0;
        self.clear_screen();
        self.write_bytes(0, &FONTSET);
        proof {
            let on = MachineState::power_on();
            assert(self@.memory =~= on.memory);
            assert(self@.registers =~= on.registers);
            assert(self@.stack =~= on.stack);
            assert(self@.display =~= on.display);
            assert(self@.keys =~= on.keys);
        }
    }

    /// Copies a program to the start address. A program that does not fit
    /// between the start address and the end of memory is refused, and
    /// nothing is copied.
    pub fn load(&mut self, program: &[u8]) -> (loaded: Result<(), Chip8Error>)
        ensures
            loaded == status(old(self)@.load(program@)),
            final(self)@ == state_after(old(self)@, old(self)@.load(program@)),
            final(self)@.wf(),
    {
        proof {
            use_type_invariant(&*self);
        }
        if program.len() > RAM_SIZE - START_ADDR as usize {
            return Err(Chip8Error::ProgramTooLarge { len: program.len() });
        }
        self.write_bytes(START_ADDR as usize, program);
        proof {
            assert(self@.memory =~= old(self)@.load(program@)->Ok_0.memory);
        }
        Ok(())
    }

    /// Turns every pixel off.
    pub fn clear_screen(&mut self)
        ensures
            final(self)@ == old(self)@.clear_screen(),
            final(self)@.wf(),
    {
        proof {
            use_type_invariant(&*self);
        }
        self.display = [false; DISPLAY_SIZE];
        proof {
            assert(self@.display =~= old(self)@.clear_screen().display);
        }
    }

    /// Puts a return address on the call stack. A full stack refuses it.
    pub fn push(&mut self, addr: u16) -> (pushed: Result<(), Chip8Error>)
        ensures
            pushed == status(old(self)@.push(addr)),
            final(self)@ == state_after(old(self)@, old(self)@.push(addr)),
            final(self)@.wf(),
    {
        proof {
            use_type_invariant(&*self);
        }
        if self.stack_pointer as usize >= STACK_SIZE {
            return Err(Chip8Error::StackOverflow);
        }
        self.stack[self.stack_pointer as usize] = addr;
        self.stack_pointer += 1;
        proof {
            assert(self@.stack =~= old(self)@.stack.push(addr));
        }
        Ok(())
    }

    /// Takes the newest return address off the call stack. An empty stack
    /// has none to give.
    pub fn pop(&mut self) -> (popped: Result<u16, Chip8Error>)
        ensures
            popped == old(self)@.popped_address(),
            final(self)@ == state_after(old(self)@, old(self)@.pop()),
            final(self)@.wf(),
    {
        proof {
            use_type_invariant(&*self);
        }
        if self.stack_pointer == 0 {
            return Err(Chip8Error::StackUnderflow);
        }
        self.stack_pointer -= 1;
        proof {
            assert(self@.stack =~= old(self)@.stack.drop_last());
        }
        Ok(self.stack[self.stack_pointer as usize])
    }

    /// Reads the instruction word at the program counter and moves the
    /// program counter past it. A word that reaches past the end of memory
    /// is not read.
    pub fn fetch(&mut self) -> (fetched: Result<u16, Chip8Error>)
        ensures
            fetched == old(self)@.fetched_word(),
            final(self)@ == state_after(old(self)@, old(self)@.fetch()),
            final(self)@.wf(),
    {
        proof {
            use_type_invariant(&*self);
        }
        let at: usize = self.pc as usize;
        if at + 1 >= RAM_SIZE {
            return Err(Chip8Error::MemoryOutOfBounds { address: self.pc });
        }
        let opcode: u16 = make_word(self.ram[at], self.ram[at + 1]);
        self.pc += 2;
        Ok(opcode)
    }

    /// One tick of the timers, to be called sixty times a second: each
    /// timer that is not zero goes down by one. Returns whether this tick
    /// ended the tone, that is, took the sound timer from one to zero.
    pub fn tick_timers(&mut self) -> (tone_ended: bool)
        ensures
            tone_ended == old(self)@.sound_ends(),
            final(self)@ == old(self)@.tick_timers(),
            final(self)@.wf(),
    {
        proof {
            use_type_invariant(&*self);
        }
        if self.delay_timer > 0 {
            self.delay_timer -= 1;
        }
        let mut tone_ended = false;
        if self.sound_timer > 0 {
            if self.sound_timer == 1 {
                tone_ended = true;
            }
            self.sound_timer -= 1;
        }
        tone_ended
    }
    /// Reads register `x`.
    fn reg(&self, x: u8) -> (value: u8)
        requires
            x < 16,
        ensures
            value == self@.reg(x),
    {
        self.registers[x as usize]
    }

    /// Writes register `x`.
    fn set_register(&mut self, x: u8, value: u8)
        requires
            x < 16,
        ensures
            final(self)@ == old(self)@.with_register(x, value),
            final(self)@.wf(),
    {
        proof {
            use_type_invariant(&*self);
        }
        self.registers[x as usize] = value;
    }

    /// Writes register `x` and then the flag register.
    fn set_result(&mut self, x: u8, value: u8, flag: u8)
        requires
            x < 16,
        ensures
            final(self)@ == old(self)@.with_result(x, value, flag),
            final(self)@.wf(),
    {
        proof {
            use_type_invariant(&*self);
        }
        self.registers[x as usize] = value;
        self.registers[FLAG] = flag;
    }

    /// Moves the program counter past one more instruction word if `taken`
    /// holds.
    fn skip_if(&mut self, taken: bool) -> (done: Result<(), Chip8Error>)
        ensures
            follows(old(self)@, old(self)@.skip_if(taken), done, final(self)@),
            final(self)@.wf(),
    {
        proof {
            use_type_invariant(&*self);
        }
        if taken {
            if self.pc > u16::MAX - 2 {
                return Err(Chip8Error::MemoryOutOfBounds { address: self.pc });
            }
            self.pc += 2;
        }
        Ok(())
    }

    /// Calls the subroutine at `addr`.
    fn call(&mut self, addr: u16) -> (done: Result<(), Chip8Error>)
        ensures
            follows(old(self)@, old(self)@.call(addr), done, final(self)@),
            final(self)@.wf(),
    {
        let return_to: u16 = self.pc;
        match self.push(return_to) {
            Ok(()) => {
                proof {
                    use_type_invariant(&*self);
                }
                self.pc = addr;
                Ok(())
            },
            Err(e) => Err(e),
        }
    }

    /// Returns from a subroutine.
    fn ret(&mut self) -> (done: Result<(), Chip8Error>)
        ensures
            follows(old(self)@, old(self)@.ret(), done, final(self)@),
            final(self)@.wf(),
    {
        match self.pop() {
            Ok(addr) => {
                proof {
                    use_type_invariant(&*self);
                }
                self.pc = addr;
                Ok(())
            },
            Err(e) => Err(e),
        }
    }

    /// Draws the sprite of `height` rows at the index register at the
    /// position held by registers `x` and `y`.
    fn draw(&mut self, x: u8, y: u8, height: u8) -> (done: Result<(), Chip8Error>)
        requires
            x < 16,
            y < 16,
            height < 16,
        ensures
            follows(old(self)@, old(self)@.draw(x, y, height), done, final(self)@),
            final(self)@.wf(),
    {
        proof {
            use_type_invariant(&*self);
        }
        let left: u8 = self.reg(x);
        let top: u8 = self.reg(y);
        let start: usize = self.address_register as usize;
        if start + height as usize > RAM_SIZE {
            return Err(Chip8Error::MemoryOutOfBounds { address: self.address_register });
        }
        let collision = draw_sprite(&mut self.display, &self.ram, start, height, left, top);
        self.registers[FLAG] = if collision {
            1
        } else {
            0
        };
        Ok(())
    }

    /// Carries out a decoded instruction. `random` is the byte that an
    /// instruction asking for randomness receives.
    fn perform(&mut self, instruction: Instruction, random: u8) -> (done: Result<(), Chip8Error>)
        requires
            instruction.wf(),
        ensures
            follows(old(self)@, old(self)@.perform(instruction, random), done, final(self)@),
            final(self)@.wf(),
    {
        proof {
            use_type_invariant(&*self);
        }
        match instruction {
            Instruction::Nop => Ok(()),
            Instruction::ClearScreen => {
                self.clear_screen();
                Ok(())
            },
            Instruction::Return => self.ret(),
            Instruction::Jump { addr } => {
                self.pc = addr;
                Ok(())
            },
            Instruction::Call { addr } => self.call(addr),
            Instruction::SkipEqImm { x, nn } => {
                let taken = self.reg(x) == nn;
                self.skip_if(taken)
            },
            Instruction::SkipNeImm { x, nn } => {
                let taken = self.reg(x) != nn;
                self.skip_if(taken)
            },
            Instruction::SkipEqReg { x, y } => {
                let taken = self.reg(x) == self.reg(y);
                self.skip_if(taken)
            },
            Instruction::LoadImm { x, nn } => {
                self.set_register(x, nn);
                Ok(())
            },
            Instruction::AddImm { x, nn } => {
                let sum: u8 = wrapping_sum(self.reg(x), nn);
                self.set_register(x, sum);
                Ok(())
            },
            Instruction::Move { x, y } => {
                let value: u8 = self.reg(y);
                self.set_register(x, value);
                Ok(())
            },
            Instruction::Or { x, y } => {
                let value: u8 = self.reg(x) | self.reg(y);
                self.set_register(x, value);
                Ok(())
            },
            Instruction::And { x, y } => {
                let value: u8 = self.reg(x) & self.reg(y);
                self.set_register(x, value);
                Ok(())
            },
            Instruction::Xor { x, y } => {
                let value: u8 = self.reg(x) ^ self.reg(y);
                self.set_register(x, value);
                Ok(())
            },
            Instruction::AddReg { x, y } => {
                let (sum, carry): (u8, u8) = add_with_carry(self.reg(x), self.reg(y));
                self.set_result(x, sum, carry);
                Ok(())
            },
            Instruction::SubReg { x, y } => {
                let (difference, no_borrow): (u8, u8) = sub_with_borrow(self.reg(x), self.reg(y));
                self.set_result(x, difference, no_borrow);
                Ok(())
            },
            Instruction::ShiftRight { x } => {
                let (shifted, dropped): (u8, u8) = shift_right(self.reg(x));
                self.set_result(x, shifted, dropped);
                Ok(())
            },
            Instruction::SubFrom { x, y } => {
                let (difference, no_borrow): (u8, u8) = sub_with_borrow(self.reg(y), self.reg(x));
                self.set_result(x, difference, no_borrow);
                Ok(())
            },
            Instruction::ShiftLeft { x } => {
                let (shifted, dropped): (u8, u8) = shift_left(self.reg(x));
                self.set_result(x, shifted, dropped);
                Ok(())
            },
            Instruction::SkipNeReg { x, y } => {
                let taken = self.reg(x) != self.reg(y);
                self.skip_if(taken)
            },
            Instruction::LoadIndex { addr } => {
                self.address_register = addr;
                Ok(())
            },
            Instruction::JumpOffset { addr } => {
                self.pc = self.reg(0) as u16 + addr;
                Ok(())
            },
            Instruction::Random { x, nn } => {
                self.set_register(x, random & nn);
                Ok(())
            },
            Instruction::Draw { x, y, n } => self.draw(x, y, n),
        }
    }

    /// Decodes and carries out an instruction word. A word outside the
    /// instruction set is refused, with `origin` as its address.
    fn run(&mut self, opcode: u16, random: u8, origin: u16) -> (done: Result<(), Chip8Error>)
        ensures
            follows(
                old(self)@,
                old(self)@.execute_from(opcode, random, origin),
                done,
                final(self)@,
            ),
            final(self)@.wf(),
    {
        proof {
            use_type_invariant(&*self);
        }
        match decode(opcode) {
            Some(instruction) => self.perform(instruction, random),
            None => Err(Chip8Error::UnsupportedInstruction { opcode, address: origin }),
        }
    }

    /// Carries out the instruction word fetched from `origin`, and puts the
    /// program counter back to `origin` if the word is refused.
    fn run_fetched(&mut self, opcode: u16, random: u8, origin: u16) -> (done: Result<
        (),
        Chip8Error,
    >)
        ensures
            done == status(old(self)@.execute_from(opcode, random, origin)),
            final(self)@ == state_after(
                old(self)@.jump(origin),
                old(self)@.execute_from(opcode, random, origin),
            ),
            final(self)@.wf(),
    {
        match self.run(opcode, random, origin) {
            Ok(()) => Ok(()),
            Err(e) => {
                proof {
                    use_type_invariant(&*self);
                }
                self.pc = origin;
                Err(e)
            },
        }
    }

    /// Executes an instruction word on a machine whose program counter
    /// already points past it, with `random` as the byte that an
    /// instruction asking for randomness receives. A refused instruction
    /// leaves the machine as it was.
    pub fn execute_with(&mut self, instruction: u16, random: u8) -> (done: Result<(), Chip8Error>)
        ensures
            follows(old(self)@, old(self)@.execute(instruction, random), done, final(self)@),
            final(self)@.wf(),
    {
        let origin: u16 = self.pc;
        self.run(instruction, random, origin)
    }

    /// Executes an instruction word on a machine whose program counter
    /// already points past it. An instruction that asks for randomness
    /// receives a byte from the thread's random number generator. A refused
    /// instruction leaves the machine as it was.
    ///
    /// # Panics
    ///
    /// Drawing the random byte panics where the operating system gives the
    /// generator no entropy. No other instruction can panic; use
    /// [`Emulator::execute_with`] to supply the byte and rule this out.
    pub fn execute(&mut self, instruction: u16) -> (done: Result<(), Chip8Error>)
        ensures
            exists|random: u8|
                follows(
                    old(self)@,
                    #[trigger] old(self)@.execute(instruction, random),
                    done,
                    final(self)@,
                ),
            !uses_random(instruction) ==> follows(
                old(self)@,
                old(self)@.execute(instruction, 0),
                done,
                final(self)@,
            ),
            final(self)@.wf(),
    {
        let random: u8 = if needs_random(instruction) {
            random_byte()
        } else {
            0
        };
        let done = self.execute_with(instruction, random);
        proof {
            assert(follows(old(self)@, old(self)@.execute(instruction, random), done, self@));
        }
        done
    }

    /// One full cycle with `random` as the byte that an instruction asking
    /// for randomness receives: the word at the program counter is fetched
    /// and executed. A refused cycle leaves the machine as it was, program
    /// counter included.
    pub fn tick_with(&mut self, random: u8) -> (done: Result<(), Chip8Error>)
        ensures
            follows(old(self)@, old(self)@.tick(random), done, final(self)@),
            final(self)@.wf(),
    {
        let origin: u16 = self.pc;
        match self.fetch() {
            Ok(opcode) => self.run_fetched(opcode, random, origin),
            Err(e) => Err(e),
        }
    }

    /// One full cycle: the word at the program counter is fetched and
    /// executed. An instruction that asks for randomness receives a byte
    /// from the thread's random number generator. A refused cycle leaves
    /// the machine as it was, program counter included.
    ///
    /// # Panics
    ///
    /// Drawing the random byte panics where the operating system gives the
    /// generator no entropy. No other instruction can panic; use
    /// [`Emulator::tick_with`] to supply the byte and rule this out.
    pub fn tick(&mut self) -> (done: Result<(), Chip8Error>)
        ensures
            exists|random: u8|
                follows(old(self)@, #[trigger] old(self)@.tick(random), done, final(self)@),
            !uses_random(old(self)@.current_word()) ==> follows(
                old(self)@,
                old(self)@.tick(0),
                done,
                final(self)@,
            ),
            final(self)@.wf(),
    {
        let origin: u16 = self.pc;
        match self.fetch() {
            Ok(opcode) => {
                let random: u8 = if needs_random(opcode) {
                    random_byte()
                } else {
                    0
                };
                let done = self.run_fetched(opcode, random, origin);
                proof {
                    assert(follows(old(self)@, old(self)@.tick(random), done, self@));
                }
                done
            },
            Err(e) => {
                proof {
                    assert(follows(old(self)@, old(self)@.tick(0), Err(e), self@));
                }
                Err(e)
            },
        }
    }

    /// The address of the next instruction word.
    pub fn pc(&self) -> (pc: u16)
        ensures
            pc == self@.pc,
            self@.wf(),
    {
        proof {
            use_type_invariant(self);
        }
        self.pc
    }

    /// The index register.
    pub fn index(&self) -> (index: u16)
        ensures
            index == self@.index,
            index < RAM_SIZE,
            self@.wf(),
    {
        proof {
            use_type_invariant(self);
        }
        self.address_register
    }

    /// The general purpose registers.
    pub fn registers(&self) -> (registers: &[u8; NUM_REGS])
        ensures
            registers@ == self@.registers,
            self@.wf(),
    {
        proof {
            use_type_invariant(self);
        }
        &self.registers
    }

    /// The memory.
    pub fn memory(&self) -> (memory: &[u8; RAM_SIZE])
        ensures
            memory@ == self@.memory,
            self@.wf(),
    {
        proof {
            use_type_invariant(self);
        }
        &self.ram
    }

    /// The display, row by row; `true` is a lit pixel.
    pub fn display(&self) -> (display: &[bool; DISPLAY_SIZE])
        ensures
            display@ == self@.display,
            self@.wf(),
    {
        proof {
            use_type_invariant(self);
        }
        &self.display
    }

    /// Whether the pixel in column `x` of row `y` is lit, or `None` for a
    /// position outside the display.
    pub fn pixel(&self, x: usize, y: usize) -> (lit: Option<bool>)
        ensures
            lit == self@.pixel(x as int, y as int),
            self@.wf(),
    {
        proof {
            use_type_invariant(self);
        }
        if x < SCREEN_WIDTH && y < SCREEN_HEIGHT {
            Some(self.display[x + SCREEN_WIDTH * y])
        } else {
            None
        }
    }

    /// The keys that are held down.
    pub fn keys(&self) -> (keys: &[bool; NUM_KEYS])
        ensures
            keys@ == self@.keys,
            self@.wf(),
    {
        proof {
            use_type_invariant(self);
        }
        &self.keys
    }

    /// The number of return addresses on the call stack.
    pub fn stack_depth(&self) -> (depth: usize)
        ensures
            depth == self@.stack.len(),
            depth <= STACK_SIZE,
            self@.wf(),
    {
        proof {
            use_type_invariant(self);
        }
        self.stack_pointer as usize
    }

    /// The delay timer.
    pub fn delay_timer(&self) -> (value: u8)
        ensures
            value == self@.delay_timer,
            self@.wf(),
    {
        proof {
            use_type_invariant(self);
        }
        self.delay_timer
    }

    /// The sound timer.
    pub fn sound_timer(&self) -> (value: u8)
        ensures
            value == self@.sound_timer,
            self@.wf(),
    {
        proof {
            use_type_invariant(self);
        }
        self.sound_timer
    }

    /// Whether the tone sounds: the sound timer is not zero.
    pub fn sound_active(&self) -> (active: bool)
        ensures
            active == (self@.sound_timer > 0),
            self@.wf(),
    {
        proof {
            use_type_invariant(self);
        }
        self.sound_timer > 0
    }

    /// Records that key `key` is held down or was released, and tells
    /// whether the keypad has such a key. A key it does not have is ignored.
    pub fn set_key(&mut self, key: usize, pressed: bool) -> (known: bool)
        ensures
            known == (key < NUM_KEYS),
            final(self)@ == old(self)@.with_key(key as int, pressed),
            final(self)@.wf(),
    {
        proof {
            use_type_invariant(&*self);
        }
        if key < NUM_KEYS {
            self.keys[key] = pressed;
            true
        } else {
            false
        }
    }

    /// Sets the delay timer.
    pub fn set_delay_timer(&mut self, value: u8)
        ensures
            final(self)@ == (MachineState { delay_timer: value, ..old(self)@ }),
            final(self)@.wf(),
    {
        proof {
            use_type_invariant(&*self);
        }
        self.delay_timer = value;
    }

    /// Sets the sound timer.
    pub fn set_sound_timer(&mut self, value: u8)
        ensures
            final(self)@ == (MachineState { sound_timer: value, ..old(self)@ }),
            final(self)@.wf(),
    {
        proof {
            use_type_invariant(&*self);
        }
        self.sound_timer = value;
    }
}

} // verus!
