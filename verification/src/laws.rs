//! Laws of the machine: what holds of the model for every state and every
//! instruction word.

use vstd::prelude::*;
use crate::consts::{DISPLAY_SIZE, RAM_SIZE, STACK_SIZE};
use crate::error::Chip8Error;
use crate::model::{state_after, MachineState};
use crate::opcode::{decode_spec, digits, low_address, low_byte, uses_random, Instruction};
use crate::sprite::{sprite_bit, Sprite};

verus! {

/// The instruction word with the digits `family`, `x`, `y` and `n`.
pub open spec fn word_of(family: u8, x: u8, y: u8, n: u8) -> u16 {
    (family * 0x1000 + x * 0x100 + y * 0x10 + n) as u16
}

/// The instruction word with the digit `family` and the address `addr`.
pub open spec fn address_word(family: u8, addr: u16) -> u16 {
    (family * 0x1000 + addr) as u16
}

/// The byte with the digits `high` and `low`.
pub open spec fn byte_of(high: u8, low: u8) -> u8 {
    (high * 0x10 + low) as u8
}

/// The word of the instruction that returns from a subroutine.
pub open spec fn return_word() -> u16 {
    0x00EE
}

/// A word made of four digits has those digits, and no others.
pub proof fn lemma_word_of_digits(family: u8, x: u8, y: u8, n: u8)
    requires
        family < 16,
        x < 16,
        y < 16,
        n < 16,
    ensures
        digits(word_of(family, x, y, n)) == (family, x, y, n),
        low_byte(word_of(family, x, y, n)) == byte_of(y, n),
        low_address(word_of(family, x, y, n)) == x * 0x100 + y * 0x10 + n,
{
    let wide_family: u16 = family as u16;
    let wide_x: u16 = x as u16;
    let wide_y: u16 = y as u16;
    let wide_n: u16 = n as u16;
    let word: u16 = word_of(family, x, y, n);
    assert(word == wide_family * 0x1000 + wide_x * 0x100 + wide_y * 0x10 + wide_n);
    assert(word / 0x1000 == wide_family && word / 0x100 % 16 == wide_x && word / 0x10 % 16
        == wide_y && word % 16 == wide_n && word % 0x100 == wide_y * 0x10 + wide_n && word
        % 0x1000 == wide_x * 0x100 + wide_y * 0x10 + wide_n) by (bit_vector)
        requires
            word == wide_family * 0x1000 + wide_x * 0x100 + wide_y * 0x10 + wide_n,
            wide_family < 16,
            wide_x < 16,
            wide_y < 16,
            wide_n < 16,
    ;
}

/// A word made of a digit and an address has that digit first and that
/// address in its low twelve bits.
pub proof fn lemma_address_word_digits(family: u8, addr: u16)
    requires
        family < 16,
        addr < 0x1000,
    ensures
        digits(address_word(family, addr)).0 == family,
        low_address(address_word(family, addr)) == addr,
{
    let wide_family: u16 = family as u16;
    let word: u16 = address_word(family, addr);
    assert(word == wide_family * 0x1000 + addr);
    assert(word / 0x1000 == wide_family && word % 0x1000 == addr) by (bit_vector)
        requires
            word == wide_family * 0x1000 + addr,
            wide_family < 16,
            addr < 0x1000,
    ;
}

/// Every instruction keeps the machine well formed, whether it is carried
/// out or refused.
pub proof fn lemma_execute_keeps_wf(s: MachineState, opcode: u16, random: u8, origin: u16)
    requires
        s.wf(),
    ensures
        state_after(s, s.execute_from(opcode, random, origin)).wf(),
        state_after(s, s.execute(opcode, random)).wf(),
        state_after(s, s.tick(random)).wf(),
{
}

/// Only an instruction that asks for randomness depends on the random byte.
pub proof fn lemma_random_only_where_asked(
    s: MachineState,
    opcode: u16,
    first: u8,
    second: u8,
    origin: u16,
)
    requires
        !uses_random(opcode),
    ensures
        s.execute_from(opcode, first, origin) == s.execute_from(opcode, second, origin),
        s.execute(opcode, first) == s.execute(opcode, second),
{
}

/// No instruction touches the timers, the keys or the memory, and only
/// clearing the screen and drawing change the display.
pub proof fn lemma_execute_frame(s: MachineState, opcode: u16, random: u8)
    ensures
        state_after(s, s.execute(opcode, random)).delay_timer == s.delay_timer,
        state_after(s, s.execute(opcode, random)).sound_timer == s.sound_timer,
        state_after(s, s.execute(opcode, random)).keys == s.keys,
        state_after(s, s.execute(opcode, random)).memory == s.memory,
        opcode != 0x00E0 && opcode / 0x1000 != 0xD ==> state_after(
            s,
            s.execute(opcode, random),
        ).display == s.display,
{
}

/// No full cycle touches the timers, the keys or the memory, and a timer
/// tick touches nothing but the timers.
pub proof fn lemma_cycle_and_timers_apart(s: MachineState, random: u8)
    ensures
        state_after(s, s.tick(random)).delay_timer == s.delay_timer,
        state_after(s, s.tick(random)).sound_timer == s.sound_timer,
        state_after(s, s.tick(random)).keys == s.keys,
        state_after(s, s.tick(random)).memory == s.memory,
        s.tick_timers() == (MachineState {
            delay_timer: s.tick_timers().delay_timer,
            sound_timer: s.tick_timers().sound_timer,
            ..s
        }),
{
}

/// A call that is carried out makes the call stack one deeper, a return
/// that is carried out makes it one shallower, and no other instruction
/// changes it.
pub proof fn lemma_stack_moves_by_one(s: MachineState, opcode: u16, random: u8)
    requires
        s.execute(opcode, random) is Ok,
    ensures
        opcode / 0x1000 == 0x2 ==> s.execute(opcode, random)->Ok_0.stack.len() == s.stack.len()
            + 1,
        opcode == 0x00EE ==> s.execute(opcode, random)->Ok_0.stack.len() == s.stack.len() - 1,
        opcode / 0x1000 != 0x2 && opcode != 0x00EE ==> s.execute(opcode, random)->Ok_0.stack
            == s.stack,
{
}

/// Adding register `y` to register `x` (`8xy4`) always succeeds. The flag
/// register is then 1 if the sum is above 255 and 0 if it is not, and
/// register `x`, unless it is the flag register itself, holds the sum
/// modulo 256.
pub proof fn lemma_add_sets_carry(s: MachineState, x: u8, y: u8, random: u8)
    requires
        s.wf(),
        x < 16,
        y < 16,
    ensures
        s.execute(word_of(8, x, y, 4), random) is Ok,
        s.reg(x) + s.reg(y) > 255 <==> state_after(
            s,
            s.execute(word_of(8, x, y, 4), random),
        ).reg(15) == 1,
        s.reg(x) + s.reg(y) <= 255 <==> state_after(
            s,
            s.execute(word_of(8, x, y, 4), random),
        ).reg(15) == 0,
        x != 15 ==> state_after(s, s.execute(word_of(8, x, y, 4), random)).reg(x) == (s.reg(x)
            + s.reg(y)) % 256,
{
    lemma_word_of_digits(8, x, y, 4);
    assert(decode_spec(word_of(8, x, y, 4)) == Some(Instruction::AddReg { x, y }));
}

/// Subtracting register `y` from register `x` (`8xy5`) always succeeds. The
/// flag register is then 0 if the subtraction borrowed, that is if
/// register `x` was smaller than register `y`, and 1 if it did not, and
/// register `x`, unless it is the flag register itself, holds the
/// difference modulo 256.
pub proof fn lemma_sub_clears_flag_on_borrow(s: MachineState, x: u8, y: u8, random: u8)
    requires
        s.wf(),
        x < 16,
        y < 16,
    ensures
        s.execute(word_of(8, x, y, 5), random) is Ok,
        s.reg(x) < s.reg(y) <==> state_after(
            s,
            s.execute(word_of(8, x, y, 5), random),
        ).reg(15) == 0,
        s.reg(x) >= s.reg(y) <==> state_after(
            s,
            s.execute(word_of(8, x, y, 5), random),
        ).reg(15) == 1,
        x != 15 ==> state_after(s, s.execute(word_of(8, x, y, 5), random)).reg(x) == (s.reg(x)
            - s.reg(y)) % 256,
{
    lemma_word_of_digits(8, x, y, 5);
    assert(decode_spec(word_of(8, x, y, 5)) == Some(Instruction::SubReg { x, y }));
}

/// Subtracting register `x` from register `y` into register `x` (`8xy7`)
/// always succeeds. The flag register is then 0 if register `y` was smaller
/// than register `x` and 1 if it was not, and register `x`, unless it is
/// the flag register itself, holds the difference modulo 256.
pub proof fn lemma_reverse_sub_clears_flag_on_borrow(s: MachineState, x: u8, y: u8, random: u8)
    requires
        s.wf(),
        x < 16,
        y < 16,
    ensures
        s.execute(word_of(8, x, y, 7), random) is Ok,
        s.reg(y) < s.reg(x) <==> state_after(
            s,
            s.execute(word_of(8, x, y, 7), random),
        ).reg(15) == 0,
        s.reg(y) >= s.reg(x) <==> state_after(
            s,
            s.execute(word_of(8, x, y, 7), random),
        ).reg(15) == 1,
        x != 15 ==> state_after(s, s.execute(word_of(8, x, y, 7), random)).reg(x) == (s.reg(y)
            - s.reg(x)) % 256,
{
    lemma_word_of_digits(8, x, y, 7);
    assert(decode_spec(word_of(8, x, y, 7)) == Some(Instruction::SubFrom { x, y }));
}

/// Shifting register `x` right (`8x_6`) always succeeds and leaves in the
/// flag register the least significant bit that the register had before.
/// Register `x`, unless it is the flag register itself, holds half its
/// former value, rounded down.
pub proof fn lemma_shift_right_keeps_low_bit(s: MachineState, x: u8, y: u8, random: u8)
    requires
        s.wf(),
        x < 16,
        y < 16,
    ensures
        s.execute(word_of(8, x, y, 6), random) is Ok,
        state_after(s, s.execute(word_of(8, x, y, 6), random)).reg(15) == s.reg(x) % 2,
        state_after(s, s.execute(word_of(8, x, y, 6), random)).reg(15) == s.reg(x) & 1,
        x != 15 ==> state_after(s, s.execute(word_of(8, x, y, 6), random)).reg(x) == s.reg(x)
            / 2,
{
    lemma_word_of_digits(8, x, y, 6);
    assert(decode_spec(word_of(8, x, y, 6)) == Some(Instruction::ShiftRight { x }));
    let a: u8 = s.reg(x);
    assert(a & 1 == a % 2) by (bit_vector);
}

/// Shifting register `x` left (`8x_E`) always succeeds and leaves in the
/// flag register the most significant bit that the register had before.
/// Register `x`, unless it is the flag register itself, holds twice its
/// former value modulo 256.
pub proof fn lemma_shift_left_keeps_high_bit(s: MachineState, x: u8, y: u8, random: u8)
    requires
        s.wf(),
        x < 16,
        y < 16,
    ensures
        s.execute(word_of(8, x, y, 0xE), random) is Ok,
        state_after(s, s.execute(word_of(8, x, y, 0xE), random)).reg(15) == s.reg(x) / 128,
        state_after(s, s.execute(word_of(8, x, y, 0xE), random)).reg(15) == (s.reg(x) >> 7) & 1,
        x != 15 ==> state_after(s, s.execute(word_of(8, x, y, 0xE), random)).reg(x) == (s.reg(x)
            * 2) % 256,
{
    lemma_word_of_digits(8, x, y, 0xE);
    assert(decode_spec(word_of(8, x, y, 0xE)) == Some(Instruction::ShiftLeft { x }));
    let a: u8 = s.reg(x);
    assert((a >> 7) & 1 == a / 128) by (bit_vector);
}

/// Drawing a sprite twice gives back the display it was first drawn on.
pub proof fn lemma_sprite_twice_restores(sprite: Sprite, display: Seq<bool>)
    ensures
        sprite.drawn_on(sprite.drawn_on(display)) == display,
{
    assert(sprite.drawn_on(sprite.drawn_on(display)) =~= display);
}

/// Drawing a sprite for the second time collides exactly if the first
/// drawing lit a pixel, that is if the sprite has a set pixel where the
/// display was dark.
pub proof fn lemma_sprite_twice_collides(sprite: Sprite, display: Seq<bool>)
    ensures
        sprite.collides(sprite.drawn_on(display)) <==> exists|p: int|
            0 <= p < display.len() && !display[p] && #[trigger] sprite.hits(p),
{
    let once = sprite.drawn_on(display);
    if sprite.collides(once) {
        let p: int = choose|p: int| 0 <= p < once.len() && once[p] && #[trigger] sprite.hits(p);
        assert(0 <= p < display.len() && !display[p] && sprite.hits(p));
    }
    if exists|p: int| 0 <= p < display.len() && !display[p] && #[trigger] sprite.hits(p) {
        let p: int = choose|p: int|
            0 <= p < display.len() && !display[p] && #[trigger] sprite.hits(p);
        assert(0 <= p < once.len() && once[p] && sprite.hits(p));
    }
}

/// The pixel in column `col` of row `row` of a sprite falls on column
/// `(left + col) mod 64` of row `(top + row) mod 32` of the display, which
/// is always a position of the display, and drawing the sprite flips that
/// position exactly if the pixel is set.
pub proof fn lemma_sprite_wraps(sprite: Sprite, display: Seq<bool>, row: int, col: int)
    requires
        display.len() == DISPLAY_SIZE,
        sprite.rows.len() <= 32,
        0 <= row < sprite.rows.len(),
        0 <= col < 8,
    ensures
        0 <= (sprite.left + col) % 64 < 64,
        0 <= (sprite.top + row) % 32 < 32,
        sprite.position_of(row, col) == (sprite.left + col) % 64 + 64 * ((sprite.top + row) % 32),
        0 <= sprite.position_of(row, col) < DISPLAY_SIZE,
        sprite.hits(sprite.position_of(row, col)) == sprite_bit(sprite.rows[row], col as u8),
        sprite.drawn_on(display)[sprite.position_of(row, col)] == (display[sprite.position_of(
            row,
            col,
        )] != sprite_bit(sprite.rows[row], col as u8)),
{
    sprite.lemma_position_of(row, col);
}

/// Executing the same draw instruction (`Dxyn`) twice in a row, with the
/// position registers holding the same values both times, gives back the
/// display as it was before the first, and the second reports a collision
/// exactly if the first lit a pixel.
pub proof fn lemma_draw_twice_restores(
    s: MachineState,
    x: u8,
    y: u8,
    n: u8,
    first_random: u8,
    second_random: u8,
)
    requires
        s.wf(),
        x < 16,
        y < 16,
        n < 16,
        s.execute(word_of(0xD, x, y, n), first_random) is Ok,
        s.execute(word_of(0xD, x, y, n), first_random)->Ok_0.reg(x) == s.reg(x),
        s.execute(word_of(0xD, x, y, n), first_random)->Ok_0.reg(y) == s.reg(y),
    ensures
        s.execute(word_of(0xD, x, y, n), first_random)->Ok_0.execute(
            word_of(0xD, x, y, n),
            second_random,
        ) is Ok,
        s.execute(word_of(0xD, x, y, n), first_random)->Ok_0.execute(
            word_of(0xD, x, y, n),
            second_random,
        )->Ok_0.display == s.display,
        s.execute(word_of(0xD, x, y, n), first_random)->Ok_0.execute(
            word_of(0xD, x, y, n),
            second_random,
        )->Ok_0.reg(15) == 1 <==> exists|p: int|
            0 <= p < DISPLAY_SIZE && !s.display[p] && #[trigger] s.sprite(x, y, n).hits(p),
        s.execute(word_of(0xD, x, y, n), first_random)->Ok_0.execute(
            word_of(0xD, x, y, n),
            second_random,
        )->Ok_0.reg(15) == 0 <==> !exists|p: int|
            0 <= p < DISPLAY_SIZE && !s.display[p] && #[trigger] s.sprite(x, y, n).hits(p),
{
    let word: u16 = word_of(0xD, x, y, n);
    lemma_word_of_digits(0xD, x, y, n);
    assert(decode_spec(word) == Some(Instruction::Draw { x, y, n }));
    let sprite = s.sprite(x, y, n);
    assert(s.execute(word, first_random) == s.draw(x, y, n));
    let once = s.draw(x, y, n)->Ok_0;
    assert(once.display == sprite.drawn_on(s.display));
    assert(once.memory == s.memory && once.index == s.index);
    assert(once.sprite(x, y, n) == sprite);
    assert(once.execute(word, second_random) == once.draw(x, y, n));
    let twice = once.draw(x, y, n)->Ok_0;
    assert(twice.display == sprite.drawn_on(sprite.drawn_on(s.display)));
    assert(twice.reg(15) == 1 <==> sprite.collides(sprite.drawn_on(s.display)));
    assert(twice.reg(15) == 0 <==> !sprite.collides(sprite.drawn_on(s.display)));
    lemma_sprite_twice_restores(sprite, s.display);
    lemma_sprite_twice_collides(sprite, s.display);
}

/// A call (`2nnn`) on a machine whose call stack is not full succeeds and
/// continues at its target; a return (`00EE`) executed right after it
/// succeeds and gives back the machine as it was before the call, so that
/// execution continues at the instruction that follows the call.
pub proof fn lemma_call_then_return(s: MachineState, addr: u16, first_random: u8, second_random: u8)
    requires
        s.wf(),
        addr < 0x1000,
        s.stack.len() < STACK_SIZE,
    ensures
        s.execute(address_word(2, addr), first_random) is Ok,
        s.execute(address_word(2, addr), first_random)->Ok_0.pc == addr,
        s.execute(address_word(2, addr), first_random)->Ok_0.stack == s.stack.push(s.pc),
        s.execute(address_word(2, addr), first_random)->Ok_0.execute(
            return_word(),
            second_random,
        ) == Ok::<MachineState, Chip8Error>(s),
{
    let word: u16 = address_word(2, addr);
    lemma_address_word_digits(2, addr);
    assert(decode_spec(word) == Some(Instruction::Call { addr }));
    assert(decode_spec(return_word()) == Some(Instruction::Return));
    let called = s.execute(word, first_random)->Ok_0;
    assert(called.stack.drop_last() =~= s.stack);
}

/// A full cycle that fetches a call, followed by a full cycle that fetches
/// a return at the call's target, leaves the program counter two past the
/// address of the call, and the call stack as it was.
pub proof fn lemma_call_and_return_cycles(s: MachineState, addr: u16, first_random: u8, second_random: u8)
    requires
        s.wf(),
        s.can_fetch(),
        s.stack.len() < STACK_SIZE,
        addr < 0x1000,
        s.current_word() == address_word(2, addr),
        s.jump(addr).can_fetch(),
        s.jump(addr).current_word() == return_word(),
    ensures
        s.tick(first_random) is Ok,
        s.tick(first_random)->Ok_0.pc == addr,
        s.tick(first_random)->Ok_0.tick(second_random) is Ok,
        s.tick(first_random)->Ok_0.tick(second_random)->Ok_0.pc == s.pc + 2,
        s.tick(first_random)->Ok_0.tick(second_random)->Ok_0 == s.fetch()->Ok_0,
{
    let word: u16 = address_word(2, addr);
    lemma_address_word_digits(2, addr);
    assert(decode_spec(word) == Some(Instruction::Call { addr }));
    assert(decode_spec(return_word()) == Some(Instruction::Return));
    let fetched = s.fetch()->Ok_0;
    let called = s.tick(first_random)->Ok_0;
    assert(called.stack == fetched.stack.push(fetched.pc));
    assert(called.stack.drop_last() =~= s.stack);
    assert(called.current_word() == s.jump(addr).current_word());
}

/// A full cycle on a skip over an immediate (`3xnn`, `4xnn`), fetched from
/// anywhere in memory, moves the program counter by four where the
/// condition holds and by two where it does not, and changes nothing else.
pub proof fn lemma_skip_cycles(s: MachineState, opcode: u16, random: u8)
    requires
        s.wf(),
        s.can_fetch(),
        s.current_word() == opcode,
        opcode / 0x1000 == 0x3 || opcode / 0x1000 == 0x4,
    ensures
        opcode / 0x1000 == 0x3 ==> s.tick(random) == Ok::<MachineState, Chip8Error>(
            s.jump(
                if s.reg(digits(opcode).1) == low_byte(opcode) {
                    (s.pc + 4) as u16
                } else {
                    (s.pc + 2) as u16
                },
            ),
        ),
        opcode / 0x1000 == 0x4 ==> s.tick(random) == Ok::<MachineState, Chip8Error>(
            s.jump(
                if s.reg(digits(opcode).1) != low_byte(opcode) {
                    (s.pc + 4) as u16
                } else {
                    (s.pc + 2) as u16
                },
            ),
        ),
{
}

/// Every instruction word whose first digit is `E` or `F` is refused as
/// unsupported, with the word and the address it came from, and the machine
/// stays as it was.
pub proof fn lemma_high_families_unsupported(
    s: MachineState,
    opcode: u16,
    random: u8,
    origin: u16,
)
    requires
        opcode / 0x1000 == 0xE || opcode / 0x1000 == 0xF,
    ensures
        s.execute_from(opcode, random, origin) == Err::<MachineState, Chip8Error>(
            Chip8Error::UnsupportedInstruction { opcode, address: origin },
        ),
        s.execute(opcode, random) == Err::<MachineState, Chip8Error>(
            Chip8Error::UnsupportedInstruction { opcode, address: s.pc },
        ),
        state_after(s, s.execute(opcode, random)) == s,
        s.can_fetch() && s.current_word() == opcode ==> s.tick(random) == Err::<
            MachineState,
            Chip8Error,
        >(Chip8Error::UnsupportedInstruction { opcode, address: s.pc }),
{
}

/// A word is refused as unsupported exactly if it stands for no
/// instruction, and the refusal never depends on the state of the machine.
pub proof fn lemma_unsupported_iff_undecodable(
    s: MachineState,
    opcode: u16,
    random: u8,
    origin: u16,
)
    requires
        s.wf(),
    ensures
        decode_spec(opcode) is None <==> s.execute_from(opcode, random, origin) == Err::<
            MachineState,
            Chip8Error,
        >(Chip8Error::UnsupportedInstruction { opcode, address: origin }),
{
}

/// The tone ends once: the timer tick that takes the sound timer from one
/// to zero is followed by ticks that end nothing, and a timer that is zero
/// stays zero.
pub proof fn lemma_tone_ends_once(s: MachineState)
    ensures
        s.sound_ends() ==> s.tick_timers().sound_timer == 0 && !s.tick_timers().sound_ends(),
        s.sound_timer == 0 ==> s.tick_timers().sound_timer == 0 && !s.sound_ends(),
        s.delay_timer == 0 ==> s.tick_timers().delay_timer == 0,
        s.sound_timer > 0 ==> s.tick_timers().sound_timer == s.sound_timer - 1,
        s.delay_timer > 0 ==> s.tick_timers().delay_timer == s.delay_timer - 1,
{
}

/// A program that fits is found again, byte by byte, from the start
/// address on, where execution begins; the font below it stays.
pub proof fn lemma_load_places_program(s: MachineState, program: Seq<u8>, i: int)
    requires
        s.wf(),
        program.len() <= RAM_SIZE - 0x200,
    ensures
        s.load(program) is Ok,
        s.load(program)->Ok_0.wf(),
        0 <= i < program.len() ==> s.load(program)->Ok_0.memory[0x200 + i] == program[i],
        0 <= i < 0x200 ==> s.load(program)->Ok_0.memory[i] == s.memory[i],
        0x200 + program.len() <= i < RAM_SIZE ==> s.load(program)->Ok_0.memory[i] == s.memory[i],
{
}

} // verus!
