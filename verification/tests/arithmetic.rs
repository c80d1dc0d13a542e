use chip8_core::alu::{add_with_carry, make_word, shift_left, shift_right, sub_with_borrow, wrapping_sum};
use chip8_core::Emulator;

/// A machine with `a` in register 1 and `b` in register 2.
fn machine_holding(a: u8, b: u8) -> Emulator {
    let mut emu = Emulator::new();
    assert_eq!(emu.execute_with(0x6100 | a as u16, 0), Ok(()));
    assert_eq!(emu.execute_with(0x6200 | b as u16, 0), Ok(()));
    emu
}

#[test]
fn add_sets_carry_exactly_on_overflow() {
    for a in 0..=255_u8 {
        for b in 0..=255_u8 {
            let mut emu = machine_holding(a, b);
            assert_eq!(emu.execute_with(0x8124, 0), Ok(()));
            let sum = a as u16 + b as u16;
            assert_eq!(emu.registers()[1] as u16, sum % 256);
            assert_eq!(emu.registers()[0xF], if sum > 255 { 1 } else { 0 });
            assert_eq!(emu.registers()[2], b);
        }
    }
}

#[test]
fn add_gives_known_sums() {
    let mut emu = machine_holding(200, 100);
    assert_eq!(emu.execute_with(0x8124, 0), Ok(()));
    assert_eq!((emu.registers()[1], emu.registers()[0xF]), (44, 1));
    let mut emu = machine_holding(255, 1);
    assert_eq!(emu.execute_with(0x8124, 0), Ok(()));
    assert_eq!((emu.registers()[1], emu.registers()[0xF]), (0, 1));
    let mut emu = machine_holding(255, 0);
    assert_eq!(emu.execute_with(0x8124, 0), Ok(()));
    assert_eq!((emu.registers()[1], emu.registers()[0xF]), (255, 0));
    let mut emu = machine_holding(1, 2);
    assert_eq!(emu.execute_with(0x8124, 0), Ok(()));
    assert_eq!((emu.registers()[1], emu.registers()[0xF]), (3, 0));
}

#[test]
fn sub_clears_flag_exactly_on_borrow() {
    for a in 0..=255_u8 {
        for b in 0..=255_u8 {
            let mut emu = machine_holding(a, b);
            assert_eq!(emu.execute_with(0x8125, 0), Ok(()));
            assert_eq!(emu.registers()[1], a.wrapping_sub(b));
            assert_eq!(emu.registers()[0xF], if a < b { 0 } else { 1 });
        }
    }
}

#[test]
fn sub_gives_known_differences() {
    let mut emu = machine_holding(5, 10);
    assert_eq!(emu.execute_with(0x8125, 0), Ok(()));
    assert_eq!((emu.registers()[1], emu.registers()[0xF]), (251, 0));
    let mut emu = machine_holding(10, 5);
    assert_eq!(emu.execute_with(0x8125, 0), Ok(()));
    assert_eq!((emu.registers()[1], emu.registers()[0xF]), (5, 1));
    let mut emu = machine_holding(7, 7);
    assert_eq!(emu.execute_with(0x8125, 0), Ok(()));
    assert_eq!((emu.registers()[1], emu.registers()[0xF]), (0, 1));
}

#[test]
fn reverse_sub_subtracts_the_other_way() {
    for a in 0..=255_u8 {
        for b in 0..=255_u8 {
            let mut emu = machine_holding(a, b);
            assert_eq!(emu.execute_with(0x8127, 0), Ok(()));
            assert_eq!(emu.registers()[1], b.wrapping_sub(a));
            assert_eq!(emu.registers()[0xF], if b < a { 0 } else { 1 });
        }
    }
    let mut emu = machine_holding(10, 5);
    assert_eq!(emu.execute_with(0x8127, 0), Ok(()));
    assert_eq!((emu.registers()[1], emu.registers()[0xF]), (251, 0));
}

#[test]
fn shift_right_moves_low_bit_into_flag() {
    for a in 0..=255_u8 {
        let mut emu = machine_holding(a, 0x55);
        assert_eq!(emu.execute_with(0x8126, 0), Ok(()));
        assert_eq!(emu.registers()[1], a >> 1);
        assert_eq!(emu.registers()[0xF], a & 1);
        assert_eq!(emu.registers()[2], 0x55);
    }
    let mut emu = machine_holding(0b1000_0011, 0);
    assert_eq!(emu.execute_with(0x8106, 0), Ok(()));
    assert_eq!((emu.registers()[1], emu.registers()[0xF]), (0b0100_0001, 1));
}

#[test]
fn shift_left_moves_high_bit_into_flag() {
    for a in 0..=255_u8 {
        let mut emu = machine_holding(a, 0x55);
        assert_eq!(emu.execute_with(0x812E, 0), Ok(()));
        assert_eq!(emu.registers()[1], a << 1);
        assert_eq!(emu.registers()[0xF], a >> 7);
        assert_eq!(emu.registers()[2], 0x55);
    }
    let mut emu = machine_holding(0b1000_0011, 0);
    assert_eq!(emu.execute_with(0x810E, 0), Ok(()));
    assert_eq!((emu.registers()[1], emu.registers()[0xF]), (0b0000_0110, 1));
}

#[test]
fn flag_register_as_destination_keeps_the_flag() {
    let mut emu = Emulator::new();
    assert_eq!(emu.execute_with(0x6FC8, 0), Ok(()));
    assert_eq!(emu.execute_with(0x6164, 0), Ok(()));
    assert_eq!(emu.execute_with(0x8F14, 0), Ok(()));
    assert_eq!(emu.registers()[0xF], 1);
    assert_eq!(emu.execute_with(0x6F03, 0), Ok(()));
    assert_eq!(emu.execute_with(0x8F06, 0), Ok(()));
    assert_eq!(emu.registers()[0xF], 1);
    assert_eq!(emu.execute_with(0x6F02, 0), Ok(()));
    assert_eq!(emu.execute_with(0x8F0E, 0), Ok(()));
    assert_eq!(emu.registers()[0xF], 0);
    assert_eq!(emu.execute_with(0x6F01, 0), Ok(()));
    assert_eq!(emu.execute_with(0x8F15, 0), Ok(()));
    assert_eq!(emu.registers()[0xF], 0);
}

#[test]
fn add_immediate_wraps_without_touching_flag() {
    let mut emu = machine_holding(250, 0);
    assert_eq!(emu.execute_with(0x6F07, 0), Ok(()));
    assert_eq!(emu.execute_with(0x710A, 0), Ok(()));
    assert_eq!(emu.registers()[1], 4);
    assert_eq!(emu.registers()[0xF], 7);
    assert_eq!(emu.execute_with(0x7101, 0), Ok(()));
    assert_eq!(emu.registers()[1], 5);
}

#[test]
fn load_move_and_bitwise_instructions() {
    let mut emu = machine_holding(0b1100_1010, 0b1010_0110);
    assert_eq!(emu.execute_with(0x8310, 0), Ok(()));
    assert_eq!(emu.registers()[3], 0b1100_1010);
    assert_eq!(emu.execute_with(0x8321, 0), Ok(()));
    assert_eq!(emu.registers()[3], 0b1110_1110);
    assert_eq!(emu.execute_with(0x8410, 0), Ok(()));
    assert_eq!(emu.execute_with(0x8422, 0), Ok(()));
    assert_eq!(emu.registers()[4], 0b1000_0010);
    assert_eq!(emu.execute_with(0x8510, 0), Ok(()));
    assert_eq!(emu.execute_with(0x8523, 0), Ok(()));
    assert_eq!(emu.registers()[5], 0b0110_1100);
    assert_eq!(emu.registers()[1], 0b1100_1010);
    assert_eq!(emu.registers()[2], 0b1010_0110);
    assert_eq!(emu.registers()[0xF], 0);
}

#[test]
fn arithmetic_helpers_give_exact_values() {
    assert_eq!(wrapping_sum(250, 10), 4);
    assert_eq!(wrapping_sum(1, 2), 3);
    assert_eq!(add_with_carry(200, 100), (44, 1));
    assert_eq!(add_with_carry(128, 127), (255, 0));
    assert_eq!(add_with_carry(128, 128), (0, 1));
    assert_eq!(sub_with_borrow(5, 10), (251, 0));
    assert_eq!(sub_with_borrow(10, 10), (0, 1));
    assert_eq!(sub_with_borrow(0, 255), (1, 0));
    assert_eq!(shift_right(0x03), (0x01, 1));
    assert_eq!(shift_right(0x80), (0x40, 0));
    assert_eq!(shift_left(0x81), (0x02, 1));
    assert_eq!(shift_left(0x7F), (0xFE, 0));
    assert_eq!(make_word(0x12, 0x34), 0x1234);
    assert_eq!(make_word(0xFF, 0x00), 0xFF00);
    assert_eq!(make_word(0x00, 0xFF), 0x00FF);
}

#[test]
fn random_byte_is_masked_by_the_immediate() {
    let mut emu = Emulator::new();
    assert_eq!(emu.execute_with(0xC1F0, 0xAB), Ok(()));
    assert_eq!(emu.registers()[1], 0xA0);
    assert_eq!(emu.execute_with(0xC10F, 0xAB), Ok(()));
    assert_eq!(emu.registers()[1], 0x0B);
    assert_eq!(emu.execute_with(0xC1FF, 0xAB), Ok(()));
    assert_eq!(emu.registers()[1], 0xAB);
    for _ in 0..200 {
        assert_eq!(emu.execute(0xC20F), Ok(()));
        assert!(emu.registers()[2] <= 0x0F);
        assert_eq!(emu.execute(0xC300), Ok(()));
        assert_eq!(emu.registers()[3], 0);
    }
    assert_eq!(emu.pc(), 0x200);
}

#[test]
fn random_instruction_draws_different_bytes() {
    let mut emu = Emulator::new();
    let mut seen = [false; 256];
    for _ in 0..400 {
        assert_eq!(emu.execute(0xC0FF), Ok(()));
        seen[emu.registers()[0] as usize] = true;
    }
    assert!(seen.iter().filter(|hit| **hit).count() > 1);
}

#[test]
fn random_cycle_uses_the_generator_only_for_its_own_instruction() {
    let mut emu = Emulator::new();
    assert_eq!(emu.load(&[0xC5, 0x00, 0x65, 0x2A, 0xC5, 0x03]), Ok(()));
    assert_eq!(emu.tick(), Ok(()));
    assert_eq!(emu.registers()[5], 0);
    assert_eq!(emu.tick(), Ok(()));
    assert_eq!(emu.registers()[5], 0x2A);
    assert_eq!(emu.tick(), Ok(()));
    assert!(emu.registers()[5] <= 3);
    assert_eq!(emu.pc(), 0x206);
}
