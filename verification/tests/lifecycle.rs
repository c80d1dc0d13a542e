use chip8_core::consts::{DISPLAY_SIZE, FONTSET, FONTSET_SIZE, NUM_KEYS, NUM_REGS, RAM_SIZE, START_ADDR};
use chip8_core::{Chip8Error, Emulator};

fn machine_with(program: &[u8]) -> Emulator {
    let mut emu = Emulator::new();
    assert_eq!(emu.load(program), Ok(()));
    emu
}

fn assert_power_on_state(emu: &Emulator) {
    assert_eq!(emu.pc(), 0x200);
    assert_eq!(emu.index(), 0);
    assert_eq!(emu.stack_depth(), 0);
    assert_eq!(emu.delay_timer(), 0);
    assert_eq!(emu.sound_timer(), 0);
    assert_eq!(emu.registers(), &[0u8; NUM_REGS]);
    assert_eq!(emu.keys(), &[false; NUM_KEYS]);
    assert!(emu.display().iter().all(|lit| !lit));
    assert_eq!(&emu.memory()[..FONTSET_SIZE], &FONTSET[..]);
    assert!(emu.memory()[FONTSET_SIZE..].iter().all(|byte| *byte == 0));
}

#[test]
fn new_machine_holds_font_and_nothing_else() {
    let emu = Emulator::new();
    assert_power_on_state(&emu);
    assert_eq!(emu.memory().len(), RAM_SIZE);
    assert_eq!(emu.display().len(), DISPLAY_SIZE);
    assert_eq!(START_ADDR, 0x200);
    assert_eq!(emu.memory()[0], 0xF0);
    assert_eq!(emu.memory()[5], 0x20);
    assert_eq!(emu.memory()[79], 0x80);
    assert_eq!(emu.memory()[80], 0x00);
}

#[test]
fn default_machine_is_blank() {
    let emu = Emulator::default();
    assert_eq!(emu.pc(), 0x200);
    assert!(emu.memory().iter().all(|byte| *byte == 0));
    assert!(emu.display().iter().all(|lit| !lit));
    assert_eq!(emu.registers(), &[0u8; NUM_REGS]);
    assert_eq!(emu.stack_depth(), 0);
}

#[test]
fn reset_returns_to_power_on_state() {
    let mut emu = machine_with(&[0x6A, 0x42, 0xA1, 0x23, 0x22, 0x08, 0x00, 0x00, 0xD0, 0x05]);
    emu.set_delay_timer(9);
    emu.set_sound_timer(7);
    assert!(emu.set_key(3, true));
    for _ in 0..4 {
        assert_eq!(emu.tick_with(0), Ok(()));
    }
    assert_eq!(emu.registers()[0xA], 0x42);
    assert_eq!(emu.index(), 0x123);
    assert_eq!(emu.stack_depth(), 1);
    emu.reset();
    assert_power_on_state(&emu);
}

#[test]
fn load_copies_program_to_start_address() {
    let emu = machine_with(&[0xDE, 0xAD, 0xBE, 0xEF]);
    assert_eq!(&emu.memory()[0x200..0x204], &[0xDE, 0xAD, 0xBE, 0xEF]);
    assert_eq!(emu.memory()[0x204], 0);
    assert_eq!(emu.memory()[0x1FF], 0);
    assert_eq!(&emu.memory()[..FONTSET_SIZE], &FONTSET[..]);
    assert_eq!(emu.pc(), 0x200);
}

#[test]
fn load_overwrites_only_the_bytes_of_the_program() {
    let mut emu = machine_with(&[1, 2, 3, 4, 5, 6]);
    assert_eq!(emu.load(&[9, 8]), Ok(()));
    assert_eq!(&emu.memory()[0x200..0x206], &[9, 8, 3, 4, 5, 6]);
}

#[test]
fn load_accepts_program_that_fills_memory() {
    let program = vec![0xAB_u8; RAM_SIZE - 0x200];
    let emu = machine_with(&program);
    assert!(emu.memory()[0x200..].iter().all(|byte| *byte == 0xAB));
    assert_eq!(emu.memory()[0x1FF], 0);
}

#[test]
fn load_accepts_empty_program() {
    let emu = machine_with(&[]);
    assert_power_on_state(&emu);
}

#[test]
fn load_refuses_oversized_program_without_copying() {
    let mut emu = machine_with(&[0x11, 0x22]);
    let program = vec![0xAB_u8; RAM_SIZE - 0x200 + 1];
    assert_eq!(emu.load(&program), Err(Chip8Error::ProgramTooLarge { len: 3585 }));
    assert_eq!(&emu.memory()[0x200..0x203], &[0x11, 0x22, 0x00]);
    assert!(emu.memory()[0x203..].iter().all(|byte| *byte == 0));
}

#[test]
fn fetch_reads_big_endian_word_and_advances() {
    let mut emu = machine_with(&[0x12, 0x34, 0xAB, 0xCD]);
    assert_eq!(emu.fetch(), Ok(0x1234));
    assert_eq!(emu.pc(), 0x202);
    assert_eq!(emu.fetch(), Ok(0xABCD));
    assert_eq!(emu.pc(), 0x204);
    assert_eq!(emu.fetch(), Ok(0x0000));
    assert_eq!(emu.pc(), 0x206);
}

#[test]
fn fetch_reads_last_word_of_memory() {
    let mut program = vec![0_u8; RAM_SIZE - 0x200];
    program[RAM_SIZE - 0x200 - 2] = 0x60;
    program[RAM_SIZE - 0x200 - 1] = 0x07;
    let mut emu = machine_with(&program);
    assert_eq!(emu.execute_with(0x1FFE, 0), Ok(()));
    assert_eq!(emu.fetch(), Ok(0x6007));
    assert_eq!(emu.pc(), 0x1000);
    assert_eq!(emu.fetch(), Err(Chip8Error::MemoryOutOfBounds { address: 0x1000 }));
    assert_eq!(emu.pc(), 0x1000);
}

#[test]
fn fetch_refuses_word_that_straddles_end_of_memory() {
    let mut emu = Emulator::new();
    assert_eq!(emu.execute_with(0x1FFF, 0), Ok(()));
    assert_eq!(emu.fetch(), Err(Chip8Error::MemoryOutOfBounds { address: 0xFFF }));
    assert_eq!(emu.pc(), 0xFFF);
    assert_eq!(emu.tick(), Err(Chip8Error::MemoryOutOfBounds { address: 0xFFF }));
    assert_eq!(emu.pc(), 0xFFF);
}

#[test]
fn fetch_reads_below_the_start_address() {
    let mut emu = Emulator::new();
    assert_eq!(emu.execute_with(0x1000, 0), Ok(()));
    assert_eq!(emu.fetch(), Ok(0xF090));
    assert_eq!(emu.pc(), 0x002);
    assert_eq!(emu.fetch(), Ok(0x9090));
    assert_eq!(emu.pc(), 0x004);
    assert_eq!(emu.execute_with(0x11FE, 0), Ok(()));
    assert_eq!(emu.fetch(), Ok(0x0000));
    assert_eq!(emu.pc(), 0x200);
}

#[test]
fn cycle_runs_below_the_start_address() {
    let mut emu = Emulator::new();
    assert_eq!(emu.execute_with(0x1100, 0), Ok(()));
    assert_eq!(emu.tick(), Ok(()));
    assert_eq!(emu.pc(), 0x102);
}

#[test]
fn cycle_skips_on_a_word_found_in_the_font() {
    let mut emu = Emulator::new();
    assert_eq!(&emu.memory()[38..40], &[0x40, 0x40]);
    assert_eq!(emu.execute_with(0x1026, 0), Ok(()));
    assert_eq!(emu.tick(), Ok(()));
    assert_eq!(emu.pc(), 42);
    assert_eq!(emu.execute_with(0x6040, 0), Ok(()));
    assert_eq!(emu.execute_with(0x1026, 0), Ok(()));
    assert_eq!(emu.tick(), Ok(()));
    assert_eq!(emu.pc(), 40);
    assert_eq!(emu.registers()[0], 0x40);
    assert_eq!(emu.stack_depth(), 0);
}

#[test]
fn call_found_in_the_font_returns_to_the_next_word() {
    let mut emu = Emulator::new();
    assert_eq!(&emu.memory()[5..7], &[0x20, 0x60]);
    assert_eq!(emu.execute_with(0x1005, 0), Ok(()));
    assert_eq!(emu.tick(), Ok(()));
    assert_eq!((emu.pc(), emu.stack_depth()), (0x060, 1));
    assert_eq!(emu.execute(0x00EE), Ok(()));
    assert_eq!((emu.pc(), emu.stack_depth()), (7, 0));
}

#[test]
fn program_clears_loads_adds_and_jumps() {
    let mut emu = machine_with(&[0x00, 0xE0, 0x60, 0x05, 0x70, 0x03, 0x12, 0x00]);
    assert_eq!(emu.tick(), Ok(()));
    assert_eq!(emu.tick(), Ok(()));
    assert_eq!(emu.tick(), Ok(()));
    assert_eq!(emu.registers()[0], 8);
    assert_eq!(emu.pc(), 0x206);
    assert_eq!(emu.tick(), Ok(()));
    assert_eq!(emu.pc(), 0x200);
    assert_eq!(emu.registers()[0], 8);
}

#[test]
fn jump_to_own_address_loops_forever() {
    let mut emu = machine_with(&[0x00, 0xE0, 0x60, 0x05, 0x70, 0x03, 0x12, 0x06]);
    for _ in 0..3 {
        assert_eq!(emu.tick(), Ok(()));
    }
    assert_eq!(emu.registers()[0], 8);
    assert_eq!(emu.pc(), 0x206);
    for _ in 0..100 {
        assert_eq!(emu.tick(), Ok(()));
        assert_eq!(emu.pc(), 0x206);
        assert_eq!(emu.registers()[0], 8);
    }
}

#[test]
fn timers_count_down_to_zero_and_stay() {
    let mut emu = Emulator::new();
    emu.set_delay_timer(3);
    emu.set_sound_timer(2);
    assert!(emu.sound_active());
    assert!(!emu.tick_timers());
    assert_eq!((emu.delay_timer(), emu.sound_timer()), (2, 1));
    assert!(emu.tick_timers());
    assert_eq!((emu.delay_timer(), emu.sound_timer()), (1, 0));
    assert!(!emu.sound_active());
    assert!(!emu.tick_timers());
    assert_eq!((emu.delay_timer(), emu.sound_timer()), (0, 0));
    assert!(!emu.tick_timers());
    assert_eq!((emu.delay_timer(), emu.sound_timer()), (0, 0));
}

#[test]
fn tone_ends_once_when_sound_timer_starts_at_one() {
    let mut emu = Emulator::new();
    emu.set_sound_timer(1);
    let first = emu.tick_timers();
    let second = emu.tick_timers();
    assert_eq!(emu.sound_timer(), 0);
    assert!(first);
    assert!(!second);
}

#[test]
fn timers_wrap_nowhere_from_full() {
    let mut emu = Emulator::new();
    emu.set_delay_timer(255);
    emu.set_sound_timer(255);
    let mut edges = 0;
    for _ in 0..300 {
        if emu.tick_timers() {
            edges += 1;
        }
    }
    assert_eq!(edges, 1);
    assert_eq!((emu.delay_timer(), emu.sound_timer()), (0, 0));
}

#[test]
fn instructions_leave_timers_and_keys_alone() {
    let mut emu = machine_with(&[0x60, 0x05, 0x80, 0x04, 0xD0, 0x05, 0x22, 0x00]);
    emu.set_delay_timer(10);
    emu.set_sound_timer(20);
    assert!(emu.set_key(0xF, true));
    for _ in 0..4 {
        assert_eq!(emu.tick(), Ok(()));
    }
    assert_eq!(emu.delay_timer(), 10);
    assert_eq!(emu.sound_timer(), 20);
    let mut keys = [false; NUM_KEYS];
    keys[0xF] = true;
    assert_eq!(emu.keys(), &keys);
}

#[test]
fn keys_are_set_and_released_by_the_host() {
    let mut emu = Emulator::new();
    assert!(emu.set_key(0, true));
    assert!(emu.set_key(7, true));
    assert!(emu.keys()[0] && emu.keys()[7]);
    assert_eq!(emu.keys().iter().filter(|held| **held).count(), 2);
    assert!(emu.set_key(0, false));
    assert!(!emu.keys()[0] && emu.keys()[7]);
    assert!(!emu.set_key(16, true));
    assert_eq!(emu.keys().iter().filter(|held| **held).count(), 1);
}
