use gb_core::cpu::UndefinedOpcode;
use gb_core::emulator::Emulator;

#[test]
fn new_emulator_is_cleared() {
    let emulator = Emulator::new();
    let cpu = emulator.cpu();
    assert_eq!(cpu.registers.pc, 0);
    assert_eq!(cpu.registers.sp, 0);
    assert_eq!(cpu.tick_count, 0);
    assert!(!cpu.interrupt_master_enable);
    assert!(!cpu.is_halt);
    assert!(cpu.bus.cart_rom.iter().all(|b| *b == 0));
}

#[test]
fn init_sets_boot_registers() {
    let mut emulator = Emulator::new();
    emulator.init();
    let regs = emulator.cpu().registers;
    assert_eq!(regs.a, 0x00);
    assert_eq!(regs.f, 0x80);
    assert_eq!(regs.b, 0x00);
    assert_eq!(regs.c, 0x13);
    assert_eq!(regs.d, 0x00);
    assert_eq!(regs.e, 0xd8);
    assert_eq!(regs.h, 0x01);
    assert_eq!(regs.l, 0x4d);
    assert_eq!(regs.sp, 0xfffe);
    assert_eq!(regs.pc, 0x0100);
    assert!(!emulator.cpu().interrupt_master_enable);
    assert!(!emulator.cpu().is_halt);
    assert!(!emulator.cpu().prev_ei);
}

#[test]
fn load_rom_copies_the_image() {
    let mut emulator = Emulator::new();
    let image: Vec<u8> = (0..600u32).map(|i| (i % 251) as u8 + 1).collect();
    emulator.load_rom(&image);
    let rom = &emulator.cpu().bus.cart_rom;
    assert_eq!(&rom[..600], &image[..]);
    assert!(rom[600..].iter().all(|b| *b == 0));
}

#[test]
fn load_rom_takes_a_full_image() {
    let mut emulator = Emulator::new();
    let image = vec![0xa5u8; 32 * 1024];
    emulator.load_rom(&image);
    assert!(emulator.cpu().bus.cart_rom.iter().all(|b| *b == 0xa5));
}

#[test]
fn load_rom_cuts_off_an_oversized_image() {
    let mut emulator = Emulator::new();
    let mut image = vec![0x11u8; 32 * 1024 + 10];
    image[32 * 1024 - 1] = 0x22;
    image[32 * 1024] = 0x33;
    emulator.load_rom(&image);
    let cpu = emulator.cpu();
    assert_eq!(cpu.bus.cart_rom[0], 0x11);
    assert_eq!(cpu.bus.cart_rom[32 * 1024 - 1], 0x22);
    assert!(cpu.bus.cart_ram.iter().all(|b| *b == 0));
    assert!(cpu.bus.work_ram.iter().all(|b| *b == 0));
}

#[test]
fn load_rom_with_empty_image_changes_nothing() {
    let mut emulator = Emulator::new();
    emulator.load_rom(&[1, 2, 3]);
    emulator.load_rom(&[]);
    assert_eq!(&emulator.cpu().bus.cart_rom[..4], &[1, 2, 3, 0]);
}

#[test]
fn a_second_image_overwrites_only_its_own_length() {
    let mut emulator = Emulator::new();
    emulator.load_rom(&[1, 2, 3, 4]);
    emulator.load_rom(&[9, 8]);
    assert_eq!(&emulator.cpu().bus.cart_rom[..5], &[9, 8, 3, 4, 0]);
}

#[test]
fn next_frame_runs_until_the_budget_is_used() {
    // A ROM of NOPs: every step takes one tick.
    let mut emulator = Emulator::new();
    emulator.init();
    assert_eq!(emulator.next_frame(), Ok(()));
    assert_eq!(emulator.cpu().tick_count, 17556);
    assert_eq!(emulator.cpu().registers.pc, 0x0100 + 17556);
    assert_eq!(emulator.next_frame(), Ok(()));
    assert_eq!(emulator.cpu().tick_count, 2 * 17556);
}

#[test]
fn next_frame_ends_with_the_step_that_uses_up_the_budget() {
    // LD BC,0x1234 takes three ticks and JP 0x0100 four: seven ticks per
    // round, and 17556 = 2508 * 7.
    let mut emulator = Emulator::new();
    emulator.init();
    let mut image = vec![0u8; 0x0110];
    image[0x0100..0x0106].copy_from_slice(&[0x01, 0x34, 0x12, 0xc3, 0x00, 0x01]);
    emulator.load_rom(&image);
    assert_eq!(emulator.next_frame(), Ok(()));
    assert_eq!(emulator.cpu().tick_count, 17556);
    assert_eq!(emulator.cpu().registers.pc, 0x0100);
}

#[test]
fn next_frame_charges_the_overshoot_to_the_next_frame() {
    // LD (0xc000),SP takes five ticks, and 17556 is not a multiple of five.
    let mut emulator = Emulator::new();
    emulator.init();
    let mut image = vec![0u8; 0x8000];
    let mut at = 0x0100;
    while at + 3 <= 0x8000 {
        image[at..at + 3].copy_from_slice(&[0x08, 0x00, 0xc0]);
        at += 3;
    }
    emulator.load_rom(&image);
    assert_eq!(emulator.next_frame(), Ok(()));
    // 3512 steps are the first to reach the budget.
    assert_eq!(emulator.cpu().tick_count, 17560);
    assert_eq!(emulator.next_frame(), Ok(()));
    // The four ticks of overshoot count against the second frame.
    assert_eq!(emulator.cpu().tick_count, 2 * 17556 + 3);
}

#[test]
fn next_frame_stops_at_an_undefined_opcode() {
    let mut emulator = Emulator::new();
    emulator.init();
    let mut image = vec![0u8; 0x0200];
    image[0x0105] = 0xd3;
    emulator.load_rom(&image);
    assert_eq!(emulator.next_frame(), Err(UndefinedOpcode { opcode: 0xd3, address: 0x0105 }));
    assert_eq!(emulator.cpu().registers.pc, 0x0106);
    assert_eq!(emulator.cpu().tick_count, 6);
}

#[test]
fn halted_machine_still_uses_its_budget() {
    let mut emulator = Emulator::new();
    emulator.init();
    let mut image = vec![0u8; 0x0200];
    image[0x0100] = 0x76;
    emulator.load_rom(&image);
    assert_eq!(emulator.next_frame(), Ok(()));
    assert!(emulator.cpu().is_halt);
    assert_eq!(emulator.cpu().registers.pc, 0x0101);
    assert_eq!(emulator.cpu().tick_count, 17556);
}

#[test]
fn serial_output_is_handed_out_once() {
    let mut emulator = Emulator::new();
    emulator.init();
    let mut image = vec![0u8; 0x0200];
    // LD A,'A'; LDH (0x01),A; HALT
    image[0x0100..0x0105].copy_from_slice(&[0x3e, 0x41, 0xe0, 0x01, 0x76]);
    emulator.load_rom(&image);
    assert_eq!(emulator.next_frame(), Ok(()));
    assert_eq!(emulator.take_serial(), vec![0x41]);
    assert_eq!(emulator.take_serial(), Vec::<u8>::new());
}

#[test]
fn timer_interrupt_fires_during_frames() {
    let mut emulator = Emulator::new();
    emulator.init();
    let mut image = vec![0u8; 0x0200];
    // 0x0050: INC B; RETI
    image[0x0050..0x0052].copy_from_slice(&[0x04, 0xd9]);
    // LD A,0x04; LDH (0xff),A; LD A,0x05; LDH (0x07),A; EI; JR -2
    image[0x0100..0x010b]
        .copy_from_slice(&[0x3e, 0x04, 0xe0, 0xff, 0x3e, 0x05, 0xe0, 0x07, 0xfb, 0x18, 0xfe]);
    emulator.load_rom(&image);
    assert_eq!(emulator.next_frame(), Ok(()));
    // TIMA overflows every 256 * 16 ticks: four times in the first frame.
    assert_eq!(emulator.cpu().registers.b, 4);
}
