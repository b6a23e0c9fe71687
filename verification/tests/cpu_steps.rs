use gb_core::cpu::{UndefinedOpcode, CPU};

fn cpu_with_program(pc: u16, program: &[u8]) -> CPU {
    let mut cpu = CPU::new();
    cpu.registers.pc = pc;
    cpu.registers.sp = 0xfffe;
    for (i, byte) in program.iter().enumerate() {
        cpu.bus.cart_rom[pc as usize + i] = *byte;
    }
    cpu
}

fn high_ram(cpu: &CPU, addr: u16) -> u8 {
    cpu.bus.high_ram[(addr - 0xff80) as usize]
}

#[test]
fn load_immediate_then_add_immediate() {
    let mut cpu = cpu_with_program(0x0100, &[0x3e, 0x05, 0xc6, 0x03]);
    assert_eq!(cpu.execute(), Ok(()));
    assert_eq!(cpu.registers.a, 5);
    assert_eq!(cpu.registers.pc, 0x0102);
    assert_eq!(cpu.execute(), Ok(()));
    assert_eq!(cpu.registers.a, 8);
    assert!(!cpu.registers.get_z_flag());
    assert!(!cpu.registers.get_n_flag());
    assert!(!cpu.registers.get_h_flag());
    assert!(!cpu.registers.get_c_flag());
    assert_eq!(cpu.registers.pc, 0x0104);
    // One tick for each of the four bytes fetched, and nothing else.
    assert_eq!(cpu.tick_count, 4);
    // The timer has made one tick per bus tick.
    assert_eq!(cpu.bus.timer.divider_counter, 4);
}

#[test]
fn add_carries_out_of_bit_three() {
    let mut cpu = cpu_with_program(0x0100, &[0xc6, 0x01]);
    cpu.registers.a = 0x0f;
    assert_eq!(cpu.execute(), Ok(()));
    assert_eq!(cpu.registers.a, 0x10);
    assert!(cpu.registers.get_h_flag());
    assert!(!cpu.registers.get_c_flag());
    assert!(!cpu.registers.get_z_flag());
    assert!(!cpu.registers.get_n_flag());
}

#[test]
fn call_pushes_return_address() {
    let mut cpu = cpu_with_program(0x0150, &[0xcd, 0x00, 0x02]);
    cpu.registers.sp = 0xfffe;
    assert_eq!(cpu.execute(), Ok(()));
    assert_eq!(high_ram(&cpu, 0xfffc), 0x53);
    assert_eq!(high_ram(&cpu, 0xfffd), 0x01);
    assert_eq!(cpu.registers.sp, 0xfffc);
    assert_eq!(cpu.registers.pc, 0x0200);
    assert_eq!(cpu.tick_count, 6);
}

#[test]
fn timer_interrupt_is_serviced() {
    let mut cpu = cpu_with_program(0x0123, &[0x00]);
    cpu.ctx.interrupt_flag = 0x04;
    cpu.ctx.interrupt_enable = 0x04;
    cpu.interrupt_master_enable = true;
    assert_eq!(cpu.execute(), Ok(()));
    assert_eq!(cpu.ctx.interrupt_flag & 0x04, 0);
    assert!(!cpu.interrupt_master_enable);
    assert_eq!(cpu.registers.pc, 0x0050);
    assert_eq!(cpu.registers.sp, 0xfffc);
    assert_eq!(high_ram(&cpu, 0xfffc), 0x23);
    assert_eq!(high_ram(&cpu, 0xfffd), 0x01);
    assert_eq!(cpu.tick_count, 5);
}

#[test]
fn lowest_pending_interrupt_goes_first() {
    let mut cpu = cpu_with_program(0x0100, &[0x00]);
    cpu.ctx.interrupt_flag = 0x1f;
    cpu.ctx.interrupt_enable = 0x1a;
    cpu.interrupt_master_enable = true;
    assert_eq!(cpu.execute(), Ok(()));
    // LCD-STAT is the lowest bit that is both requested and enabled.
    assert_eq!(cpu.registers.pc, 0x0048);
    assert_eq!(cpu.ctx.interrupt_flag, 0x1d);
    assert!(!cpu.interrupt_master_enable);
    // With the master enable off the next step runs an instruction.
    cpu.bus.cart_rom[0x48] = 0x00;
    assert_eq!(cpu.execute(), Ok(()));
    assert_eq!(cpu.registers.pc, 0x0049);
    assert_eq!(cpu.ctx.interrupt_flag, 0x1d);
}

#[test]
fn each_interrupt_has_its_handler() {
    for (bit, handler) in [(0u8, 0x40u16), (1, 0x48), (2, 0x50), (3, 0x58), (4, 0x60)] {
        let mut cpu = cpu_with_program(0x0100, &[0x00]);
        cpu.ctx.interrupt_flag = 1 << bit;
        cpu.ctx.interrupt_enable = 0xff;
        cpu.interrupt_master_enable = true;
        assert_eq!(cpu.execute(), Ok(()));
        assert_eq!(cpu.registers.pc, handler);
        assert_eq!(cpu.ctx.interrupt_flag, 0);
    }
}

#[test]
fn upper_interrupt_bits_request_nothing() {
    let mut cpu = cpu_with_program(0x0100, &[0x00]);
    cpu.ctx.interrupt_flag = 0xe0;
    cpu.ctx.interrupt_enable = 0xff;
    cpu.interrupt_master_enable = true;
    assert_eq!(cpu.execute(), Ok(()));
    assert_eq!(cpu.registers.pc, 0x0101);
    assert_eq!(cpu.ctx.interrupt_flag, 0xe0);
    assert!(cpu.interrupt_master_enable);
}

#[test]
fn ei_takes_effect_one_instruction_late() {
    // EI; NOP; NOP
    let mut cpu = cpu_with_program(0x0100, &[0xfb, 0x00, 0x00]);
    cpu.ctx.interrupt_flag = 0x01;
    cpu.ctx.interrupt_enable = 0x01;
    assert_eq!(cpu.execute(), Ok(()));
    assert!(!cpu.interrupt_master_enable);
    assert!(cpu.prev_ei);
    // The instruction after EI still runs with interrupts masked.
    assert_eq!(cpu.execute(), Ok(()));
    assert_eq!(cpu.registers.pc, 0x0102);
    assert!(cpu.interrupt_master_enable);
    assert!(!cpu.prev_ei);
    // Now the pending interrupt is serviced.
    assert_eq!(cpu.execute(), Ok(()));
    assert_eq!(cpu.registers.pc, 0x0040);
    assert!(!cpu.interrupt_master_enable);
}

#[test]
fn reti_enables_interrupts_at_once() {
    let mut cpu = cpu_with_program(0x0100, &[0xd9]);
    cpu.registers.sp = 0xfffc;
    cpu.bus.high_ram[0xfffc - 0xff80] = 0x34;
    cpu.bus.high_ram[0xfffd - 0xff80] = 0x12;
    assert_eq!(cpu.execute(), Ok(()));
    assert_eq!(cpu.registers.pc, 0x1234);
    assert_eq!(cpu.registers.sp, 0xfffe);
    assert!(cpu.interrupt_master_enable);
    assert_eq!(cpu.tick_count, 4);
}

#[test]
fn di_clears_master_enable() {
    let mut cpu = cpu_with_program(0x0100, &[0xf3]);
    cpu.interrupt_master_enable = true;
    assert_eq!(cpu.execute(), Ok(()));
    assert!(!cpu.interrupt_master_enable);
}

#[test]
fn halt_idles_one_tick_per_step() {
    let mut cpu = cpu_with_program(0x0100, &[0x76, 0x00]);
    assert_eq!(cpu.execute(), Ok(()));
    assert!(cpu.is_halt);
    assert_eq!(cpu.tick_count, 1);
    assert_eq!(cpu.execute(), Ok(()));
    assert_eq!(cpu.execute(), Ok(()));
    assert!(cpu.is_halt);
    assert_eq!(cpu.registers.pc, 0x0101);
    assert_eq!(cpu.tick_count, 3);
}

#[test]
fn pending_interrupt_ends_halt_without_service() {
    let mut cpu = cpu_with_program(0x0100, &[0x76, 0x04]);
    assert_eq!(cpu.execute(), Ok(()));
    assert!(cpu.is_halt);
    cpu.ctx.interrupt_flag = 0x10;
    cpu.ctx.interrupt_enable = 0x10;
    // IME is off: the halt ends and the next instruction (INC B) runs.
    assert_eq!(cpu.execute(), Ok(()));
    assert!(!cpu.is_halt);
    assert_eq!(cpu.registers.b, 1);
    assert_eq!(cpu.registers.pc, 0x0102);
    assert_eq!(cpu.ctx.interrupt_flag, 0x10);
}

#[test]
fn interrupt_wakes_and_is_serviced_with_master_enable() {
    let mut cpu = cpu_with_program(0x0100, &[0x76]);
    cpu.interrupt_master_enable = true;
    assert_eq!(cpu.execute(), Ok(()));
    assert!(cpu.is_halt);
    cpu.ctx.interrupt_flag = 0x08;
    cpu.ctx.interrupt_enable = 0x08;
    assert_eq!(cpu.execute(), Ok(()));
    assert!(!cpu.is_halt);
    assert_eq!(cpu.registers.pc, 0x0058);
}

#[test]
fn undefined_opcode_is_reported() {
    for opcode in [0xd3u8, 0xdb, 0xdd, 0xe3, 0xe4, 0xeb, 0xec, 0xed, 0xf4, 0xfc, 0xfd] {
        let mut cpu = cpu_with_program(0x0200, &[opcode]);
        cpu.registers.a = 0x77;
        assert_eq!(cpu.execute(), Err(UndefinedOpcode { opcode, address: 0x0200 }));
        // The machine stands right after the fetch.
        assert_eq!(cpu.registers.pc, 0x0201);
        assert_eq!(cpu.registers.a, 0x77);
        assert_eq!(cpu.tick_count, 1);
    }
}

#[test]
fn stop_does_nothing() {
    let mut cpu = cpu_with_program(0x0100, &[0x10, 0x00]);
    let before = cpu.registers;
    assert_eq!(cpu.execute(), Ok(()));
    assert_eq!(cpu.registers.pc, 0x0101);
    assert_eq!(cpu.registers.a, before.a);
    assert_eq!(cpu.registers.f, before.f);
    assert!(!cpu.is_halt);
    assert_eq!(cpu.tick_count, 1);
}

#[test]
fn conditional_jump_costs_a_tick_only_when_taken() {
    // JP NZ,0x1234 with Z set: not taken.
    let mut cpu = cpu_with_program(0x0100, &[0xc2, 0x34, 0x12]);
    cpu.registers.set_z_flag(true);
    assert_eq!(cpu.execute(), Ok(()));
    assert_eq!(cpu.registers.pc, 0x0103);
    assert_eq!(cpu.tick_count, 3);
    // Taken.
    let mut cpu = cpu_with_program(0x0100, &[0xc2, 0x34, 0x12]);
    assert_eq!(cpu.execute(), Ok(()));
    assert_eq!(cpu.registers.pc, 0x1234);
    assert_eq!(cpu.tick_count, 4);
}

#[test]
fn jump_to_hl_takes_one_tick() {
    let mut cpu = cpu_with_program(0x0100, &[0xe9]);
    cpu.registers.set_hl(0x4321);
    assert_eq!(cpu.execute(), Ok(()));
    assert_eq!(cpu.registers.pc, 0x4321);
    assert_eq!(cpu.tick_count, 1);
}

#[test]
fn relative_jump_goes_both_ways() {
    let mut cpu = cpu_with_program(0x0100, &[0x18, 0x05]);
    assert_eq!(cpu.execute(), Ok(()));
    assert_eq!(cpu.registers.pc, 0x0107);
    assert_eq!(cpu.tick_count, 3);
    let mut cpu = cpu_with_program(0x0100, &[0x18, 0xfe]);
    assert_eq!(cpu.execute(), Ok(()));
    assert_eq!(cpu.registers.pc, 0x0100);
    // JR C with carry clear: not taken, two ticks.
    let mut cpu = cpu_with_program(0x0100, &[0x38, 0x05]);
    assert_eq!(cpu.execute(), Ok(()));
    assert_eq!(cpu.registers.pc, 0x0102);
    assert_eq!(cpu.tick_count, 2);
}

#[test]
fn conditional_call_not_taken() {
    let mut cpu = cpu_with_program(0x0100, &[0xdc, 0x00, 0x02]);
    assert_eq!(cpu.execute(), Ok(()));
    assert_eq!(cpu.registers.pc, 0x0103);
    assert_eq!(cpu.registers.sp, 0xfffe);
    assert_eq!(cpu.tick_count, 3);
}

#[test]
fn return_timing() {
    // RET: opcode, one idle tick, two reads, one more idle tick.
    let mut cpu = cpu_with_program(0x0100, &[0xc9]);
    cpu.registers.sp = 0xfffc;
    cpu.bus.high_ram[0xfffc - 0xff80] = 0x00;
    cpu.bus.high_ram[0xfffd - 0xff80] = 0x20;
    assert_eq!(cpu.execute(), Ok(()));
    assert_eq!(cpu.registers.pc, 0x2000);
    assert_eq!(cpu.registers.sp, 0xfffe);
    assert_eq!(cpu.tick_count, 5);
    // RET Z taken costs the same.
    let mut cpu = cpu_with_program(0x0100, &[0xc8]);
    cpu.registers.sp = 0xfffc;
    cpu.bus.high_ram[0xfffc - 0xff80] = 0x00;
    cpu.bus.high_ram[0xfffd - 0xff80] = 0x20;
    cpu.registers.set_z_flag(true);
    assert_eq!(cpu.execute(), Ok(()));
    assert_eq!(cpu.registers.pc, 0x2000);
    assert_eq!(cpu.tick_count, 5);
    // RET Z not taken: opcode and the idle tick.
    let mut cpu = cpu_with_program(0x0100, &[0xc8]);
    assert_eq!(cpu.execute(), Ok(()));
    assert_eq!(cpu.registers.pc, 0x0101);
    assert_eq!(cpu.tick_count, 2);
}

#[test]
fn rst_calls_fixed_address() {
    let mut cpu = cpu_with_program(0x0100, &[0xef]);
    assert_eq!(cpu.execute(), Ok(()));
    assert_eq!(cpu.registers.pc, 0x0028);
    assert_eq!(cpu.registers.sp, 0xfffc);
    assert_eq!(high_ram(&cpu, 0xfffc), 0x01);
    assert_eq!(high_ram(&cpu, 0xfffd), 0x01);
    assert_eq!(cpu.tick_count, 4);
}

#[test]
fn push_and_pop_af_mask_low_nibble() {
    // PUSH BC; POP AF
    let mut cpu = cpu_with_program(0x0100, &[0xc5, 0xf1]);
    cpu.registers.set_bc(0x12ff);
    assert_eq!(cpu.execute(), Ok(()));
    assert_eq!(cpu.registers.sp, 0xfffc);
    assert_eq!(cpu.tick_count, 4);
    assert_eq!(cpu.execute(), Ok(()));
    assert_eq!(cpu.registers.a, 0x12);
    assert_eq!(cpu.registers.f, 0xf0);
    assert_eq!(cpu.registers.sp, 0xfffe);
    assert_eq!(cpu.tick_count, 7);
}

#[test]
fn store_sp_at_immediate_address() {
    let mut cpu = cpu_with_program(0x0100, &[0x08, 0x00, 0xc0]);
    cpu.registers.sp = 0xabcd;
    assert_eq!(cpu.execute(), Ok(()));
    assert_eq!(cpu.bus.work_ram[0], 0xcd);
    assert_eq!(cpu.bus.work_ram[1], 0xab);
    assert_eq!(cpu.tick_count, 5);
}

#[test]
fn stack_pointer_arithmetic_uses_low_byte_carries() {
    // ADD SP,-1 from 0x0001: value 0x0000, both carries set.
    let mut cpu = cpu_with_program(0x0100, &[0xe8, 0xff]);
    cpu.registers.sp = 0x0001;
    cpu.registers.set_z_flag(true);
    assert_eq!(cpu.execute(), Ok(()));
    assert_eq!(cpu.registers.sp, 0x0000);
    assert!(!cpu.registers.get_z_flag());
    assert!(!cpu.registers.get_n_flag());
    assert!(cpu.registers.get_h_flag());
    assert!(cpu.registers.get_c_flag());
    assert_eq!(cpu.tick_count, 4);
    // LD HL,SP+2 from 0xfffe wraps to 0x0000.
    let mut cpu = cpu_with_program(0x0100, &[0xf8, 0x02]);
    cpu.registers.sp = 0xfffe;
    assert_eq!(cpu.execute(), Ok(()));
    assert_eq!(cpu.registers.get_hl(), 0x0000);
    assert_eq!(cpu.registers.sp, 0xfffe);
    assert!(cpu.registers.get_h_flag());
    assert!(cpu.registers.get_c_flag());
    assert_eq!(cpu.tick_count, 3);
    // LD HL,SP-16 from 0x1000: no carry out of the low byte.
    let mut cpu = cpu_with_program(0x0100, &[0xf8, 0xf0]);
    cpu.registers.sp = 0x1000;
    assert_eq!(cpu.execute(), Ok(()));
    assert_eq!(cpu.registers.get_hl(), 0x0ff0);
    assert!(!cpu.registers.get_h_flag());
    assert!(!cpu.registers.get_c_flag());
}

#[test]
fn add_hl_carries_from_bit_eleven_and_fifteen() {
    let mut cpu = cpu_with_program(0x0100, &[0x09, 0x09]);
    cpu.registers.set_hl(0x0fff);
    cpu.registers.set_bc(0x0001);
    cpu.registers.set_z_flag(true);
    assert_eq!(cpu.execute(), Ok(()));
    assert_eq!(cpu.registers.get_hl(), 0x1000);
    assert!(cpu.registers.get_h_flag());
    assert!(!cpu.registers.get_c_flag());
    assert!(cpu.registers.get_z_flag());
    assert_eq!(cpu.tick_count, 2);
    cpu.registers.set_hl(0xffff);
    assert_eq!(cpu.execute(), Ok(()));
    assert_eq!(cpu.registers.get_hl(), 0x0000);
    assert!(cpu.registers.get_h_flag());
    assert!(cpu.registers.get_c_flag());
}

#[test]
fn sixteen_bit_inc_and_dec_touch_no_flags() {
    let mut cpu = cpu_with_program(0x0100, &[0x03, 0x3b]);
    cpu.registers.set_bc(0xffff);
    cpu.registers.sp = 0x0000;
    cpu.registers.f = 0xf0;
    assert_eq!(cpu.execute(), Ok(()));
    assert_eq!(cpu.registers.get_bc(), 0x0000);
    assert_eq!(cpu.registers.f, 0xf0);
    assert_eq!(cpu.tick_count, 2);
    assert_eq!(cpu.execute(), Ok(()));
    assert_eq!(cpu.registers.sp, 0xffff);
    assert_eq!(cpu.registers.f, 0xf0);
}

#[test]
fn eight_bit_inc_and_dec_keep_carry() {
    // INC A; DEC A; DEC A
    let mut cpu = cpu_with_program(0x0100, &[0x3c, 0x3d, 0x3d]);
    cpu.registers.a = 0xff;
    cpu.registers.set_c_flag(true);
    assert_eq!(cpu.execute(), Ok(()));
    assert_eq!(cpu.registers.a, 0x00);
    assert!(cpu.registers.get_z_flag());
    assert!(cpu.registers.get_h_flag());
    assert!(!cpu.registers.get_n_flag());
    assert!(cpu.registers.get_c_flag());
    assert_eq!(cpu.execute(), Ok(()));
    assert_eq!(cpu.registers.a, 0xff);
    assert!(!cpu.registers.get_z_flag());
    assert!(cpu.registers.get_h_flag());
    assert!(cpu.registers.get_n_flag());
    assert!(cpu.registers.get_c_flag());
    assert_eq!(cpu.execute(), Ok(()));
    assert_eq!(cpu.registers.a, 0xfe);
    assert!(!cpu.registers.get_h_flag());
}

#[test]
fn inc_memory_through_hl() {
    let mut cpu = cpu_with_program(0x0100, &[0x34]);
    cpu.registers.set_hl(0xc010);
    cpu.bus.work_ram[0x10] = 0x0f;
    assert_eq!(cpu.execute(), Ok(()));
    assert_eq!(cpu.bus.work_ram[0x10], 0x10);
    assert!(cpu.registers.get_h_flag());
    assert_eq!(cpu.tick_count, 3);
}

#[test]
fn logic_instructions_set_flags() {
    // AND B; OR B; XOR A
    let mut cpu = cpu_with_program(0x0100, &[0xa0, 0xb0, 0xaf]);
    cpu.registers.a = 0xf0;
    cpu.registers.b = 0x0f;
    cpu.registers.f = 0xf0;
    assert_eq!(cpu.execute(), Ok(()));
    assert_eq!(cpu.registers.a, 0x00);
    assert_eq!(cpu.registers.f, 0xa0);
    assert_eq!(cpu.execute(), Ok(()));
    assert_eq!(cpu.registers.a, 0x0f);
    assert_eq!(cpu.registers.f, 0x00);
    assert_eq!(cpu.execute(), Ok(()));
    assert_eq!(cpu.registers.a, 0x00);
    assert_eq!(cpu.registers.f, 0x80);
}

#[test]
fn compare_sets_flags_like_subtract_and_keeps_a() {
    for a in [0x00u8, 0x10, 0x3c, 0x80, 0xff] {
        for b in [0x00u8, 0x01, 0x0f, 0x3c, 0x40, 0xff] {
            let mut compared = cpu_with_program(0x0100, &[0xfe, b]);
            compared.registers.a = a;
            assert_eq!(compared.execute(), Ok(()));
            let mut subtracted = cpu_with_program(0x0100, &[0xd6, b]);
            subtracted.registers.a = a;
            assert_eq!(subtracted.execute(), Ok(()));
            assert_eq!(compared.registers.f, subtracted.registers.f);
            assert_eq!(compared.registers.a, a);
            assert_eq!(subtracted.registers.a, a.wrapping_sub(b));
        }
    }
}

#[test]
fn add_then_subtract_restores_accumulator() {
    for a in 0..=255u8 {
        for b in [0u8, 1, 0x0f, 0x7f, 0x80, 0xff] {
            let mut cpu = cpu_with_program(0x0100, &[0xc6, b, 0xd6, b]);
            cpu.registers.a = a;
            assert_eq!(cpu.execute(), Ok(()));
            assert_eq!(cpu.execute(), Ok(()));
            assert_eq!(cpu.registers.a, a);
        }
    }
}

#[test]
fn adc_and_sbc_use_the_carry() {
    // ADC A,0xff with carry: 0x00 + 0xff + 1.
    let mut cpu = cpu_with_program(0x0100, &[0xce, 0xff]);
    cpu.registers.set_c_flag(true);
    assert_eq!(cpu.execute(), Ok(()));
    assert_eq!(cpu.registers.a, 0x00);
    assert_eq!(cpu.registers.f, 0xb0);
    // SBC A,0x00 with carry from 0x00: 0xff, borrow everywhere.
    let mut cpu = cpu_with_program(0x0100, &[0xde, 0x00]);
    cpu.registers.set_c_flag(true);
    assert_eq!(cpu.execute(), Ok(()));
    assert_eq!(cpu.registers.a, 0xff);
    assert_eq!(cpu.registers.f, 0x70);
}

#[test]
fn decimal_adjust_after_addition_and_subtraction() {
    // 0x15 + 0x27 = 0x3c, adjusted to 0x42.
    let mut cpu = cpu_with_program(0x0100, &[0xc6, 0x27, 0x27]);
    cpu.registers.a = 0x15;
    assert_eq!(cpu.execute(), Ok(()));
    assert_eq!(cpu.registers.a, 0x3c);
    assert_eq!(cpu.execute(), Ok(()));
    assert_eq!(cpu.registers.a, 0x42);
    assert!(!cpu.registers.get_c_flag());
    assert!(!cpu.registers.get_h_flag());
    // 0x99 + 0x01 = 0x9a, adjusted to 0x00 with carry.
    let mut cpu = cpu_with_program(0x0100, &[0xc6, 0x01, 0x27]);
    cpu.registers.a = 0x99;
    assert_eq!(cpu.execute(), Ok(()));
    assert_eq!(cpu.execute(), Ok(()));
    assert_eq!(cpu.registers.a, 0x00);
    assert!(cpu.registers.get_c_flag());
    assert!(cpu.registers.get_z_flag());
    // 0x42 - 0x15 = 0x2d, adjusted to 0x27; N stays set.
    let mut cpu = cpu_with_program(0x0100, &[0xd6, 0x15, 0x27]);
    cpu.registers.a = 0x42;
    assert_eq!(cpu.execute(), Ok(()));
    assert_eq!(cpu.registers.a, 0x2d);
    assert_eq!(cpu.execute(), Ok(()));
    assert_eq!(cpu.registers.a, 0x27);
    assert!(cpu.registers.get_n_flag());
    assert!(!cpu.registers.get_c_flag());
}

#[test]
fn complement_and_carry_flag_instructions() {
    // CPL; SCF; CCF
    let mut cpu = cpu_with_program(0x0100, &[0x2f, 0x37, 0x3f]);
    cpu.registers.a = 0x35;
    cpu.registers.f = 0x80;
    assert_eq!(cpu.execute(), Ok(()));
    assert_eq!(cpu.registers.a, 0xca);
    assert_eq!(cpu.registers.f, 0xe0);
    assert_eq!(cpu.execute(), Ok(()));
    assert_eq!(cpu.registers.f, 0x90);
    assert_eq!(cpu.execute(), Ok(()));
    assert_eq!(cpu.registers.f, 0x80);
}

#[test]
fn accumulator_rotates_clear_zero() {
    // RLCA on 0x80 gives 0x01 with carry; RLA on 0x80 without carry gives 0.
    let mut cpu = cpu_with_program(0x0100, &[0x07]);
    cpu.registers.a = 0x80;
    cpu.registers.f = 0x80;
    assert_eq!(cpu.execute(), Ok(()));
    assert_eq!(cpu.registers.a, 0x01);
    assert_eq!(cpu.registers.f, 0x10);
    let mut cpu = cpu_with_program(0x0100, &[0x17]);
    cpu.registers.a = 0x80;
    assert_eq!(cpu.execute(), Ok(()));
    assert_eq!(cpu.registers.a, 0x00);
    assert_eq!(cpu.registers.f, 0x10);
    let mut cpu = cpu_with_program(0x0100, &[0x0f]);
    cpu.registers.a = 0x01;
    assert_eq!(cpu.execute(), Ok(()));
    assert_eq!(cpu.registers.a, 0x80);
    assert_eq!(cpu.registers.f, 0x10);
    let mut cpu = cpu_with_program(0x0100, &[0x1f]);
    cpu.registers.a = 0x01;
    cpu.registers.set_c_flag(true);
    assert_eq!(cpu.execute(), Ok(()));
    assert_eq!(cpu.registers.a, 0x80);
    assert_eq!(cpu.registers.f, 0x10);
}

#[test]
fn prefixed_rotate_sets_zero() {
    // RL B on 0x80 without carry: result 0, Z and C set.
    let mut cpu = cpu_with_program(0x0100, &[0xcb, 0x10]);
    cpu.registers.b = 0x80;
    assert_eq!(cpu.execute(), Ok(()));
    assert_eq!(cpu.registers.b, 0x00);
    assert_eq!(cpu.registers.f, 0x90);
    assert_eq!(cpu.registers.pc, 0x0102);
    assert_eq!(cpu.tick_count, 2);
}

#[test]
fn prefixed_shifts_and_swap() {
    let cases: [(u8, u8, u8, u8); 7] = [
        (0x00, 0x85, 0x0b, 0x10), // RLC B
        (0x08, 0x01, 0x80, 0x10), // RRC B
        (0x18, 0x02, 0x01, 0x00), // RR B
        (0x20, 0xc0, 0x80, 0x10), // SLA B
        (0x28, 0x81, 0xc0, 0x10), // SRA B
        (0x30, 0xa5, 0x5a, 0x00), // SWAP B
        (0x38, 0x01, 0x00, 0x90), // SRL B
    ];
    for (opcode, input, output, flags) in cases {
        let mut cpu = cpu_with_program(0x0100, &[0xcb, opcode]);
        cpu.registers.b = input;
        assert_eq!(cpu.execute(), Ok(()));
        assert_eq!(cpu.registers.b, output);
        assert_eq!(cpu.registers.f, flags);
    }
}

#[test]
fn bit_set_and_reset() {
    // BIT 7,H; SET 3,(HL); RES 0,A
    let mut cpu = cpu_with_program(0x0100, &[0xcb, 0x7c, 0xcb, 0xde, 0xcb, 0x87]);
    cpu.registers.set_hl(0xc000);
    cpu.registers.a = 0xff;
    cpu.registers.set_c_flag(true);
    assert_eq!(cpu.execute(), Ok(()));
    assert!(!cpu.registers.get_z_flag());
    assert!(cpu.registers.get_h_flag());
    assert!(!cpu.registers.get_n_flag());
    assert!(cpu.registers.get_c_flag());
    assert_eq!(cpu.execute(), Ok(()));
    assert_eq!(cpu.bus.work_ram[0], 0x08);
    assert_eq!(cpu.tick_count, 2 + 4);
    assert_eq!(cpu.execute(), Ok(()));
    assert_eq!(cpu.registers.a, 0xfe);
    // BIT 0,A now finds the bit clear.
    let mut cpu = cpu_with_program(0x0100, &[0xcb, 0x47]);
    cpu.registers.a = 0xfe;
    assert_eq!(cpu.execute(), Ok(()));
    assert!(cpu.registers.get_z_flag());
}

#[test]
fn loads_through_hl_with_step() {
    // LD (HL+),A; LD A,(HL-)
    let mut cpu = cpu_with_program(0x0100, &[0x22, 0x3a]);
    cpu.registers.set_hl(0xc000);
    cpu.registers.a = 0x5a;
    cpu.bus.work_ram[1] = 0x77;
    assert_eq!(cpu.execute(), Ok(()));
    assert_eq!(cpu.bus.work_ram[0], 0x5a);
    assert_eq!(cpu.registers.get_hl(), 0xc001);
    assert_eq!(cpu.execute(), Ok(()));
    assert_eq!(cpu.registers.a, 0x77);
    assert_eq!(cpu.registers.get_hl(), 0xc000);
    assert_eq!(cpu.tick_count, 4);
}

#[test]
fn loads_through_high_page() {
    // LDH (0x80),A; LD A,(C) with C = 0x80; LD (0xc123),A; LD A,(0xc123)
    let mut cpu =
        cpu_with_program(0x0100, &[0xe0, 0x80, 0xf2, 0xea, 0x23, 0xc1, 0xfa, 0x23, 0xc1]);
    cpu.registers.a = 0x42;
    cpu.registers.c = 0x80;
    assert_eq!(cpu.execute(), Ok(()));
    assert_eq!(cpu.bus.high_ram[0], 0x42);
    assert_eq!(cpu.tick_count, 3);
    cpu.registers.a = 0;
    assert_eq!(cpu.execute(), Ok(()));
    assert_eq!(cpu.registers.a, 0x42);
    assert_eq!(cpu.tick_count, 5);
    assert_eq!(cpu.execute(), Ok(()));
    assert_eq!(cpu.bus.work_ram[0x123], 0x42);
    assert_eq!(cpu.tick_count, 9);
    cpu.registers.a = 0;
    assert_eq!(cpu.execute(), Ok(()));
    assert_eq!(cpu.registers.a, 0x42);
    assert_eq!(cpu.tick_count, 13);
}

#[test]
fn load_sp_from_hl_takes_an_idle_tick() {
    let mut cpu = cpu_with_program(0x0100, &[0xf9]);
    cpu.registers.set_hl(0xd000);
    assert_eq!(cpu.execute(), Ok(()));
    assert_eq!(cpu.registers.sp, 0xd000);
    assert_eq!(cpu.tick_count, 2);
}

#[test]
fn serial_write_is_recorded() {
    // LD A,'H'; LDH (0x01),A; LD A,'i'; LDH (0x01),A
    let mut cpu = cpu_with_program(0x0100, &[0x3e, 0x48, 0xe0, 0x01, 0x3e, 0x69, 0xe0, 0x01]);
    for _ in 0..4 {
        assert_eq!(cpu.execute(), Ok(()));
    }
    assert_eq!(cpu.bus.serial, vec![0x48, 0x69]);
    assert_eq!(cpu.bus.take_serial(), vec![0x48, 0x69]);
    assert!(cpu.bus.serial.is_empty());
}

#[test]
fn program_counter_wraps() {
    let mut cpu = CPU::new();
    cpu.registers.pc = 0xffff;
    cpu.ctx.interrupt_enable = 0x00;
    // 0xffff reads the interrupt enable register: 0x00 is NOP.
    assert_eq!(cpu.execute(), Ok(()));
    assert_eq!(cpu.registers.pc, 0x0000);
}

#[test]
fn flags_low_nibble_stays_zero() {
    let program = [0x3e, 0xff, 0xc6, 0x01, 0x27, 0x2f, 0x37, 0x3f, 0x07, 0xcb, 0x37, 0xc5, 0xf1];
    let mut cpu = cpu_with_program(0x0100, &program);
    cpu.registers.set_bc(0xffff);
    while (cpu.registers.pc as usize) < 0x0100 + program.len() {
        assert_eq!(cpu.execute(), Ok(()));
        assert_eq!(cpu.registers.f & 0x0f, 0);
    }
}

#[test]
fn same_program_runs_the_same_way_twice() {
    let program = [0x3e, 0x07, 0x06, 0x03, 0x80, 0x05, 0x20, 0xfc, 0x76];
    let mut first = cpu_with_program(0x0100, &program);
    let mut second = cpu_with_program(0x0100, &program);
    for _ in 0..40 {
        assert_eq!(first.execute(), Ok(()));
        assert_eq!(second.execute(), Ok(()));
        assert_eq!(first.registers, second.registers);
        assert_eq!(first.tick_count, second.tick_count);
        assert_eq!(first.bus.timer.div, second.bus.timer.div);
    }
    assert_eq!(first.registers.a, 7 + 3 + 2 + 1);
    assert!(first.is_halt);
}

#[test]
fn every_step_takes_between_one_and_six_ticks() {
    for first in 0..=255u8 {
        for second in [0x00u8, 0x06, 0x46, 0x86, 0xc6, 0xfe] {
            let mut cpu = cpu_with_program(0x0100, &[first, second, 0x80]);
            cpu.registers.set_hl(0xc000);
            let _ = cpu.execute();
            assert!(cpu.tick_count >= 1 && cpu.tick_count <= 6);
        }
    }
}

#[test]
fn add_then_subtract_through_hl_restores_accumulator() {
    for a in [0x00u8, 0x01, 0x7f, 0x80, 0xff] {
        for b in [0x00u8, 0x01, 0x0f, 0x80, 0xff] {
            // ADD A,(HL); SUB A,(HL)
            let mut cpu = cpu_with_program(0x0100, &[0x86, 0x96]);
            cpu.registers.set_hl(0xc000);
            cpu.bus.work_ram[0] = b;
            cpu.registers.a = a;
            assert_eq!(cpu.execute(), Ok(()));
            assert_eq!(cpu.registers.a, a.wrapping_add(b));
            assert_eq!(cpu.execute(), Ok(()));
            assert_eq!(cpu.registers.a, a);
            assert!(cpu.registers.get_n_flag());
            assert_eq!(cpu.registers.pc, 0x0102);
        }
    }
}

#[test]
fn compare_changes_only_flags_and_pc() {
    // CP (HL)
    let mut cpu = cpu_with_program(0x0100, &[0xbe]);
    cpu.registers.set_hl(0xc000);
    cpu.registers.set_bc(0x1234);
    cpu.registers.set_de(0x5678);
    cpu.registers.a = 0x3c;
    cpu.bus.work_ram[0] = 0x40;
    let before = cpu.registers;
    assert_eq!(cpu.execute(), Ok(()));
    assert_eq!(cpu.registers.a, 0x3c);
    assert_eq!(cpu.registers.get_bc(), before.get_bc());
    assert_eq!(cpu.registers.get_de(), before.get_de());
    assert_eq!(cpu.registers.get_hl(), before.get_hl());
    assert_eq!(cpu.registers.sp, before.sp);
    assert_eq!(cpu.registers.pc, 0x0101);
    // 0x3c - 0x40: borrow out of bit 7, none into bit 3.
    assert_eq!(cpu.registers.f, 0x50);
    assert_eq!(cpu.bus.work_ram[0], 0x40);
    assert!(cpu.bus.work_ram[1..].iter().all(|b| *b == 0));
    assert!(cpu.bus.high_ram.iter().all(|b| *b == 0));
}

#[test]
fn service_takes_out_one_request_and_keeps_enable() {
    let mut cpu = cpu_with_program(0x0100, &[0x00]);
    cpu.ctx.interrupt_flag = 0xf5;
    cpu.ctx.interrupt_enable = 0x14;
    cpu.interrupt_master_enable = true;
    cpu.registers.set_bc(0x1234);
    cpu.registers.a = 0x56;
    cpu.registers.f = 0xa0;
    assert_eq!(cpu.execute(), Ok(()));
    assert_eq!(cpu.registers.pc, 0x0050);
    assert_eq!(cpu.ctx.interrupt_flag, 0xf1);
    assert_eq!(cpu.ctx.interrupt_enable, 0x14);
    assert_eq!(cpu.registers.get_bc(), 0x1234);
    assert_eq!(cpu.registers.a, 0x56);
    assert_eq!(cpu.registers.f, 0xa0);
    assert_eq!(cpu.tick_count, 5);
}
