use trashgb::cpu::{Cpu, State};
use trashgb::registers::Flags;

/// A CPU past the bootstrap, with a 32 KiB cartridge holding `code` at 0x0100 and `extra`
/// pieces elsewhere, PC at 0x0100.
fn machine(code: &[u8], extra: &[(usize, &[u8])]) -> Cpu {
    let mut rom = vec![0u8; 0x8000];
    rom[0x100..0x100 + code.len()].copy_from_slice(code);
    for (at, bytes) in extra {
        rom[*at..*at + bytes.len()].copy_from_slice(bytes);
    }
    let mut cpu = Cpu::new();
    cpu.mmu.load_game(&rom).unwrap();
    cpu.mmu.write_byte(0xFF50, 1);
    cpu.pc = 0x100;
    cpu
}

#[test]
fn new_cpu_starts_at_zero() {
    let cpu = Cpu::new();
    assert_eq!((cpu.pc, cpu.sp, cpu.ime), (0, 0, false));
    assert_eq!(cpu.state, State::Running);
}

#[test]
fn call_ret_round_trip() {
    let mut cpu = machine(&[0x31, 0xFE, 0xFF, 0xCD, 0x00, 0x02, 0x18, 0xFE], &[(0x200, &[0xC9])]);
    let mut steps = 0;
    while cpu.pc != 0x0106 && steps < 10 {
        cpu.step();
        steps += 1;
    }
    assert_eq!(steps, 3);
    assert_eq!(cpu.sp, 0xFFFE);
    assert_eq!(cpu.pc, 0x0106);
    assert_eq!(cpu.mmu.read_word(0xFFFC), 0x0106);
    assert_eq!(cpu.step(), 3);
    assert_eq!(cpu.pc, 0x0106);
}

#[test]
fn push_then_pop_af_restores_a_and_flags() {
    // LD SP,FFFE; PUSH AF; LD A,00; POP AF
    let mut cpu = machine(&[0x31, 0xFE, 0xFF, 0xF5, 0x3E, 0x00, 0xF1], &[]);
    cpu.registers.a = 0x5C;
    cpu.registers.flags = Flags { zero: true, subtract: false, half_carry: true, carry: false };
    for _ in 0..4 {
        cpu.step();
    }
    assert_eq!(cpu.registers.a, 0x5C);
    assert_eq!(
        cpu.registers.flags,
        Flags { zero: true, subtract: false, half_carry: true, carry: false }
    );
    assert_eq!(cpu.mmu.read_byte(0xFFFC), 0xA0);
    assert_eq!(cpu.sp, 0xFFFE);
}

#[test]
fn inc_dec_through_memory() {
    // LD HL,C000; INC (HL); INC (HL); DEC (HL)
    let mut cpu = machine(&[0x21, 0x00, 0xC0, 0x34, 0x34, 0x35], &[]);
    for _ in 0..4 {
        cpu.step();
    }
    assert_eq!(cpu.mmu.read_byte(0xC000), 1);
    assert!(cpu.registers.flags.subtract);
}

#[test]
fn loads_with_post_increment() {
    // LD HL,C000; LD A,7; LD (HL+),A; LD (HL-),A; LD A,(HL+)
    let mut cpu = machine(&[0x21, 0x00, 0xC0, 0x3E, 0x07, 0x22, 0x32, 0x2A], &[]);
    for _ in 0..5 {
        cpu.step();
    }
    assert_eq!(cpu.mmu.read_byte(0xC000), 7);
    assert_eq!(cpu.mmu.read_byte(0xC001), 7);
    assert_eq!(cpu.registers.a, 7);
    assert_eq!((cpu.registers.h, cpu.registers.l), (0xC0, 0x01));
}

#[test]
fn cb_prefixed_bit_operations() {
    // LD B,0; SET 3,B; BIT 3,B; RES 3,B; SWAP A
    let mut cpu = machine(&[0x06, 0x00, 0xCB, 0xD8, 0xCB, 0x58, 0xCB, 0x98, 0xCB, 0x37], &[]);
    cpu.registers.a = 0x12;
    cpu.step();
    assert_eq!(cpu.step(), 2);
    assert_eq!(cpu.registers.b, 0x08);
    cpu.step();
    assert!(!cpu.registers.flags.zero);
    cpu.step();
    assert_eq!(cpu.registers.b, 0x00);
    cpu.step();
    assert_eq!(cpu.registers.a, 0x21);
    assert_eq!(cpu.pc, 0x10A);
}

#[test]
fn conditional_jumps_cost_more_when_taken() {
    // XOR A; JR NZ,+2; JP Z,0200
    let mut cpu = machine(&[0xAF, 0x20, 0x02, 0xCA, 0x00, 0x02], &[]);
    assert_eq!(cpu.step(), 1);
    assert_eq!(cpu.step(), 2);
    assert_eq!(cpu.pc, 0x103);
    assert_eq!(cpu.step(), 4);
    assert_eq!(cpu.pc, 0x200);
}

#[test]
fn relative_jump_backwards_and_rst() {
    // JR -2 loops on itself; RST 38 at 0x0200
    let mut cpu = machine(&[0x18, 0xFE], &[(0x200, &[0xFF])]);
    cpu.step();
    assert_eq!(cpu.pc, 0x100);
    cpu.sp = 0xD000;
    cpu.pc = 0x200;
    assert_eq!(cpu.step(), 4);
    assert_eq!(cpu.pc, 0x38);
    assert_eq!(cpu.mmu.read_word(0xCFFE), 0x201);
}

#[test]
fn ei_enables_after_the_next_instruction_and_halt_keeps_it() {
    // EI; HALT
    let mut cpu = machine(&[0xFB, 0x76], &[]);
    cpu.step();
    assert_eq!(cpu.state, State::Ime);
    assert!(!cpu.ime);
    cpu.step();
    assert_eq!(cpu.state, State::Halted);
    assert!(cpu.ime);
}

#[test]
fn di_and_unassigned_opcode() {
    // DI; unassigned D3
    let mut cpu = machine(&[0xF3, 0xD3], &[]);
    cpu.ime = true;
    cpu.step();
    assert!(!cpu.ime);
    assert_eq!(cpu.step(), 1);
    assert_eq!(cpu.pc, 0x102);
}

#[test]
fn stack_pointer_arithmetic() {
    // LD SP,C000; ADD SP,-1; LD HL,SP+2; LD SP,HL; LD (C100),SP
    let mut cpu = machine(&[0x31, 0x00, 0xC0, 0xE8, 0xFF, 0xF8, 0x02, 0xF9, 0x08, 0x00, 0xC1], &[]);
    for _ in 0..5 {
        cpu.step();
    }
    assert_eq!(cpu.sp, 0xC001);
    assert_eq!(cpu.mmu.read_word(0xC100), 0xC001);
}

#[test]
fn high_page_loads() {
    // LD A,42; LDH (80),A; LD C,81; LD (C),A; LD A,0; LDH A,(80); LD (C100),A; LD A,(C100)
    let code = [
        0x3E, 0x42, 0xE0, 0x80, 0x0E, 0x81, 0xE2, 0x3E, 0x00, 0xF0, 0x80, 0xEA, 0x00, 0xC1, 0xFA,
        0x00, 0xC1,
    ];
    let mut cpu = machine(&code, &[]);
    for _ in 0..8 {
        cpu.step();
    }
    assert_eq!(cpu.mmu.read_byte(0xFF81), 0x42);
    assert_eq!(cpu.mmu.read_byte(0xC100), 0x42);
    assert_eq!(cpu.registers.a, 0x42);
}

#[test]
fn skipping_the_bootstrap_sets_the_handoff_state() {
    let mut cpu = Cpu::new();
    cpu.mmu.load_game(&vec![0u8; 0x8000]).unwrap();
    cpu.skip_bootstrap();
    let r = &cpu.registers;
    assert_eq!((r.a, r.flags.to_u8()), (0x01, 0xB0));
    assert_eq!((r.b, r.c, r.d, r.e, r.h, r.l), (0x00, 0x13, 0x00, 0xD8, 0x01, 0x4D));
    assert_eq!((cpu.sp, cpu.pc), (0xFFFE, 0x0100));
    assert_eq!(cpu.mmu.read_byte(0xFF50), 0xFF);
}

#[test]
fn push_af_and_pop_af_cycle_counts() {
    let mut cpu = machine(&[0xF5, 0xF1], &[]);
    cpu.sp = 0xD000;
    cpu.registers.a = 0x9A;
    cpu.registers.flags = Flags { zero: false, subtract: true, half_carry: false, carry: true };
    assert_eq!(cpu.step(), 4);
    assert_eq!(cpu.mmu.read_byte(0xCFFE), 0x50);
    assert_eq!(cpu.mmu.read_byte(0xCFFF), 0x9A);
    assert_eq!(cpu.step(), 3);
    assert_eq!((cpu.sp, cpu.pc, cpu.registers.a), (0xD000, 0x102, 0x9A));
}
