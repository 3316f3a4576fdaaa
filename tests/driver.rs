use trashgb::cpu::{Cpu, State};

fn machine(code: &[u8], extra: &[(usize, &[u8])]) -> Cpu {
    let mut rom = vec![0u8; 0x8000];
    rom[0x100..0x100 + code.len()].copy_from_slice(code);
    for (at, bytes) in extra {
        rom[*at..*at + bytes.len()].copy_from_slice(bytes);
    }
    let mut cpu = Cpu::new();
    cpu.mmu.load_game(&rom).unwrap();
    cpu.mmu.write_byte(0xFF50, 1);
    cpu.pc = 0x100;
    cpu.sp = 0xFFFE;
    cpu
}

#[test]
fn bootstrap_handoff() {
    // A stand-in for the boot program: it sets the registers the cartridge expects, then
    // unmaps itself with its last instruction, so that the next fetch is at 0x0100.
    let program = [
        0x31, 0xFE, 0xFF, 0x01, 0xB0, 0x01, 0xC5, 0xF1, 0x01, 0x13, 0x00, 0x11, 0xD8, 0x00, 0x21,
        0x4D, 0x01, 0xE0, 0x50,
    ];
    let mut boot = vec![0u8; 0x100];
    boot[0x100 - program.len()..].copy_from_slice(&program);
    let mut cpu = Cpu::new();
    cpu.mmu.set_bootstrap(&boot);
    cpu.mmu.load_game(&vec![0u8; 0x8000]).unwrap();
    let mut ticks = 0;
    while cpu.pc != 0x100 && ticks < 1000 {
        cpu.tick();
        ticks += 1;
    }
    assert_eq!(cpu.pc, 0x100);
    let r = &cpu.registers;
    assert_eq!((r.a, r.flags.to_u8()), (0x01, 0xB0));
    assert_eq!((r.b, r.c, r.d, r.e, r.h, r.l), (0x00, 0x13, 0x00, 0xD8, 0x01, 0x4D));
    assert_eq!(cpu.sp, 0xFFFE);
    assert_eq!(cpu.mmu.read_byte(0xFF50), 0xFF);
    let mut frame = vec![0u8; 92160];
    assert!(cpu.game_loop(&mut frame));
    assert_eq!(cpu.mmu.read_byte(0xFF0F) & 0x01, 0x01);
    assert_eq!(cpu.mmu.read_byte(0xFF44), 0);
}

#[test]
fn timer_interrupt_cadence() {
    // NOPs everywhere; the timer handler at 0x0050 is RETI.
    let mut cpu = machine(&[], &[(0x50, &[0xD9])]);
    cpu.mmu.write_byte(0xFF06, 0xFE);
    cpu.mmu.write_byte(0xFF05, 0xFE);
    cpu.mmu.write_byte(0xFFFF, 0x04);
    cpu.mmu.write_byte(0xFF0F, 0x00);
    cpu.ime = true;
    cpu.mmu.write_byte(0xFF04, 0);
    cpu.mmu.write_byte(0xFF07, 0x05);
    let mut elapsed = 0u32;
    let mut entries = Vec::new();
    while entries.len() < 3 {
        elapsed += cpu.tick();
        if cpu.pc == 0x50 {
            entries.push(elapsed);
        }
    }
    assert_eq!(entries, vec![8, 16, 24]);
}

#[test]
fn joypad_wakes_halt_without_service_when_ime_clear() {
    let mut cpu = machine(&[0x76, 0x00], &[]);
    cpu.mmu.write_byte(0xFFFF, 0x10);
    cpu.tick();
    assert_eq!(cpu.state, State::Halted);
    assert_eq!(cpu.tick(), 1);
    assert_eq!(cpu.state, State::Halted);
    cpu.mmu.joypad_a(true);
    assert_eq!(cpu.tick(), 1);
    assert_eq!(cpu.state, State::Running);
    assert_eq!(cpu.pc, 0x101);
    cpu.tick();
    assert_eq!(cpu.pc, 0x102);
}

#[test]
fn joypad_interrupt_is_serviced_when_ime_set() {
    let mut cpu = machine(&[0x76, 0x00], &[]);
    cpu.mmu.write_byte(0xFFFF, 0x10);
    cpu.ime = true;
    cpu.tick();
    cpu.mmu.joypad_a(true);
    cpu.tick();
    assert_eq!(cpu.pc, 0x60);
    assert!(!cpu.ime);
    assert_eq!(cpu.mmu.read_word(cpu.sp), 0x101);
    assert_eq!(cpu.mmu.read_byte(0xFF0F) & 0x10, 0);
}

#[test]
fn vblank_has_priority_over_timer() {
    let mut cpu = machine(&[], &[]);
    cpu.mmu.write_byte(0xFFFF, 0x05);
    cpu.mmu.write_byte(0xFF0F, 0x05);
    cpu.ime = true;
    cpu.service_interrupts();
    assert_eq!(cpu.pc, 0x40);
    assert_eq!(cpu.mmu.read_byte(0xFF0F), 0xE4);
}

#[test]
fn a_frame_draws_and_counts_lines() {
    // JR -2 forever.
    let mut cpu = machine(&[0x18, 0xFE], &[]);
    for row in 0..8u16 {
        cpu.mmu.write_byte(0x8000 + 2 * row, 0xFF);
    }
    cpu.mmu.write_byte(0xFF47, 0xE4);
    cpu.mmu.write_byte(0xFF40, 0x91);
    cpu.mmu.write_byte(0xFF45, 10);
    cpu.mmu.write_byte(0xFF41, 0x40);
    let mut frame = vec![9u8; 92160];
    assert!(cpu.game_loop(&mut frame));
    assert_eq!(&frame[0..4], &[172, 212, 144, 255]);
    assert_eq!(&frame[92156..92160], &[172, 212, 144, 255]);
    assert_eq!(cpu.mmu.read_byte(0xFF0F) & 0x03, 0x03);
    assert_eq!(cpu.mmu.read_byte(0xFF44), 0);
    assert_eq!(cpu.pc, 0x100);
}

#[test]
fn a_frame_is_17556_m_cycles() {
    // NOPs from 0x0100 on: every line runs exactly 114 one-cycle instructions.
    let mut cpu = machine(&[], &[]);
    cpu.mmu.write_byte(0xFF04, 0);
    let mut frame = vec![0u8; 92160];
    cpu.game_loop(&mut frame);
    assert_eq!(cpu.pc, 0x100 + 17556);
    // 70,224 T-cycles on the 16-bit counter: 0x1_1250, so DIV reads 0x12.
    assert_eq!(cpu.mmu.read_byte(0xFF04), 0x12);
}
