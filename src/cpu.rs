use crate::alu::{
    add16, add_hl_r16, add_sp8, add_sp_imm8, alu, alu_op, bit_b3_r8, cpl, daa, daa8, dec8,
    dec_r8, inc8, inc_r8, mask, res_b3_r8, set_b3_r8, shift, shift_op, signed,
};
use crate::mmu::{hi_of, lo_of, next_addr, MemState, Mmu};
use crate::registers::{
    hi_byte, lemma_flags_round_trip, lo_byte, make_word, split_word, word, Flags, R16mem, R16stk,
    Registers, R16, R8,
};
use vstd::prelude::*;

verus! {

/// Running; Halted until an interrupt is pending; or Ime, running with the interrupt master
/// enable to be switched on before the next instruction (after EI and RETI).
#[derive(Clone, Copy, Debug, PartialEq, Eq, Structural)]
pub enum State {
    Running,
    Halted,
    Ime,
}

/// The processor, with the memory it drives.
pub struct Cpu {
    pub registers: Registers,
    pub pc: u16,
    pub sp: u16,
    pub mmu: Mmu,
    pub ime: bool,
    pub state: State,
}

/// The whole machine as the contracts see it.
pub struct CpuState {
    pub regs: Registers,
    pub pc: u16,
    pub sp: u16,
    pub ime: bool,
    pub state: State,
    pub mem: MemState,
}

impl View for Cpu {
    type V = CpuState;

    open spec fn view(&self) -> CpuState {
        CpuState {
            regs: self.registers,
            pc: self.pc,
            sp: self.sp,
            ime: self.ime,
            state: self.state,
            mem: self.mmu@,
        }
    }
}

/// An integer taken modulo 2^16.
pub open spec fn w16(x: int) -> u16 {
    (x % 65536) as u16
}

impl CpuState {
    pub open spec fn wf(self) -> bool {
        self.mem.wf()
    }

    /// The byte `k` places after PC.
    pub open spec fn byte_at(self, k: int) -> u8 {
        self.mem.read(w16(self.pc + k))
    }

    /// The little-endian word after the opcode.
    pub open spec fn imm16(self) -> u16 {
        self.mem.read_word(w16(self.pc + 1))
    }

    /// An 8-bit operand: a register, or the byte at HL for `M`.
    pub open spec fn get8(self, r: R8) -> u8 {
        if r == R8::M {
            self.mem.read(self.regs.hl())
        } else {
            self.regs.reg(r)
        }
    }

    pub open spec fn set8(self, r: R8, v: u8) -> CpuState {
        if r == R8::M {
            CpuState { mem: self.mem.write(self.regs.hl(), v), ..self }
        } else {
            CpuState { regs: self.regs.with_reg(r, v), ..self }
        }
    }

    pub open spec fn with_flags(self, f: Flags) -> CpuState {
        CpuState { regs: Registers { flags: f, ..self.regs }, ..self }
    }

    pub open spec fn with_a(self, a: u8) -> CpuState {
        CpuState { regs: Registers { a, ..self.regs }, ..self }
    }

    pub open spec fn jump(self, target: int) -> CpuState {
        CpuState { pc: w16(target), ..self }
    }

    /// PC moved past an instruction of `n` bytes.
    pub open spec fn skip(self, n: int) -> CpuState {
        self.jump(self.pc + n)
    }

    /// SP lowered by two and `v` written there.
    pub open spec fn push(self, v: u16) -> CpuState {
        let sp = w16(self.sp - 2);
        CpuState { sp, mem: self.mem.write_word(sp, v), ..self }
    }

    /// The word at SP, and the state with SP raised by two.
    pub open spec fn pop(self) -> (CpuState, u16) {
        (CpuState { sp: w16(self.sp + 2), ..self }, self.mem.read_word(self.sp))
    }

    /// The address that an `R16mem` operand points at.
    pub open spec fn mem_addr(self, r: R16mem) -> u16 {
        match r {
            R16mem::BC => word(self.regs.b, self.regs.c),
            R16mem::DE => word(self.regs.d, self.regs.e),
            _ => self.regs.hl(),
        }
    }

    /// HL stepped after an HL+ or HL- access.
    pub open spec fn post_step(self, r: R16mem) -> CpuState {
        match r {
            R16mem::HLi => CpuState {
                regs: self.regs.with_pair(R16::HL, w16(self.regs.hl() + 1)),
                ..self
            },
            R16mem::HLd => CpuState {
                regs: self.regs.with_pair(R16::HL, w16(self.regs.hl() - 1)),
                ..self
            },
            _ => self,
        }
    }

    pub open spec fn get16(self, r: R16) -> u16 {
        if r == R16::SP {
            self.sp
        } else {
            self.regs.pair(r)
        }
    }

    pub open spec fn set16(self, r: R16, v: u16) -> CpuState {
        if r == R16::SP {
            CpuState { sp: v, ..self }
        } else {
            CpuState { regs: self.regs.with_pair(r, v), ..self }
        }
    }
}

/// Opcodes 00-3F.
pub open spec fn block0(s: CpuState, op: u8) -> (CpuState, u8) {
    let f = s.regs.flags;
    let a = s.regs.a;
    if op == 0x00 {
        (s.skip(1), 1)
    } else if op == 0x10 {
        (s.skip(2), 1)
    } else if op == 0x08 {
        (CpuState { mem: s.mem.write_word(s.imm16(), s.sp), ..s }.skip(3), 5)
    } else if op == 0x18 {
        (s.jump(s.pc + 2 + signed(s.byte_at(1))), 3)
    } else if op % 8 == 0 {
        if f.condition((op / 8 % 4) as u8) {
            (s.jump(s.pc + 2 + signed(s.byte_at(1))), 3)
        } else {
            (s.skip(2), 2)
        }
    } else if op % 16 == 1 {
        (s.set16(R16::decode(op / 16), s.imm16()).skip(3), 3)
    } else if op % 16 == 2 {
        let r = R16mem::decode(op / 16);
        (CpuState { mem: s.mem.write(s.mem_addr(r), a), ..s }.post_step(r).skip(1), 2)
    } else if op % 16 == 10 {
        let r = R16mem::decode(op / 16);
        (s.with_a(s.mem.read(s.mem_addr(r))).post_step(r).skip(1), 2)
    } else if op % 16 == 3 {
        let r = R16::decode(op / 16);
        (s.set16(r, w16(s.get16(r) + 1)).skip(1), 2)
    } else if op % 16 == 11 {
        let r = R16::decode(op / 16);
        (s.set16(r, w16(s.get16(r) - 1)).skip(1), 2)
    } else if op % 16 == 9 {
        let (v, f2) = add16(s.regs.hl(), s.get16(R16::decode(op / 16)), f);
        (s.set16(R16::HL, v).with_flags(f2).skip(1), 2)
    } else if op % 8 == 4 {
        let r = R8::decode(op / 8);
        let (v, f2) = inc8(s.get8(r), f);
        (s.set8(r, v).with_flags(f2).skip(1), 1)
    } else if op % 8 == 5 {
        let r = R8::decode(op / 8);
        let (v, f2) = dec8(s.get8(r), f);
        (s.set8(r, v).with_flags(f2).skip(1), 1)
    } else if op % 8 == 6 {
        (s.set8(R8::decode(op / 8), s.byte_at(1)).skip(2), 2)
    } else if op < 0x20 {
        // RLCA, RRCA, RLA, RRA: the CB rotations of A with Z always cleared.
        let (v, f2) = shift((op / 8) as u8, a, f);
        (s.with_a(v).with_flags(Flags { zero: false, ..f2 }).skip(1), 1)
    } else if op == 0x27 {
        let (v, f2) = daa8(a, f);
        (s.with_a(v).with_flags(f2).skip(1), 1)
    } else if op == 0x2F {
        let f2 = Flags { subtract: true, half_carry: true, ..f };
        (s.with_a((255 - a) as u8).with_flags(f2).skip(1), 1)
    } else if op == 0x37 {
        (s.with_flags(Flags { carry: true, subtract: false, half_carry: false, ..f }).skip(1), 1)
    } else {
        let f2 = Flags { carry: !f.carry, subtract: false, half_carry: false, ..f };
        (s.with_flags(f2).skip(1), 1)
    }
}

/// Opcodes 40-BF: HALT, LD r8,r8 and the accumulator operations on an r8.
pub open spec fn block12(s: CpuState, op: u8) -> (CpuState, u8) {
    if op == 0x76 {
        (CpuState { state: State::Halted, ime: s.ime || s.state == State::Ime, ..s }.skip(1), 1)
    } else if op < 0x80 {
        (s.set8(R8::decode(op / 8), s.get8(R8::decode(op))).skip(1), 1)
    } else {
        let (v, f2) = alu((op / 8 % 8) as u8, s.regs.a, s.get8(R8::decode(op)), s.regs.flags);
        (s.with_a(v).with_flags(f2).skip(1), 1)
    }
}

/// The CB-prefixed opcodes: rotates and shifts, BIT, RES, SET.
pub open spec fn prefixed(s: CpuState) -> (CpuState, u8) {
    let cb = s.byte_at(1);
    let r = R8::decode(cb);
    let v = s.get8(r);
    let i = (cb / 8 % 8) as u8;
    let f = s.regs.flags;
    if cb < 0x40 {
        let (v2, f2) = shift(i, v, f);
        (s.set8(r, v2).with_flags(f2).skip(2), 2)
    } else if cb < 0x80 {
        let f2 = Flags { zero: v & mask(i) == 0, subtract: false, half_carry: true, ..f };
        (s.with_flags(f2).skip(2), 2)
    } else if cb < 0xC0 {
        (s.set8(r, v & !mask(i)).skip(2), 2)
    } else {
        (s.set8(r, v | mask(i)).skip(2), 2)
    }
}

/// Whether an opcode of C0-FF is a jump, call, return or restart.
pub open spec fn is_flow(op: u8) -> bool {
    op % 8 == 7 || op == 0xC3 || op == 0xCD || op == 0xC9 || op == 0xD9 || (op < 0xE0 && (op % 8
        == 2 || op % 8 == 4 || op % 8 == 0))
}

/// RST, JP, CALL, RET and RETI, with their conditional forms; a condition that holds costs the
/// extra cycles.
pub open spec fn flow(s: CpuState, op: u8) -> (CpuState, u8) {
    let cond = s.regs.flags.condition((op / 8 % 4) as u8);
    if op % 8 == 7 {
        (s.push(w16(s.pc + 1)).jump(op - 0xC7), 4)
    } else if op == 0xC3 {
        (s.jump(s.imm16() as int), 4)
    } else if op == 0xCD {
        (s.push(w16(s.pc + 3)).jump(s.imm16() as int), 6)
    } else if op == 0xC9 {
        let (s2, t) = s.pop();
        (s2.jump(t as int), 4)
    } else if op == 0xD9 {
        let (s2, t) = s.pop();
        (CpuState { state: State::Ime, ..s2 }.jump(t as int), 4)
    } else if op % 8 == 2 {
        if cond {
            (s.jump(s.imm16() as int), 4)
        } else {
            (s.skip(3), 3)
        }
    } else if op % 8 == 4 {
        if cond {
            (s.push(w16(s.pc + 3)).jump(s.imm16() as int), 6)
        } else {
            (s.skip(3), 3)
        }
    } else {
        if cond {
            let (s2, t) = s.pop();
            (s2.jump(t as int), 5)
        } else {
            (s.skip(1), 2)
        }
    }
}

/// POP (opcodes x1) and PUSH (opcodes x5); AF goes through the packed flag byte.
pub open spec fn stack(s: CpuState, op: u8) -> (CpuState, u8) {
    if op % 16 == 1 {
        let (s2, v) = s.pop();
        let s3 = if op == 0xF1 {
            s2.with_a(hi_byte(v)).with_flags(Flags::unpack(lo_byte(v)))
        } else {
            s2.set16(R16::decode((op / 16 % 4) as u8), v)
        };
        (s3.skip(1), 3)
    } else {
        let v = if op == 0xF5 {
            word(s.regs.a, s.regs.flags.byte())
        } else {
            s.regs.pair(R16::decode((op / 16 % 4) as u8))
        };
        (s.push(v).skip(1), 4)
    }
}

/// The loads through FF00+n, FF00+C and an absolute address, the SP arithmetic, JP HL, DI, EI.
/// The unassigned opcodes (D3, DB, DD, E3, E4, EB, EC, ED, F4, FC, FD) are taken as one-byte
/// NOPs.
pub open spec fn misc3(s: CpuState, op: u8) -> (CpuState, u8) {
    let a = s.regs.a;
    if op == 0xE0 {
        (CpuState { mem: s.mem.write(w16(0xFF00 + s.byte_at(1)), a), ..s }.skip(2), 3)
    } else if op == 0xF0 {
        (s.with_a(s.mem.read(w16(0xFF00 + s.byte_at(1)))).skip(2), 3)
    } else if op == 0xE2 {
        (CpuState { mem: s.mem.write(w16(0xFF00 + s.regs.c), a), ..s }.skip(1), 2)
    } else if op == 0xF2 {
        (s.with_a(s.mem.read(w16(0xFF00 + s.regs.c))).skip(1), 2)
    } else if op == 0xEA {
        (CpuState { mem: s.mem.write(s.imm16(), a), ..s }.skip(3), 4)
    } else if op == 0xFA {
        (s.with_a(s.mem.read(s.imm16())).skip(3), 4)
    } else if op == 0xE8 {
        let (v, f2) = add_sp8(s.sp, s.byte_at(1));
        (CpuState { sp: v, ..s }.with_flags(f2).skip(2), 4)
    } else if op == 0xF8 {
        let (v, f2) = add_sp8(s.sp, s.byte_at(1));
        (s.set16(R16::HL, v).with_flags(f2).skip(2), 3)
    } else if op == 0xF9 {
        (CpuState { sp: s.regs.hl(), ..s }.skip(1), 2)
    } else if op == 0xE9 {
        (s.jump(s.regs.hl() as int), 1)
    } else if op == 0xF3 {
        (CpuState { ime: false, state: State::Running, ..s }.skip(1), 1)
    } else if op == 0xFB {
        (CpuState { state: State::Ime, ..s }.skip(1), 1)
    } else {
        (s.skip(1), 1)
    }
}

/// Opcodes C0-FF.
pub open spec fn block3(s: CpuState, op: u8) -> (CpuState, u8) {
    if op == 0xCB {
        prefixed(s)
    } else if op % 8 == 6 {
        let (v, f2) = alu((op / 8 % 8) as u8, s.regs.a, s.byte_at(1), s.regs.flags);
        (s.with_a(v).with_flags(f2).skip(2), 2)
    } else if is_flow(op) {
        flow(s, op)
    } else if op % 16 == 1 || op % 16 == 5 {
        stack(s, op)
    } else {
        misc3(s, op)
    }
}

/// One instruction: the state after it and its cost in M-cycles.
#[verifier::opaque]
pub open spec fn step_spec(s: CpuState) -> (CpuState, u8) {
    let op = s.byte_at(0);
    if op < 0x40 {
        block0(s, op)
    } else if op < 0xC0 {
        block12(s, op)
    } else {
        block3(s, op)
    }
}

/// Work RAM and high RAM: addresses that read back what was written.
pub open spec fn is_ram(a: u16) -> bool {
    (0xC000 <= a < 0xE000) || (0xFF80 <= a < 0xFFFF)
}

/// PUSH AF then POP AF: with the two stack bytes in RAM, A, the flags and SP are as before, and
/// the flag byte that was stacked has a zero low nibble.
pub proof fn lemma_push_pop_af(s: CpuState)
    requires
        s.wf(),
        is_ram(w16(s.sp - 2)),
        is_ram(w16(s.sp - 1)),
    ensures
        stack(stack(s, 0xF5).0, 0xF1).0.regs.a == s.regs.a,
        stack(stack(s, 0xF5).0, 0xF1).0.regs.flags == s.regs.flags,
        stack(stack(s, 0xF5).0, 0xF1).0.sp == s.sp,
        stack(s, 0xF5).0.mem.read(w16(s.sp - 2)) & 0x0F == 0,
{
    let f = s.regs.flags.byte();
    let v = word(s.regs.a, f);
    let sp = w16(s.sp - 2);
    let m = s.mem.write_word(sp, v);
    assert(next_addr(sp) == w16(s.sp - 1));
    assert(m.read(sp) == lo_of(v));
    assert(m.read(next_addr(sp)) == hi_of(v));
    assert(lo_of(v) == f && hi_of(v) == s.regs.a);
    assert(m.read_word(sp) == v);
    lemma_flags_round_trip(s.regs.flags);
}

proof fn lemma_step_stack(s: CpuState)
    requires
        s.byte_at(0) == 0xF5 || s.byte_at(0) == 0xF1,
    ensures
        step_spec(s) == stack(s, s.byte_at(0)),
{
    reveal(step_spec);
}

/// The two instructions PUSH AF; POP AF as the CPU runs them: with the stack bytes in RAM and
/// apart from the POP opcode, they take 4 and 3 M-cycles and leave A, the flags and SP as they
/// were, PC two bytes on, and a stacked flag byte with a zero low nibble.
pub proof fn lemma_push_pop_af_steps(s: CpuState)
    requires
        s.wf(),
        s.byte_at(0) == 0xF5,
        s.byte_at(1) == 0xF1,
        is_ram(w16(s.sp - 2)),
        is_ram(w16(s.sp - 1)),
        w16(s.pc + 1) != w16(s.sp - 2),
        w16(s.pc + 1) != w16(s.sp - 1),
    ensures
        step_spec(s).1 == 4,
        step_spec(step_spec(s).0).1 == 3,
        step_spec(step_spec(s).0).0.regs.a == s.regs.a,
        step_spec(step_spec(s).0).0.regs.flags == s.regs.flags,
        step_spec(step_spec(s).0).0.sp == s.sp,
        step_spec(step_spec(s).0).0.pc == w16(s.pc + 2),
        step_spec(s).0.mem.read(w16(s.sp - 2)) & 0x0F == 0,
        step_spec(s).0.mem.read(w16(s.sp - 1)) == s.regs.a,
{
    lemma_push_pop_af(s);
    lemma_step_stack(s);
    let s1 = stack(s, 0xF5).0;
    assert(s1.pc == w16(s.pc + 1)) by {
        vstd::arithmetic::div_mod::lemma_add_mod_noop(s.pc as int, 1, 65536);
    }
    let sp = w16(s.sp - 2);
    let v = word(s.regs.a, s.regs.flags.byte());
    assert(s1.mem == s.mem.write_word(sp, v));
    assert(next_addr(sp) == w16(s.sp - 1));
    assert(s1.mem.read(w16(s.pc + 1)) == s.mem.read(w16(s.pc + 1)));
    assert(s1.byte_at(0) == 0xF1);
    assert(s1.mem.read(w16(s.sp - 1)) == hi_of(v));
    lemma_step_stack(s1);
    assert(w16(s1.pc + 1) == w16(s.pc + 2)) by {
        vstd::arithmetic::div_mod::lemma_add_mod_noop(s.pc as int + 1, 1, 65536);
    }
}

fn add_wrap(x: u16, k: u16) -> (r: u16)
    ensures
        r == w16(x + k),
{
    ((x as u32 + k as u32) % 65536) as u16
}

fn sub_wrap(x: u16, k: u16) -> (r: u16)
    ensures
        r == w16(x - k),
{
    ((x as u32 + 65536 - k as u32) % 65536) as u16
}

/// PC + `k` + the signed offset `e`, for relative jumps.
fn offset_pc(pc: u16, k: u16, e: u8) -> (r: u16)
    requires
        k <= 2,
    ensures
        r == w16(pc + k + signed(e)),
{
    let adj: u32 = if e >= 128 {
        256
    } else {
        0
    };
    let base = pc as u32 + k as u32 + e as u32 + 65536 - adj;
    proof {
        let x = pc + k + signed(e);
        assert(base == x + 65536);
        vstd::arithmetic::div_mod::lemma_mod_add_multiples_vanish(x, 65536);
    }
    (base % 65536) as u16
}

impl Cpu {
    pub open spec fn wf(&self) -> bool {
        self.mmu.wf()
    }

    /// The state at power-on: PC and SP zero, IME clear, the bootstrap mapped.
    pub fn new() -> (r: Cpu)
        ensures
            r.wf(),
            r.pc == 0 && r.sp == 0 && !r.ime && r.state == State::Running,
            r.registers == Registers::initial(),
            r.mmu@ == MemState::power_on(),
    {
        Cpu {
            registers: Registers::new(),
            pc: 0,
            sp: 0,
            mmu: Mmu::new(),
            ime: false,
            state: State::Running,
        }
    }

    /// The state in which the bootstrap program hands over to the cartridge, for a machine
    /// started without one: AF=01B0, BC=0013, DE=00D8, HL=014D, SP=FFFE, PC=0100, the
    /// bootstrap unmapped.
    pub fn skip_bootstrap(&mut self)
        requires
            old(self).wf(),
        ensures
            final(self).wf(),
            final(self).registers == (Registers {
                a: 0x01,
                b: 0x00,
                c: 0x13,
                d: 0x00,
                e: 0xD8,
                h: 0x01,
                l: 0x4D,
                flags: Flags::unpack(0xB0),
            }),
            final(self).sp == 0xFFFE,
            final(self).pc == 0x0100,
            final(self).ime == old(self).ime,
            final(self).state == old(self).state,
            final(self).mmu@ == old(self).mmu@.write(0xFF50, 0x01),
    {
        self.registers.a = 0x01;
        self.registers.flags.set_from_u8(0xB0);
        self.registers.b = 0x00;
        self.registers.c = 0x13;
        self.registers.d = 0x00;
        self.registers.e = 0xD8;
        self.registers.h = 0x01;
        self.registers.l = 0x4D;
        self.sp = 0xFFFE;
        self.pc = 0x0100;
        self.mmu.write_byte(0xFF50, 0x01);
    }

    fn fetch(&self, k: u16) -> (r: u8)
        requires
            self.wf(),
        ensures
            r == self@.byte_at(k as int),
    {
        self.mmu.read_byte(add_wrap(self.pc, k))
    }

    fn fetch16(&self) -> (r: u16)
        requires
            self.wf(),
        ensures
            r == self@.imm16(),
    {
        self.mmu.read_word(add_wrap(self.pc, 1))
    }

    fn get8(&self, r: R8) -> (v: u8)
        requires
            self.wf(),
        ensures
            v == self@.get8(r),
    {
        match r {
            R8::M => self.mmu.read_byte(make_word(self.registers.h, self.registers.l)),
            R8::A => self.registers.a,
            R8::B => self.registers.b,
            R8::C => self.registers.c,
            R8::D => self.registers.d,
            R8::E => self.registers.e,
            R8::H => self.registers.h,
            R8::L => self.registers.l,
        }
    }

    fn set8(&mut self, r: R8, v: u8)
        requires
            old(self).wf(),
        ensures
            final(self).wf(),
            final(self)@ == old(self)@.set8(r, v),
    {
        if r == R8::M {
            let hl = make_word(self.registers.h, self.registers.l);
            self.mmu.write_byte(hl, v);
        } else {
            self.registers.set_r8(r, v);
        }
    }

    fn get16(&self, r: R16) -> (v: u16)
        ensures
            v == self@.get16(r),
    {
        match r {
            R16::BC => make_word(self.registers.b, self.registers.c),
            R16::DE => make_word(self.registers.d, self.registers.e),
            R16::HL => make_word(self.registers.h, self.registers.l),
            R16::SP => self.sp,
        }
    }

    fn set16(&mut self, r: R16, v: u16)
        requires
            old(self).wf(),
        ensures
            final(self).wf(),
            final(self)@ == old(self)@.set16(r, v),
    {
        if r == R16::SP {
            self.sp = v;
        } else {
            self.registers.set_r16(r, v);
        }
    }

    fn skip(&mut self, n: u16)
        ensures
            final(self)@ == old(self)@.skip(n as int),
            final(self).mmu == old(self).mmu,
    {
        self.pc = add_wrap(self.pc, n);
    }

    fn push(&mut self, v: u16)
        requires
            old(self).wf(),
        ensures
            final(self).wf(),
            final(self)@ == old(self)@.push(v),
    {
        let sp = sub_wrap(self.sp, 2);
        self.mmu.write_word(sp, v);
        self.sp = sp;
    }

    fn pop(&mut self) -> (r: u16)
        requires
            old(self).wf(),
        ensures
            final(self).wf(),
            (final(self)@, r) == old(self)@.pop(),
    {
        let v = self.mmu.read_word(self.sp);
        self.sp = add_wrap(self.sp, 2);
        v
    }

    fn mem_addr(&self, r: R16mem) -> (a: u16)
        ensures
            a == self@.mem_addr(r),
    {
        let (hi, lo) = self.registers.get_r16mem(r);
        make_word(hi, lo)
    }

    fn post_step(&mut self, r: R16mem)
        requires
            old(self).wf(),
        ensures
            final(self).wf(),
            final(self)@ == old(self)@.post_step(r),
    {
        let hl = make_word(self.registers.h, self.registers.l);
        match r {
            R16mem::HLi => self.registers.set_r16(R16::HL, add_wrap(hl, 1)),
            R16mem::HLd => self.registers.set_r16(R16::HL, sub_wrap(hl, 1)),
            _ => {},
        }
    }

    fn exec_block0(&mut self, op: u8) -> (r: u8)
        requires
            old(self).wf(),
            op < 0x40,
        ensures
            final(self).wf(),
            (final(self)@, r) == block0(old(self)@, op),
            1 <= r <= 6,
    {
        let f = self.registers.flags;
        let a = self.registers.a;
        if op == 0x00 {
            self.skip(1);
            1
        } else if op == 0x10 {
            self.skip(2);
            1
        } else if op == 0x08 {
            let addr = self.fetch16();
            self.mmu.write_word(addr, self.sp);
            self.skip(3);
            5
        } else if op == 0x18 {
            let e = self.fetch(1);
            self.pc = offset_pc(self.pc, 2, e);
            3
        } else if op % 8 == 0 {
            if f.get_condition(op / 8 % 4) {
                let e = self.fetch(1);
                self.pc = offset_pc(self.pc, 2, e);
                3
            } else {
                self.skip(2);
                2
            }
        } else if op % 16 == 1 {
            let v = self.fetch16();
            self.set16(R16::from_u8(op / 16), v);
            self.skip(3);
            3
        } else if op % 16 == 2 {
            let r = R16mem::from_u8(op / 16);
            let addr = self.mem_addr(r);
            self.mmu.write_byte(addr, a);
            self.post_step(r);
            self.skip(1);
            2
        } else if op % 16 == 10 {
            let r = R16mem::from_u8(op / 16);
            let addr = self.mem_addr(r);
            self.registers.a = self.mmu.read_byte(addr);
            self.post_step(r);
            self.skip(1);
            2
        } else if op % 16 == 3 {
            let r = R16::from_u8(op / 16);
            let v = self.get16(r);
            self.set16(r, add_wrap(v, 1));
            self.skip(1);
            2
        } else if op % 16 == 11 {
            let r = R16::from_u8(op / 16);
            let v = self.get16(r);
            self.set16(r, sub_wrap(v, 1));
            self.skip(1);
            2
        } else if op % 16 == 9 {
            let v = self.get16(R16::from_u8(op / 16));
            let (hl, f2) = add_hl_r16(self.get16(R16::HL), v, f);
            self.set16(R16::HL, hl);
            self.registers.flags = f2;
            self.skip(1);
            2
        } else if op % 8 == 4 {
            let r = R8::from_u8(op / 8);
            let (v, f2) = inc_r8(self.get8(r), f);
            self.set8(r, v);
            self.registers.flags = f2;
            self.skip(1);
            1
        } else if op % 8 == 5 {
            let r = R8::from_u8(op / 8);
            let (v, f2) = dec_r8(self.get8(r), f);
            self.set8(r, v);
            self.registers.flags = f2;
            self.skip(1);
            1
        } else if op % 8 == 6 {
            let v = self.fetch(1);
            self.set8(R8::from_u8(op / 8), v);
            self.skip(2);
            2
        } else if op < 0x20 {
            let (v, f2) = shift_op(op / 8, a, f);
            self.registers.a = v;
            self.registers.flags = Flags { zero: false, ..f2 };
            self.skip(1);
            1
        } else if op == 0x27 {
            let (v, f2) = daa(a, f);
            self.registers.a = v;
            self.registers.flags = f2;
            self.skip(1);
            1
        } else if op == 0x2F {
            let (v, f2) = cpl(a, f);
            self.registers.a = v;
            self.registers.flags = f2;
            self.skip(1);
            1
        } else if op == 0x37 {
            self.registers.flags = Flags { carry: true, subtract: false, half_carry: false, ..f };
            self.skip(1);
            1
        } else {
            self.registers.flags = Flags {
                carry: !f.carry,
                subtract: false,
                half_carry: false,
                ..f
            };
            self.skip(1);
            1
        }
    }

    fn exec_block12(&mut self, op: u8) -> (r: u8)
        requires
            old(self).wf(),
            0x40 <= op < 0xC0,
        ensures
            final(self).wf(),
            (final(self)@, r) == block12(old(self)@, op),
            1 <= r <= 6,
    {
        if op == 0x76 {
            if self.state == State::Ime {
                self.ime = true;
            }
            self.state = State::Halted;
            self.skip(1);
            1
        } else if op < 0x80 {
            let v = self.get8(R8::from_u8(op));
            self.set8(R8::from_u8(op / 8), v);
            self.skip(1);
            1
        } else {
            let v = self.get8(R8::from_u8(op));
            let (a, f2) = alu_op(op / 8 % 8, self.registers.a, v, self.registers.flags);
            self.registers.a = a;
            self.registers.flags = f2;
            self.skip(1);
            1
        }
    }

    fn exec_prefixed(&mut self) -> (r: u8)
        requires
            old(self).wf(),
        ensures
            final(self).wf(),
            (final(self)@, r) == prefixed(old(self)@),
            1 <= r <= 6,
    {
        let cb = self.fetch(1);
        let r = R8::from_u8(cb);
        let v = self.get8(r);
        let i = cb / 8 % 8;
        let f = self.registers.flags;
        if cb < 0x40 {
            let (v2, f2) = shift_op(i, v, f);
            self.set8(r, v2);
            self.registers.flags = f2;
        } else if cb < 0x80 {
            self.registers.flags = bit_b3_r8(i, v, f);
        } else if cb < 0xC0 {
            self.set8(r, res_b3_r8(i, v));
        } else {
            self.set8(r, set_b3_r8(i, v));
        }
        self.skip(2);
        2
    }

    fn exec_calls(&mut self, op: u8) -> (r: u8)
        requires
            old(self).wf(),
            op >= 0xC0,
            op % 8 == 7 || op == 0xCD || (op < 0xE0 && op % 8 == 4),
        ensures
            final(self).wf(),
            (final(self)@, r) == flow(old(self)@, op),
            1 <= r <= 6,
    {
        if op % 8 == 7 {
            self.push(add_wrap(self.pc, 1));
            self.pc = (op - 0xC7) as u16;
            4
        } else if op == 0xCD || self.registers.flags.get_condition(op / 8 % 4) {
            let target = self.fetch16();
            self.push(add_wrap(self.pc, 3));
            self.pc = target;
            6
        } else {
            self.skip(3);
            3
        }
    }

    fn exec_returns(&mut self, op: u8) -> (r: u8)
        requires
            old(self).wf(),
            op >= 0xC0,
            op == 0xC9 || op == 0xD9 || (op < 0xE0 && op % 8 == 0),
        ensures
            final(self).wf(),
            (final(self)@, r) == flow(old(self)@, op),
            1 <= r <= 6,
    {
        if op == 0xC9 {
            self.pc = self.pop();
            4
        } else if op == 0xD9 {
            self.pc = self.pop();
            self.state = State::Ime;
            4
        } else if self.registers.flags.get_condition(op / 8 % 4) {
            self.pc = self.pop();
            5
        } else {
            self.skip(1);
            2
        }
    }

    fn exec_jumps(&mut self, op: u8) -> (r: u8)
        requires
            old(self).wf(),
            op >= 0xC0,
            is_flow(op),
        ensures
            final(self).wf(),
            (final(self)@, r) == flow(old(self)@, op),
            1 <= r <= 6,
    {
        if op % 8 == 7 || op == 0xCD || (op < 0xE0 && op % 8 == 4) {
            self.exec_calls(op)
        } else if op == 0xC9 || op == 0xD9 || (op < 0xE0 && op % 8 == 0) {
            self.exec_returns(op)
        } else if op == 0xC3 || self.registers.flags.get_condition(op / 8 % 4) {
            self.pc = self.fetch16();
            4
        } else {
            self.skip(3);
            3
        }
    }

    fn exec_block3(&mut self, op: u8) -> (r: u8)
        requires
            old(self).wf(),
            op >= 0xC0,
        ensures
            final(self).wf(),
            (final(self)@, r) == block3(old(self)@, op),
            1 <= r <= 6,
    {
        let f = self.registers.flags;
        let a = self.registers.a;
        if op == 0xCB {
            self.exec_prefixed()
        } else if op % 8 == 6 {
            let v = self.fetch(1);
            let (a2, f2) = alu_op(op / 8 % 8, a, v, f);
            self.registers.a = a2;
            self.registers.flags = f2;
            self.skip(2);
            2
        } else if op % 8 == 7 || op == 0xC3 || op == 0xCD || op == 0xC9 || op == 0xD9 || (op < 0xE0
            && (op % 8 == 2 || op % 8 == 4 || op % 8 == 0)) {
            self.exec_jumps(op)
        } else if op % 16 == 1 || op % 16 == 5 {
            self.exec_stack(op)
        } else {
            self.exec_misc3(op)
        }
    }

    fn exec_stack(&mut self, op: u8) -> (r: u8)
        requires
            old(self).wf(),
            op >= 0xC0,
            op % 16 == 1 || op % 16 == 5,
        ensures
            final(self).wf(),
            (final(self)@, r) == stack(old(self)@, op),
            1 <= r <= 6,
    {
        if op % 16 == 1 {
            let v = self.pop();
            if op == 0xF1 {
                let (hi, lo) = split_word(v);
                self.registers.a = hi;
                self.registers.flags.set_from_u8(lo);
            } else {
                self.set16(R16::from_u8(op / 16 % 4), v);
            }
            self.skip(1);
            3
        } else {
            let (hi, lo) = self.registers.get_r16stk(R16stk::from_u8(op / 16 % 4));
            self.push(make_word(hi, lo));
            self.skip(1);
            4
        }
    }

    #[verifier::rlimit(40)]
    fn exec_misc3(&mut self, op: u8) -> (r: u8)
        requires
            old(self).wf(),
        ensures
            final(self).wf(),
            (final(self)@, r) == misc3(old(self)@, op),
            1 <= r <= 6,
    {
        let a = self.registers.a;
        if op == 0xE0 {
            let n = self.fetch(1);
            self.mmu.write_byte(0xFF00 + n as u16, a);
            self.skip(2);
            3
        } else if op == 0xF0 {
            let n = self.fetch(1);
            self.registers.a = self.mmu.read_byte(0xFF00 + n as u16);
            self.skip(2);
            3
        } else if op == 0xE2 {
            self.mmu.write_byte(0xFF00 + self.registers.c as u16, a);
            self.skip(1);
            2
        } else if op == 0xF2 {
            self.registers.a = self.mmu.read_byte(0xFF00 + self.registers.c as u16);
            self.skip(1);
            2
        } else if op == 0xEA {
            let addr = self.fetch16();
            self.mmu.write_byte(addr, a);
            self.skip(3);
            4
        } else if op == 0xFA {
            let addr = self.fetch16();
            self.registers.a = self.mmu.read_byte(addr);
            self.skip(3);
            4
        } else if op == 0xE8 {
            let e = self.fetch(1);
            let (v, f2) = add_sp_imm8(self.sp, e);
            self.sp = v;
            self.registers.flags = f2;
            self.skip(2);
            4
        } else if op == 0xF8 {
            let e = self.fetch(1);
            let (v, f2) = add_sp_imm8(self.sp, e);
            self.set16(R16::HL, v);
            self.registers.flags = f2;
            self.skip(2);
            3
        } else if op == 0xF9 {
            self.sp = make_word(self.registers.h, self.registers.l);
            self.skip(1);
            2
        } else if op == 0xE9 {
            self.pc = make_word(self.registers.h, self.registers.l);
            1
        } else if op == 0xF3 {
            self.ime = false;
            self.state = State::Running;
            self.skip(1);
            1
        } else if op == 0xFB {
            self.state = State::Ime;
            self.skip(1);
            1
        } else {
            self.skip(1);
            1
        }
    }

    /// Fetches, decodes and executes one instruction; returns its cost in M-cycles.
    pub fn step(&mut self) -> (r: u8)
        requires
            old(self).wf(),
        ensures
            final(self).wf(),
            (final(self)@, r) == step_spec(old(self)@),
            1 <= r <= 6,
    {
        proof {
            reveal(step_spec);
        }
        let op = self.fetch(0);
        if op < 0x40 {
            self.exec_block0(op)
        } else if op < 0xC0 {
            self.exec_block12(op)
        } else {
            self.exec_block3(op)
        }
    }
}

} // verus!
