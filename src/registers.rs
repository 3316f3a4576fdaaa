use vstd::prelude::*;

verus! {

/// The 3-bit 8-bit operand of an opcode: a register, or `M`, the byte that HL points at.
#[derive(Clone, Copy, Debug, PartialEq, Eq, Structural)]
pub enum R8 {
    B,
    C,
    D,
    E,
    H,
    L,
    M,
    A,
}

impl R8 {
    /// The operand named by the low three bits of `value`.
    pub open spec fn decode(value: u8) -> R8 {
        let k = value & 7;
        if k == 0 {
            R8::B
        } else if k == 1 {
            R8::C
        } else if k == 2 {
            R8::D
        } else if k == 3 {
            R8::E
        } else if k == 4 {
            R8::H
        } else if k == 5 {
            R8::L
        } else if k == 6 {
            R8::M
        } else {
            R8::A
        }
    }

    pub fn from_u8(value: u8) -> (r: R8)
        ensures
            r == R8::decode(value),
    {
        let k = value & 7;
        if k == 0 {
            R8::B
        } else if k == 1 {
            R8::C
        } else if k == 2 {
            R8::D
        } else if k == 3 {
            R8::E
        } else if k == 4 {
            R8::H
        } else if k == 5 {
            R8::L
        } else if k == 6 {
            R8::M
        } else {
            R8::A
        }
    }
}

/// The 2-bit 16-bit operand of arithmetic and immediate loads.
#[derive(Clone, Copy, Debug, PartialEq, Eq, Structural)]
pub enum R16 {
    BC,
    DE,
    HL,
    SP,
}

impl R16 {
    pub open spec fn decode(value: u8) -> R16 {
        if value == 0 {
            R16::BC
        } else if value == 1 {
            R16::DE
        } else if value == 2 {
            R16::HL
        } else {
            R16::SP
        }
    }

    pub fn from_u8(value: u8) -> (r: R16)
        requires
            value < 4,
        ensures
            r == R16::decode(value),
    {
        if value == 0 {
            R16::BC
        } else if value == 1 {
            R16::DE
        } else if value == 2 {
            R16::HL
        } else {
            R16::SP
        }
    }
}

/// The 2-bit register pair of PUSH and POP.
#[derive(Clone, Copy, Debug, PartialEq, Eq, Structural)]
pub enum R16stk {
    BC,
    DE,
    HL,
    AF,
}

impl R16stk {
    pub open spec fn decode(value: u8) -> R16stk {
        if value == 0 {
            R16stk::BC
        } else if value == 1 {
            R16stk::DE
        } else if value == 2 {
            R16stk::HL
        } else {
            R16stk::AF
        }
    }

    pub fn from_u8(value: u8) -> (r: R16stk)
        requires
            value < 4,
        ensures
            r == R16stk::decode(value),
    {
        if value == 0 {
            R16stk::BC
        } else if value == 1 {
            R16stk::DE
        } else if value == 2 {
            R16stk::HL
        } else {
            R16stk::AF
        }
    }
}

/// The 2-bit memory pointer of `LD (r16), A` and `LD A, (r16)`; HLi and HLd step HL after the
/// access.
#[derive(Clone, Copy, Debug, PartialEq, Eq, Structural)]
pub enum R16mem {
    BC,
    DE,
    HLi,
    HLd,
}

impl R16mem {
    pub open spec fn decode(value: u8) -> R16mem {
        if value == 0 {
            R16mem::BC
        } else if value == 1 {
            R16mem::DE
        } else if value == 2 {
            R16mem::HLi
        } else {
            R16mem::HLd
        }
    }

    pub fn from_u8(value: u8) -> (r: R16mem)
        requires
            value < 4,
        ensures
            r == R16mem::decode(value),
    {
        if value == 0 {
            R16mem::BC
        } else if value == 1 {
            R16mem::DE
        } else if value == 2 {
            R16mem::HLi
        } else {
            R16mem::HLd
        }
    }
}

/// The four condition flags.
#[derive(Clone, Copy, Debug, PartialEq, Eq, Structural)]
pub struct Flags {
    pub zero: bool,
    pub subtract: bool,
    pub half_carry: bool,
    pub carry: bool,
}

/// Z in bit 7, N in bit 6, HC in bit 5, C in bit 4, low nibble zero.
pub open spec fn pack_flags(z: bool, n: bool, h: bool, c: bool) -> u8 {
    ((if z { 0x80int } else { 0 }) + (if n { 0x40int } else { 0 }) + (if h { 0x20int } else { 0 })
        + (if c { 0x10int } else { 0 })) as u8
}

impl Flags {
    /// The condition of a 2-bit condition code: NZ, Z, NC, C.
    pub open spec fn condition(self, code: u8) -> bool {
        if code == 0 {
            !self.zero
        } else if code == 1 {
            self.zero
        } else if code == 2 {
            !self.carry
        } else {
            self.carry
        }
    }

    pub open spec fn byte(self) -> u8 {
        pack_flags(self.zero, self.subtract, self.half_carry, self.carry)
    }

    /// The flags held in bits 7 to 4 of `value`.
    pub open spec fn unpack(value: u8) -> Flags {
        Flags {
            zero: value & 0x80 != 0,
            subtract: value & 0x40 != 0,
            half_carry: value & 0x20 != 0,
            carry: value & 0x10 != 0,
        }
    }

    pub fn get_condition(&self, flag: u8) -> (r: bool)
        requires
            flag < 4,
        ensures
            r == self.condition(flag),
    {
        if flag == 0 {
            !self.zero
        } else if flag == 1 {
            self.zero
        } else if flag == 2 {
            !self.carry
        } else {
            self.carry
        }
    }

    pub fn to_u8(&self) -> (r: u8)
        ensures
            r == self.byte(),
    {
        let z: u8 = if self.zero { 0x80 } else { 0 };
        let n: u8 = if self.subtract { 0x40 } else { 0 };
        let h: u8 = if self.half_carry { 0x20 } else { 0 };
        let c: u8 = if self.carry { 0x10 } else { 0 };
        z + n + h + c
    }

    pub fn set_from_u8(&mut self, value: u8)
        ensures
            *final(self) == Flags::unpack(value),
    {
        self.zero = value & 0x80 != 0;
        self.subtract = value & 0x40 != 0;
        self.half_carry = value & 0x20 != 0;
        self.carry = value & 0x10 != 0;
    }
}

/// Packing the flags and reading them back gives the same flags, and the low nibble of the
/// packed byte is zero.
pub proof fn lemma_flags_round_trip(f: Flags)
    ensures
        Flags::unpack(f.byte()) == f,
        f.byte() & 0x0F == 0,
{
    let (z, n, h, c) = (f.zero, f.subtract, f.half_carry, f.carry);
    let zb: u8 = if z { 0x80 } else { 0 };
    let nb: u8 = if n { 0x40 } else { 0 };
    let hb: u8 = if h { 0x20 } else { 0 };
    let cb: u8 = if c { 0x10 } else { 0 };
    assert(f.byte() == zb | nb | hb | cb) by {
        assert((zb == 0 || zb == 0x80) && (nb == 0 || nb == 0x40) && (hb == 0 || hb == 0x20) && (
        cb == 0 || cb == 0x10) ==> zb + nb + hb + cb == zb | nb | hb | cb) by (bit_vector);
    }
    assert((zb == 0 || zb == 0x80) && (nb == 0 || nb == 0x40) && (hb == 0 || hb == 0x20) && (cb
        == 0 || cb == 0x10) ==> (((zb | nb | hb | cb) & 0x80 != 0) == (zb == 0x80) && ((zb | nb
        | hb | cb) & 0x40 != 0) == (nb == 0x40) && ((zb | nb | hb | cb) & 0x20 != 0) == (hb
        == 0x20) && ((zb | nb | hb | cb) & 0x10 != 0) == (cb == 0x10) && (zb | nb | hb | cb)
        & 0x0F == 0)) by (bit_vector);
}

/// What an 8-bit operand resolves to: the value of a register, or the address in HL.
#[derive(Clone, Copy, Debug, PartialEq, Eq, Structural)]
pub enum R8OrMem {
    R8(u8),
    Ptr(u16),
}

/// What a 16-bit operand resolves to: the (high, low) bytes of a register pair, or SP.
#[derive(Clone, Copy, Debug, PartialEq, Eq, Structural)]
pub enum R16OrSP {
    R16(u8, u8),
    SP,
}

/// The eight byte registers and the flags.
#[derive(Clone, Copy, Debug, PartialEq, Eq, Structural)]
pub struct Registers {
    pub a: u8,
    pub b: u8,
    pub c: u8,
    pub d: u8,
    pub e: u8,
    pub h: u8,
    pub l: u8,
    pub flags: Flags,
}

pub open spec fn word(hi: u8, lo: u8) -> u16 {
    (hi as int * 256 + lo as int) as u16
}

pub open spec fn hi_byte(v: u16) -> u8 {
    (v as int / 256) as u8
}

pub open spec fn lo_byte(v: u16) -> u8 {
    (v as int % 256) as u8
}

pub fn make_word(hi: u8, lo: u8) -> (r: u16)
    ensures
        r == word(hi, lo),
{
    (hi as u16) * 256 + (lo as u16)
}

pub fn split_word(v: u16) -> (r: (u8, u8))
    ensures
        r == (hi_byte(v), lo_byte(v)),
        word(r.0, r.1) == v,
{
    ((v / 256) as u8, (v % 256) as u8)
}

impl Registers {
    pub open spec fn hl(self) -> u16 {
        word(self.h, self.l)
    }

    /// The register that `r` names; `M` has no register.
    pub open spec fn reg(self, r: R8) -> u8 {
        match r {
            R8::A => self.a,
            R8::B => self.b,
            R8::C => self.c,
            R8::D => self.d,
            R8::E => self.e,
            R8::H => self.h,
            R8::L => self.l,
            R8::M => 0,
        }
    }

    pub open spec fn with_reg(self, r: R8, v: u8) -> Registers {
        match r {
            R8::A => Registers { a: v, ..self },
            R8::B => Registers { b: v, ..self },
            R8::C => Registers { c: v, ..self },
            R8::D => Registers { d: v, ..self },
            R8::E => Registers { e: v, ..self },
            R8::H => Registers { h: v, ..self },
            R8::L => Registers { l: v, ..self },
            R8::M => self,
        }
    }

    /// The value of a register pair (SP excluded).
    pub open spec fn pair(self, r: R16) -> u16 {
        match r {
            R16::BC => word(self.b, self.c),
            R16::DE => word(self.d, self.e),
            _ => word(self.h, self.l),
        }
    }

    pub open spec fn with_pair(self, r: R16, v: u16) -> Registers {
        match r {
            R16::BC => Registers { b: hi_byte(v), c: lo_byte(v), ..self },
            R16::DE => Registers { d: hi_byte(v), e: lo_byte(v), ..self },
            _ => Registers { h: hi_byte(v), l: lo_byte(v), ..self },
        }
    }

    /// The values the registers hold at power-on.
    pub open spec fn initial() -> Registers {
        Registers {
            a: 100,
            b: 210,
            c: 32,
            d: 41,
            e: 120,
            h: 222,
            l: 11,
            flags: Flags { zero: false, subtract: false, half_carry: false, carry: false },
        }
    }

    pub fn new() -> (r: Registers)
        ensures
            r == Registers::initial(),
    {
        Registers {
            a: 100,
            b: 210,
            c: 32,
            d: 41,
            e: 120,
            h: 222,
            l: 11,
            flags: Flags { zero: false, subtract: false, half_carry: false, carry: false },
        }
    }

    pub fn get_r8(&self, r8: R8) -> (r: R8OrMem)
        ensures
            r == (if r8 == R8::M {
                R8OrMem::Ptr(self.hl())
            } else {
                R8OrMem::R8(self.reg(r8))
            }),
    {
        match r8 {
            R8::A => R8OrMem::R8(self.a),
            R8::B => R8OrMem::R8(self.b),
            R8::C => R8OrMem::R8(self.c),
            R8::D => R8OrMem::R8(self.d),
            R8::E => R8OrMem::R8(self.e),
            R8::H => R8OrMem::R8(self.h),
            R8::L => R8OrMem::R8(self.l),
            R8::M => R8OrMem::Ptr(make_word(self.h, self.l)),
        }
    }

    /// Stores `v` in the register `r8` names; `M` is memory and is left to the caller.
    pub fn set_r8(&mut self, r8: R8, v: u8)
        ensures
            *final(self) == old(self).with_reg(r8, v),
    {
        match r8 {
            R8::A => self.a = v,
            R8::B => self.b = v,
            R8::C => self.c = v,
            R8::D => self.d = v,
            R8::E => self.e = v,
            R8::H => self.h = v,
            R8::L => self.l = v,
            R8::M => {},
        }
    }

    pub fn get_r16(&self, r16: R16) -> (r: R16OrSP)
        ensures
            r == (match r16 {
                R16::BC => R16OrSP::R16(self.b, self.c),
                R16::DE => R16OrSP::R16(self.d, self.e),
                R16::HL => R16OrSP::R16(self.h, self.l),
                R16::SP => R16OrSP::SP,
            }),
    {
        match r16 {
            R16::BC => R16OrSP::R16(self.b, self.c),
            R16::DE => R16OrSP::R16(self.d, self.e),
            R16::HL => R16OrSP::R16(self.h, self.l),
            R16::SP => R16OrSP::SP,
        }
    }

    /// Stores `v` in a register pair; SP lives on the CPU and is left to the caller.
    pub fn set_r16(&mut self, r16: R16, v: u16)
        requires
            r16 != R16::SP,
        ensures
            *final(self) == old(self).with_pair(r16, v),
    {
        let (hi, lo) = split_word(v);
        match r16 {
            R16::BC => {
                self.b = hi;
                self.c = lo;
            },
            R16::DE => {
                self.d = hi;
                self.e = lo;
            },
            _ => {
                self.h = hi;
                self.l = lo;
            },
        }
    }

    /// The (high, low) bytes of the pointer pair; HLi and HLd both read HL.
    pub fn get_r16mem(&self, r16mem: R16mem) -> (r: (u8, u8))
        ensures
            r == (match r16mem {
                R16mem::BC => (self.b, self.c),
                R16mem::DE => (self.d, self.e),
                _ => (self.h, self.l),
            }),
    {
        match r16mem {
            R16mem::BC => (self.b, self.c),
            R16mem::DE => (self.d, self.e),
            R16mem::HLi => (self.h, self.l),
            R16mem::HLd => (self.h, self.l),
        }
    }

    /// The (high, low) bytes that PUSH writes; for AF the low byte is the packed flags.
    pub fn get_r16stk(&self, r16stk: R16stk) -> (r: (u8, u8))
        ensures
            r == (match r16stk {
                R16stk::BC => (self.b, self.c),
                R16stk::DE => (self.d, self.e),
                R16stk::HL => (self.h, self.l),
                R16stk::AF => (self.a, self.flags.byte()),
            }),
    {
        match r16stk {
            R16stk::BC => (self.b, self.c),
            R16stk::DE => (self.d, self.e),
            R16stk::HL => (self.h, self.l),
            R16stk::AF => (self.a, self.flags.to_u8()),
        }
    }
}

} // verus!
