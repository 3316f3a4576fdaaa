use crate::mapper::{Mapper, Mbc1, MAX_RAM_BANKS, MAX_ROM_BANKS};
use crate::ppu::Palette;
use vstd::prelude::*;

verus! {

/// The eight buttons; `true` is pressed.
#[derive(Clone, Copy, Debug, PartialEq, Eq, Structural)]
pub struct Joypad {
    pub a: bool,
    pub b: bool,
    pub start: bool,
    pub select: bool,
    pub up: bool,
    pub down: bool,
    pub left: bool,
    pub right: bool,
}

/// The bits of a button group, 0 where pressed: bit 0 to 3 are A, B, Select, Start for the
/// action group and Right, Left, Up, Down for the direction group.
pub open spec fn button_bits(b0: bool, b1: bool, b2: bool, b3: bool) -> u8 {
    ((if b0 { 0int } else { 1 }) + (if b1 { 0int } else { 2 }) + (if b2 { 0int } else { 4 }) + (
    if b3 { 0int } else { 8 })) as u8
}

impl Joypad {
    pub open spec fn state(self, action: bool) -> u8 {
        if action {
            button_bits(self.a, self.b, self.select, self.start)
        } else {
            button_bits(self.right, self.left, self.up, self.down)
        }
    }

    pub open spec fn none() -> Joypad {
        Joypad {
            a: false,
            b: false,
            start: false,
            select: false,
            up: false,
            down: false,
            left: false,
            right: false,
        }
    }

    /// The low nibble of FF00 for the action group (`select` set) or the direction group.
    pub fn read_state(&self, select: bool) -> (r: u8)
        ensures
            r == self.state(select),
            r < 16,
    {
        let (b0, b1, b2, b3) = if select {
            (self.a, self.b, self.select, self.start)
        } else {
            (self.right, self.left, self.up, self.down)
        };
        let mut state: u8 = 0;
        if !b0 {
            state = state + 1;
        }
        if !b1 {
            state = state + 2;
        }
        if !b2 {
            state = state + 4;
        }
        if !b3 {
            state = state + 8;
        }
        state
    }
}

/// FF00 after `v` is written to it: the upper bits are kept and the low nibble reads the
/// selected groups (bit 5 clear selects the action group, bit 4 clear the directions).
pub open spec fn joypad_line(v: u8, jp: Joypad) -> u8 {
    let sel = v & 0x30;
    if sel == 0x00 {
        (v & 0xF0) | (jp.state(true) & jp.state(false))
    } else if sel == 0x10 {
        (v & 0xF0) | jp.state(true)
    } else if sel == 0x20 {
        (v & 0xF0) | jp.state(false)
    } else {
        v | 0x0F
    }
}

/// The bit of the internal counter that TAC's clock select watches.
pub open spec fn tac_bit(tac: u8) -> u16 {
    let k = tac & 3;
    if k == 0 {
        9
    } else if k == 1 {
        3
    } else if k == 2 {
        5
    } else {
        7
    }
}

pub open spec fn bit_set(t: u16, b: u16) -> bool {
    (t >> b) & 1 == 1
}

/// The address after `a`, wrapping past 0xFFFF.
pub open spec fn next_addr(a: u16) -> u16 {
    if a == 0xFFFF {
        0
    } else {
        (a + 1) as u16
    }
}

/// The 16-bit counter one T-cycle later.
pub open spec fn next_count(t: u16) -> u16 {
    if t == 0xFFFF {
        0
    } else {
        (t + 1) as u16
    }
}

/// The whole guest-visible state of the memory controller.
pub struct MemState {
    pub boot: Seq<u8>,
    pub rom: Seq<u8>,
    pub ram: Seq<u8>,
    pub vram: Seq<u8>,
    pub wram: Seq<u8>,
    pub oam: Seq<u8>,
    pub io: Seq<u8>,
    pub hram: Seq<u8>,
    pub ie: u8,
    pub window_counter: u8,
    pub timer: u16,
    pub joypad: Joypad,
    pub mapper: Option<Mbc1>,
}

pub const ROM_BANK: usize = 0x4000;

pub const RAM_BANK: usize = 0x2000;

/// FF0F bit of each interrupt source.
pub const INT_VBLANK: u8 = 0x01;

pub const INT_STAT: u8 = 0x02;

pub const INT_TIMER: u8 = 0x04;

pub const INT_JOYPAD: u8 = 0x10;

impl MemState {
    /// Everything zero, no cartridge, the bootstrap mapped.
    pub open spec fn power_on() -> MemState {
        MemState {
            boot: Seq::new(0x100, |i: int| 0u8),
            rom: Seq::empty(),
            ram: Seq::empty(),
            vram: Seq::new(0x2000, |i: int| 0u8),
            wram: Seq::new(0x2000, |i: int| 0u8),
            oam: Seq::new(0xA0, |i: int| 0u8),
            io: Seq::new(0x80, |i: int| 0u8),
            hram: Seq::new(0x7F, |i: int| 0u8),
            ie: 0,
            window_counter: 0,
            timer: 0,
            joypad: Joypad::none(),
            mapper: None,
        }
    }

    pub open spec fn wf(self) -> bool {
        &&& self.boot.len() == 0x100
        &&& self.vram.len() == 0x2000
        &&& self.wram.len() == 0x2000
        &&& self.oam.len() == 0xA0
        &&& self.io.len() == 0x80
        &&& self.hram.len() == 0x7F
        &&& self.mapper matches Some(m) ==> m.wf()
    }

    pub open spec fn low_bank(self) -> int {
        match self.mapper {
            Some(m) => m.low_bank(),
            None => 0,
        }
    }

    pub open spec fn high_bank(self) -> int {
        match self.mapper {
            Some(m) => m.high_bank(),
            None => 1,
        }
    }

    pub open spec fn ram_bank(self) -> Option<int> {
        match self.mapper {
            Some(m) => m.ram_bank(),
            None => None,
        }
    }

    /// A byte of a ROM bank; a bank past the end of the image reads 0xFF.
    pub open spec fn rom_byte(self, bank: int, offset: int) -> u8 {
        let i = bank * ROM_BANK + offset;
        if i < self.rom.len() {
            self.rom[i]
        } else {
            0xFF
        }
    }

    pub open spec fn ram_index(self, offset: int) -> Option<int> {
        match self.ram_bank() {
            Some(b) => if b * RAM_BANK + offset < self.ram.len() {
                Some(b * RAM_BANK + offset)
            } else {
                None
            },
            None => None,
        }
    }

    pub open spec fn booting(self) -> bool {
        self.io[0x50] == 0
    }

    /// What a read of `addr` returns.
    pub open spec fn read(self, addr: u16) -> u8 {
        let a = addr as int;
        if a < 0x100 && self.booting() {
            self.boot[a]
        } else if a < 0x4000 {
            self.rom_byte(self.low_bank(), a)
        } else if a < 0x8000 {
            self.rom_byte(self.high_bank(), a - 0x4000)
        } else if a < 0xA000 {
            self.vram[a - 0x8000]
        } else if a < 0xC000 {
            match self.ram_index(a - 0xA000) {
                Some(i) => self.ram[i],
                None => 0xFF,
            }
        } else if a < 0xE000 {
            self.wram[a - 0xC000]
        } else if a < 0xFE00 {
            0xFF
        } else if a < 0xFEA0 {
            self.oam[a - 0xFE00]
        } else if a < 0xFF00 {
            0xFF
        } else if a == 0xFF04 {
            hi_of(self.timer)
        } else if a < 0xFF80 {
            self.io[a - 0xFF00]
        } else if a < 0xFFFF {
            self.hram[a - 0xFF80]
        } else {
            self.ie
        }
    }

    pub open spec fn read_word(self, addr: u16) -> u16 {
        (self.read(next_addr(addr)) as int * 256 + self.read(addr) as int) as u16
    }

    /// TIMA one step on: past 0xFF it is reloaded from TMA, which is reported.
    pub open spec fn bump_tima(self) -> (MemState, bool) {
        if self.io[0x05] == 0xFF {
            (MemState { io: self.io.update(0x05, self.io[0x06]), ..self }, true)
        } else {
            (MemState { io: self.io.update(0x05, (self.io[0x05] + 1) as u8), ..self }, false)
        }
    }

    /// One T-cycle of the timer: the counter steps, and a falling edge of the watched bit steps
    /// TIMA when the timer is enabled.
    pub open spec fn tick(self, enabled: bool) -> (MemState, bool) {
        let t2 = next_count(self.timer);
        let s = MemState { timer: t2, ..self };
        let bit = tac_bit(self.io[0x07]);
        if enabled && bit_set(self.timer, bit) && !bit_set(t2, bit) {
            s.bump_tima()
        } else {
            (s, false)
        }
    }

    /// `n` T-cycles of the timer, and whether TIMA overflowed during them.
    pub open spec fn run_timer(self, enabled: bool, n: nat) -> (MemState, bool)
        decreases n,
    {
        if n == 0 {
            (self, false)
        } else {
            let (s1, o1) = self.tick(enabled);
            let (s2, o2) = s1.run_timer(enabled, (n - 1) as nat);
            (s2, o1 || o2)
        }
    }

    /// A write to DIV: the counter is zeroed, and if the bit that TAC's clock select watches was
    /// set, TIMA steps as on a falling edge, raising the timer interrupt on overflow.
    pub open spec fn reset_div(self) -> MemState {
        let s = MemState { timer: 0, ..self };
        if bit_set(self.timer, tac_bit(self.io[0x07])) {
            let (s2, o) = s.bump_tima();
            if o {
                MemState { io: s2.io.update(0x0F, s2.io[0x0F] | INT_TIMER), ..s2 }
            } else {
                s2
            }
        } else {
            s
        }
    }

    /// OAM after a DMA from page `v`: byte i is what `(v << 8) + i` read before the copy.
    pub open spec fn dma(self, v: u8) -> Seq<u8> {
        Seq::new(0xA0, |i: int| self.read((v as int * 256 + i) as u16))
    }

    pub open spec fn write_io(self, r: int, v: u8) -> MemState {
        if r == 0x00 {
            MemState { io: self.io.update(0, joypad_line(v, self.joypad)), ..self }
        } else if r == 0x04 {
            self.reset_div()
        } else if r == 0x0F {
            MemState { io: self.io.update(0x0F, v | 0xE0), ..self }
        } else if r == 0x46 {
            MemState { oam: self.dma(v), io: self.io.update(0x46, v), ..self }
        } else if r == 0x50 {
            MemState { io: self.io.update(0x50, 0xFF), ..self }
        } else {
            MemState { io: self.io.update(r, v), ..self }
        }
    }

    /// The state after a write of `v` to `addr`.
    pub open spec fn write(self, addr: u16, v: u8) -> MemState {
        let a = addr as int;
        if a < 0x8000 {
            match self.mapper {
                Some(m) => MemState { mapper: Some(m.after_write(addr, v)), ..self },
                None => self,
            }
        } else if a < 0xA000 {
            MemState { vram: self.vram.update(a - 0x8000, v), ..self }
        } else if a < 0xC000 {
            match self.ram_index(a - 0xA000) {
                Some(i) => MemState { ram: self.ram.update(i, v), ..self },
                None => self,
            }
        } else if a < 0xE000 {
            MemState { wram: self.wram.update(a - 0xC000, v), ..self }
        } else if a < 0xFE00 {
            self
        } else if a < 0xFEA0 {
            MemState { oam: self.oam.update(a - 0xFE00, v), ..self }
        } else if a < 0xFF00 {
            self
        } else if a < 0xFF80 {
            self.write_io(a - 0xFF00, v)
        } else if a < 0xFFFF {
            MemState { hram: self.hram.update(a - 0xFF80, v), ..self }
        } else {
            MemState { ie: v, ..self }
        }
    }

    /// Little-endian: the low byte goes to `addr`, the high byte to `addr + 1`.
    pub open spec fn write_word(self, addr: u16, v: u16) -> MemState {
        self.write(addr, lo_of(v)).write(next_addr(addr), hi_of(v))
    }

    /// The buttons become `jp`; FF00 is read again, and `newly` raises the joypad interrupt.
    pub open spec fn set_joypad(self, jp: Joypad, newly: bool) -> MemState {
        let io = self.io.update(0, joypad_line(self.io[0], jp));
        let io = if newly {
            io.update(0x0F, io[0x0F] | INT_JOYPAD)
        } else {
            io
        };
        MemState { joypad: jp, io, ..self }
    }
}

pub open spec fn hi_of(v: u16) -> u8 {
    (v as int / 256) as u8
}

pub open spec fn lo_of(v: u16) -> u8 {
    (v as int % 256) as u8
}

/// The memory controller: the bytes of the 16-bit address space, the timer's counter, the
/// buttons and the cartridge mapper.
pub struct Mmu {
    bootstrap: Vec<u8>,
    rom: Vec<u8>,
    ram: Vec<u8>,
    vram: Vec<u8>,
    wram: Vec<u8>,
    oam: Vec<u8>,
    io: Vec<u8>,
    hram: Vec<u8>,
    ie: u8,
    window_counter: u8,
    timer: u16,
    joypad: Joypad,
    mapper: Option<Mbc1>,
}

/// Why a cartridge image cannot be loaded.
#[derive(Clone, Copy, Debug, PartialEq, Eq, Structural)]
pub enum LoadError {
    Empty,
    UnsupportedMapper(u8),
    UnsupportedRomSize(u8),
}

impl View for Mmu {
    type V = MemState;

    closed spec fn view(&self) -> MemState {
        MemState {
            boot: self.bootstrap@,
            rom: self.rom@,
            ram: self.ram@,
            vram: self.vram@,
            wram: self.wram@,
            oam: self.oam@,
            io: self.io@,
            hram: self.hram@,
            ie: self.ie,
            window_counter: self.window_counter,
            timer: self.timer,
            joypad: self.joypad,
            mapper: self.mapper,
        }
    }
}

/// The banks that the header's RAM-size code declares.
pub open spec fn ram_banks_of(code: u8) -> usize {
    if code == 2 {
        1
    } else if code == 3 {
        4
    } else if code == 4 {
        16
    } else if code == 5 {
        8
    } else {
        0
    }
}

/// The 16 KiB banks that the header's ROM-size code declares: 2 << code.
pub open spec fn rom_banks_of(code: nat) -> nat
    decreases code,
{
    if code == 0 {
        2
    } else {
        2 * rom_banks_of((code - 1) as nat)
    }
}

/// The image zero-padded to whole 16 KiB banks.
pub open spec fn padded(game: Seq<u8>) -> Seq<u8> {
    let pad = (ROM_BANK as int - (game.len() as int) % (ROM_BANK as int)) % (ROM_BANK as int);
    game + Seq::new(pad as nat, |i: int| 0u8)
}

/// A header byte of the image; bytes past its end read as the padding, zero.
pub open spec fn header_byte(game: Seq<u8>, i: int) -> u8 {
    if i < game.len() {
        game[i]
    } else {
        0
    }
}

/// The memory after a successful load: the padded image, zeroed cartridge RAM and the mapper
/// that the header's type byte names (00 none, 01-03 MBC1).
pub open spec fn loaded(s: MemState, game: Seq<u8>) -> MemState {
    let t = header_byte(game, 0x147);
    let rom_banks = rom_banks_of(header_byte(game, 0x148) as nat);
    let ram_banks = ram_banks_of(header_byte(game, 0x149));
    MemState {
        rom: padded(game),
        ram: Seq::new((ram_banks * RAM_BANK) as nat, |i: int| 0u8),
        mapper: if t == 0 {
            None
        } else {
            Some(
                Mbc1 {
                    rom_size: rom_banks as usize,
                    ram_size: ram_banks,
                    ram_enable: false,
                    bank1: 1,
                    bank2: 0,
                    mode: 0,
                },
            )
        },
        ..s
    }
}

fn ram_banks(code: u8) -> (r: usize)
    ensures
        r == ram_banks_of(code),
        r <= MAX_RAM_BANKS,
{
    if code == 2 {
        1
    } else if code == 3 {
        4
    } else if code == 4 {
        16
    } else if code == 5 {
        8
    } else {
        0
    }
}

fn rom_banks(code: u8) -> (r: usize)
    requires
        code <= 8,
    ensures
        r == rom_banks_of(code as nat),
        0 < r <= MAX_ROM_BANKS,
{
    let mut banks: usize = 2;
    let mut i: u8 = 0;
    while i < code
        invariant
            i <= code <= 8,
            banks == rom_banks_of(i as nat),
        decreases code - i,
    {
        proof {
            lemma_rom_banks_bound(i as nat);
        }
        banks = banks * 2;
        i = i + 1;
    }
    proof {
        lemma_rom_banks_bound(code as nat);
    }
    banks
}

proof fn lemma_rom_banks_bound(i: nat)
    requires
        i <= 8,
    ensures
        0 < rom_banks_of(i) <= MAX_ROM_BANKS,
        i < 8 ==> rom_banks_of(i) <= MAX_ROM_BANKS / 2,
{
    reveal_with_fuel(rom_banks_of, 9);
    assert(i == 0 || i == 1 || i == 2 || i == 3 || i == 4 || i == 5 || i == 6 || i == 7 || i == 8);
}

fn zeros(n: usize) -> (r: Vec<u8>)
    ensures
        r@ == Seq::new(n as nat, |i: int| 0u8),
{
    let mut v: Vec<u8> = Vec::with_capacity(n);
    let mut i: usize = 0;
    while i < n
        invariant
            i <= n,
            v@ == Seq::new(i as nat, |j: int| 0u8),
        decreases n - i,
    {
        v.push(0);
        i = i + 1;
        assert(v@ =~= Seq::new(i as nat, |j: int| 0u8));
    }
    v
}

/// A write of `v` to FF46 copies the 160 bytes from `v << 8` into OAM, each as it read before
/// the write.
pub proof fn lemma_dma_copies(s: MemState, v: u8)
    requires
        s.wf(),
    ensures
        s.write(0xFF46, v).oam.len() == 0xA0,
        forall|i: int|
            0 <= i < 0xA0 ==> #[trigger] s.write(0xFF46, v).oam[i] == s.read((v * 256 + i) as u16),
{
}

/// Where the counter stands in a 1024-cycle period, `k` cycles after `t`.
pub open spec fn phase(t: int, k: int) -> int {
    (t + k) % 1024
}

proof fn lemma_edge_bit9(t: u16)
    ensures
        (bit_set(t, 9) && !bit_set(next_count(t), 9)) == (t % 1024 == 1023),
        next_count(t) % 1024 == (t + 1) % 1024,
{
    assert(((t >> 9u16) & 1 == 1 && !(((if t == 0xFFFF {
        0u16
    } else {
        (t + 1) as u16
    }) >> 9u16) & 1 == 1)) == (t & 1023 == 1023)) by (bit_vector);
    assert(t & 1023 == t % 1024) by (bit_vector);
}

/// `n` T-cycles in which the counter never leaves a value that is 1023 modulo 1024 leave
/// TIMA alone when bit 9 is watched.
proof fn lemma_quiet(s: MemState, n: nat)
    requires
        s.wf(),
        s.io[0x07] & 3 == 0,
        forall|k: int| 0 <= k < n ==> #[trigger] phase(s.timer as int, k) != 1023,
    ensures
        s.run_timer(true, n).0.wf(),
        s.run_timer(true, n).0.io == s.io,
        s.run_timer(true, n).0.timer % 1024 == (s.timer + n) % 1024,
        !s.run_timer(true, n).1,
    decreases n,
{
    if n > 0 {
        lemma_edge_bit9(s.timer);
        assert(phase(s.timer as int, 0) != 1023);
        let s1 = s.tick(true).0;
        assert(s1 == MemState { timer: next_count(s.timer), ..s });
        assert forall|k: int| 0 <= k < n - 1 implies #[trigger] phase(s1.timer as int, k) != 1023
            by {
            assert(phase(s.timer as int, k + 1) != 1023);
            vstd::arithmetic::div_mod::lemma_add_mod_noop(s1.timer as int, k, 1024);
            vstd::arithmetic::div_mod::lemma_add_mod_noop(s.timer + 1, k, 1024);
        }
        lemma_quiet(s1, (n - 1) as nat);
        vstd::arithmetic::div_mod::lemma_add_mod_noop(s1.timer as int, n - 1, 1024);
        vstd::arithmetic::div_mod::lemma_add_mod_noop(s.timer + 1, n - 1, 1024);
    }
}

/// Running the timer for `a` then `b` T-cycles is running it for `a + b`.
proof fn lemma_run_split(s: MemState, enabled: bool, a: nat, b: nat)
    ensures
        s.run_timer(enabled, a + b) == ({
            let (s1, o1) = s.run_timer(enabled, a);
            let (s2, o2) = s1.run_timer(enabled, b);
            (s2, o1 || o2)
        }),
    decreases a,
{
    if a > 0 {
        let s1 = s.tick(enabled).0;
        lemma_run_split(s1, enabled, (a - 1) as nat, b);
        assert((a + b - 1) as nat == (a - 1) as nat + b);
    }
}

/// The falling edges of counter bit 9 in `n` T-cycles from `t`: the multiples of 1024 passed.
pub open spec fn edges_bit9(t: int, n: int) -> int {
    (t + n) / 1024 - t / 1024
}

proof fn lemma_div1024(x: int, q: int, r: int)
    requires
        0 <= r < 1024,
        x == q * 1024 + r,
    ensures
        x / 1024 == q,
        x % 1024 == r,
{
    vstd::arithmetic::div_mod::lemma_fundamental_div_mod_converse(x, 1024, q, r);
}

proof fn lemma_edges_step(t: int, n: int)
    requires
        0 <= t < 65536,
        n >= 1,
    ensures
        edges_bit9(t, n) == (if t % 1024 == 1023 { 1int } else { 0 }) + edges_bit9(
            next_count(t as u16) as int,
            n - 1,
        ),
{
    vstd::arithmetic::div_mod::lemma_fundamental_div_mod(t, 1024);
    let q = t / 1024;
    let r = t % 1024;
    if r == 1023 {
        lemma_div1024(t + 1, q + 1, 0);
    } else {
        lemma_div1024(t + 1, q, r + 1);
    }
    if t == 65535 {
        let x = t + 1 + n - 1;
        vstd::arithmetic::div_mod::lemma_fundamental_div_mod(x - 65536, 1024);
        lemma_div1024(x, (x - 65536) / 1024 + 64, (x - 65536) % 1024);
        lemma_div1024(0, 0, 0);
    }
}

/// With the timer enabled on bit 9 of the counter (TAC clock select 00), `n` T-cycles from
/// counter value t step TIMA once per falling edge of bit 9, that is once for each multiple of
/// 1024 passed, when TIMA does not overflow; the counter ends at t + n modulo 2^16.
pub proof fn lemma_timer_count(s: MemState, n: nat)
    requires
        s.wf(),
        s.io[0x07] & 3 == 0,
        s.io[0x05] + edges_bit9(s.timer as int, n as int) <= 0xFF,
    ensures
        s.run_timer(true, n).0.io[0x05] == s.io[0x05] + edges_bit9(s.timer as int, n as int),
        s.run_timer(true, n).0.timer == (s.timer + n) % 65536,
        !s.run_timer(true, n).1,
    decreases n,
{
    if n == 0 {
        vstd::arithmetic::div_mod::lemma_small_mod(s.timer as nat, 65536);
    } else {
        lemma_edge_bit9(s.timer);
        lemma_edges_step(s.timer as int, n as int);
        vstd::arithmetic::div_mod::lemma_fundamental_div_mod(s.timer as int, 1024);
        vstd::arithmetic::div_mod::lemma_div_is_ordered(s.timer as int, s.timer + n, 1024);
        let s1 = s.tick(true).0;
        assert(tac_bit(s.io[0x07]) == 9);
        assert(s1.io[0x07] == s.io[0x07]);
        assert(s1.timer == next_count(s.timer));
        lemma_edges_step(s.timer as int, n as int);
        vstd::arithmetic::div_mod::lemma_div_is_ordered(
            next_count(s.timer) as int,
            next_count(s.timer) + n - 1,
            1024,
        );
        lemma_timer_count(s1, (n - 1) as nat);
        vstd::arithmetic::div_mod::lemma_add_mod_noop(s.timer + 1, n - 1, 65536);
        vstd::arithmetic::div_mod::lemma_small_mod(1, 65536);
    }
}

/// Running the timer touches only the counter and TIMA.
pub proof fn lemma_run_timer_frame(s: MemState, enabled: bool, n: nat)
    requires
        s.wf(),
    ensures
        s.run_timer(enabled, n).0 == (MemState {
            timer: s.run_timer(enabled, n).0.timer,
            io: s.io.update(0x05, s.run_timer(enabled, n).0.io[0x05]),
            ..s
        }),
    decreases n,
{
    if n > 0 {
        let s1 = s.tick(enabled).0;
        assert(s1 == (MemState { timer: s1.timer, io: s.io.update(0x05, s1.io[0x05]), ..s })) by {
            assert(s1.io =~= s.io.update(0x05, s1.io[0x05]));
        }
        lemma_run_timer_frame(s1, enabled, (n - 1) as nat);
        let r = s.run_timer(enabled, n).0;
        assert(r.io =~= s.io.update(0x05, r.io[0x05]));
    } else {
        assert(s.io =~= s.io.update(0x05, s.io[0x05]));
    }
}

/// With the timer enabled on bit 9 of the counter (TAC clock select 00), any 1024 T-cycles step
/// TIMA exactly once; from below 0xFF that is one more, with no overflow.
pub proof fn lemma_timer_1024(s: MemState)
    requires
        s.wf(),
        s.io[0x07] & 3 == 0,
        s.io[0x05] < 0xFF,
    ensures
        s.run_timer(true, 1024).0.io[0x05] == s.io[0x05] + 1,
        !s.run_timer(true, 1024).1,
{
    let r = s.timer % 1024;
    let a = (1023 - r) as nat;
    assert forall|k: int| 0 <= k < a implies #[trigger] phase(s.timer as int, k) != 1023 by {
        vstd::arithmetic::div_mod::lemma_add_mod_noop(s.timer as int, k, 1024);
        vstd::arithmetic::div_mod::lemma_small_mod(k as nat, 1024);
        vstd::arithmetic::div_mod::lemma_small_mod((r + k) as nat, 1024);
    }
    lemma_quiet(s, a);
    let s1 = s.run_timer(true, a).0;
    vstd::arithmetic::div_mod::lemma_add_mod_noop(s.timer as int, a as int, 1024);
    vstd::arithmetic::div_mod::lemma_small_mod(a, 1024);
    assert(s1.timer % 1024 == 1023);
    lemma_edge_bit9(s1.timer);
    assert(tac_bit(s1.io[0x07]) == 9);
    let s2 = s1.tick(true).0;
    assert(s2.io[0x05] == s.io[0x05] + 1);
    assert(!s1.tick(true).1);
    assert(s2.timer % 1024 == 0) by {
        vstd::arithmetic::div_mod::lemma_add_mod_noop(s1.timer as int, 1, 1024);
    }
    assert forall|k: int| 0 <= k < r implies #[trigger] phase(s2.timer as int, k) != 1023 by {
        vstd::arithmetic::div_mod::lemma_add_mod_noop(s2.timer as int, k, 1024);
        vstd::arithmetic::div_mod::lemma_small_mod(k as nat, 1024);
    }
    assert(s2.io[0x07] & 3 == 0);
    lemma_quiet(s2, r as nat);
    lemma_run_split(s1, true, 1, r as nat);
    assert(s2.run_timer(true, 0) == (s2, false));
    assert(s1.run_timer(true, 1) == s1.tick(true));
    lemma_run_split(s, true, a, 1 + r as nat);
    assert(a + (1 + r as nat) == 1024);
}

fn joypad_value(v: u8, jp: &Joypad) -> (r: u8)
    ensures
        r == joypad_line(v, *jp),
{
    let sel = v & 0x30;
    if sel == 0x00 {
        (v & 0xF0) | (jp.read_state(true) & jp.read_state(false))
    } else if sel == 0x10 {
        (v & 0xF0) | jp.read_state(true)
    } else if sel == 0x20 {
        (v & 0xF0) | jp.read_state(false)
    } else {
        v | 0x0F
    }
}

impl Mmu {
    pub open spec fn wf(&self) -> bool {
        self@.wf()
    }

    /// Everything zero, no cartridge, the bootstrap mapped.
    pub fn new() -> (r: Mmu)
        ensures
            r.wf(),
            r@ == MemState::power_on(),
    {
        Mmu {
            bootstrap: zeros(0x100),
            rom: Vec::new(),
            ram: Vec::new(),
            vram: zeros(0x2000),
            wram: zeros(0x2000),
            oam: zeros(0xA0),
            io: zeros(0x80),
            hram: zeros(0x7F),
            ie: 0,
            window_counter: 0,
            timer: 0,
            joypad: Joypad {
                a: false,
                b: false,
                start: false,
                select: false,
                up: false,
                down: false,
                left: false,
                right: false,
            },
            mapper: None,
        }
    }

    fn low_bank(&self) -> (r: usize)
        requires
            self.wf(),
        ensures
            r == self@.low_bank(),
            r < MAX_ROM_BANKS,
    {
        match &self.mapper {
            Some(m) => m.get_low_bank(),
            None => 0,
        }
    }

    fn high_bank(&self) -> (r: usize)
        requires
            self.wf(),
        ensures
            r == self@.high_bank(),
            r < MAX_ROM_BANKS,
    {
        match &self.mapper {
            Some(m) => m.get_high_bank(),
            None => 1,
        }
    }

    fn rom_byte(&self, bank: usize, offset: usize) -> (r: u8)
        requires
            bank < MAX_ROM_BANKS,
            offset < ROM_BANK,
        ensures
            r == self@.rom_byte(bank as int, offset as int),
    {
        let i = bank * ROM_BANK + offset;
        if i < self.rom.len() {
            self.rom[i]
        } else {
            0xFF
        }
    }

    fn ram_index(&self, offset: usize) -> (r: Option<usize>)
        requires
            self.wf(),
            offset < RAM_BANK,
        ensures
            r.is_some() == self@.ram_index(offset as int).is_some(),
            r.is_some() ==> r.unwrap() == self@.ram_index(offset as int).unwrap(),
            r.is_some() ==> r.unwrap() < self@.ram.len(),
    {
        let bank = match &self.mapper {
            Some(m) => m.get_ram_bank(),
            None => None,
        };
        match bank {
            Some(b) => {
                let i = b * RAM_BANK + offset;
                if i < self.ram.len() {
                    Some(i)
                } else {
                    None
                }
            },
            None => None,
        }
    }

    /// A byte of the address space; every address has an answer.
    pub fn read_byte(&self, address: u16) -> (r: u8)
        requires
            self.wf(),
        ensures
            r == self@.read(address),
    {
        let a = address as usize;
        if a < 0x100 && self.io[0x50] == 0 {
            self.bootstrap[a]
        } else if a < 0x4000 {
            self.rom_byte(self.low_bank(), a)
        } else if a < 0x8000 {
            self.rom_byte(self.high_bank(), a - 0x4000)
        } else if a < 0xA000 {
            self.vram[a - 0x8000]
        } else if a < 0xC000 {
            match self.ram_index(a - 0xA000) {
                Some(i) => self.ram[i],
                None => 0xFF,
            }
        } else if a < 0xE000 {
            self.wram[a - 0xC000]
        } else if a < 0xFE00 {
            0xFF
        } else if a < 0xFEA0 {
            self.oam[a - 0xFE00]
        } else if a < 0xFF00 {
            0xFF
        } else if a == 0xFF04 {
            (self.timer / 256) as u8
        } else if a < 0xFF80 {
            self.io[a - 0xFF00]
        } else if a < 0xFFFF {
            self.hram[a - 0xFF80]
        } else {
            self.ie
        }
    }

    /// The little-endian word at `address`; the high byte comes from the next address, which
    /// wraps past 0xFFFF.
    pub fn read_word(&self, address: u16) -> (r: u16)
        requires
            self.wf(),
        ensures
            r == self@.read_word(address),
    {
        let low = self.read_byte(address) as u16;
        let next: u16 = if address == 0xFFFF {
            0
        } else {
            address + 1
        };
        let high = self.read_byte(next) as u16;
        high * 256 + low
    }

    fn bump_tima(&mut self) -> (r: bool)
        requires
            old(self).wf(),
        ensures
            final(self).wf(),
            (final(self)@, r) == old(self)@.bump_tima(),
    {
        let tima = self.io[0x05];
        if tima == 0xFF {
            let tma = self.io[0x06];
            self.io.set(0x05, tma);
            proof {
                assert(self@ =~= old(self)@.bump_tima().0);
            }
            true
        } else {
            self.io.set(0x05, tima + 1);
            proof {
                assert(self@ =~= old(self)@.bump_tima().0);
            }
            false
        }
    }

    fn tac_bit(&self) -> (r: u16)
        requires
            self.wf(),
        ensures
            r == tac_bit(self@.io[0x07]),
    {
        let k = self.io[0x07] & 3;
        if k == 0 {
            9
        } else if k == 1 {
            3
        } else if k == 2 {
            5
        } else {
            7
        }
    }

    fn reset_div(&mut self)
        requires
            old(self).wf(),
        ensures
            final(self).wf(),
            final(self)@ == old(self)@.reset_div(),
    {
        let bit = self.tac_bit();
        let fire = (self.timer >> bit) & 1 == 1;
        self.timer = 0;
        if fire {
            if self.bump_tima() {
                let f = self.io[0x0F];
                self.io.set(0x0F, f | INT_TIMER);
            }
        }
        proof {
            assert(self@ =~= old(self)@.reset_div());
        }
    }

    fn dma(&mut self, v: u8)
        requires
            old(self).wf(),
        ensures
            final(self).wf(),
            final(self)@ == (MemState { oam: old(self)@.dma(v), ..old(self)@ }),
    {
        let start = (v as u16) * 256;
        let mut i: u16 = 0;
        while i < 0xA0
            invariant
                self.wf(),
                start == v as int * 256,
                i <= 0xA0,
                self@ == (MemState { oam: self@.oam, ..old(self)@ }),
                forall|j: int| 0 <= j < i ==> self@.oam[j] == old(self)@.dma(v)[j],
                forall|j: int| i <= j < 0xA0 ==> self@.oam[j] == old(self)@.oam[j],
            decreases 0xA0 - i,
        {
            let b = self.read_byte(start + i);
            proof {
                assert(self@.read((start + i) as u16) == old(self)@.read((start + i) as u16));
            }
            self.oam.set(i as usize, b);
            i = i + 1;
        }
        proof {
            assert(self@.oam =~= old(self)@.dma(v));
            assert(self@ =~= (MemState { oam: old(self)@.dma(v), ..old(self)@ }));
        }
    }

    fn write_io(&mut self, r: usize, v: u8)
        requires
            old(self).wf(),
            r < 0x80,
        ensures
            final(self).wf(),
            final(self)@ == old(self)@.write_io(r as int, v),
    {
        if r == 0x00 {
            let line = joypad_value(v, &self.joypad);
            self.io.set(0, line);
        } else if r == 0x04 {
            self.reset_div();
        } else if r == 0x0F {
            self.io.set(0x0F, v | 0xE0);
        } else if r == 0x46 {
            self.dma(v);
            self.io.set(0x46, v);
        } else if r == 0x50 {
            self.io.set(0x50, 0xFF);
        } else {
            self.io.set(r, v);
        }
        proof {
            assert(self@ =~= old(self)@.write_io(r as int, v));
        }
    }

    /// Stores `v` at `address`, with the side effects of the memory map: mapper registers,
    /// joypad select, DIV reset, IF, DMA and the bootstrap switch.
    pub fn write_byte(&mut self, address: u16, value: u8)
        requires
            old(self).wf(),
        ensures
            final(self).wf(),
            final(self)@ == old(self)@.write(address, value),
    {
        let a = address as usize;
        if a < 0x8000 {
            match &mut self.mapper {
                Some(m) => m.write_register(address, value),
                None => {},
            }
        } else if a < 0xA000 {
            self.vram.set(a - 0x8000, value);
        } else if a < 0xC000 {
            match self.ram_index(a - 0xA000) {
                Some(i) => self.ram.set(i, value),
                None => {},
            }
        } else if a < 0xE000 {
            self.wram.set(a - 0xC000, value);
        } else if a < 0xFE00 {
        } else if a < 0xFEA0 {
            self.oam.set(a - 0xFE00, value);
        } else if a < 0xFF00 {
        } else if a < 0xFF80 {
            self.write_io(a - 0xFF00, value);
        } else if a < 0xFFFF {
            self.hram.set(a - 0xFF80, value);
        } else {
            self.ie = value;
        }
        proof {
            assert(self@ =~= old(self)@.write(address, value));
        }
    }

    /// Writes the low byte at `address` and the high byte at the next address.
    pub fn write_word(&mut self, address: u16, value: u16)
        requires
            old(self).wf(),
        ensures
            final(self).wf(),
            final(self)@ == old(self)@.write_word(address, value),
    {
        let low = (value % 256) as u8;
        let high = (value / 256) as u8;
        let next: u16 = if address == 0xFFFF {
            0
        } else {
            address + 1
        };
        self.write_byte(address, low);
        self.write_byte(next, high);
    }

    /// Runs the timer for `cycles` M-cycles (four T-cycles each); `tac_enable` lets falling
    /// edges step TIMA. Returns whether TIMA overflowed, which the caller turns into the timer
    /// interrupt.
    pub fn increment_timer(&mut self, cycles: u32, tac_enable: bool) -> (r: bool)
        requires
            old(self).wf(),
            cycles <= 0x3FFF_FFFF,
        ensures
            final(self).wf(),
            (final(self)@, r) == old(self)@.run_timer(tac_enable, (cycles * 4) as nat),
    {
        let n = cycles * 4;
        let bit = self.tac_bit();
        let mut overflow = false;
        let mut k: u32 = 0;
        while k < n
            invariant
                self.wf(),
                k <= n,
                n == cycles * 4,
                bit == tac_bit(self@.io[0x07]),
                old(self)@.run_timer(tac_enable, n as nat) == ({
                    let (s, o) = self@.run_timer(tac_enable, (n - k) as nat);
                    (s, o || overflow)
                }),
            decreases n - k,
        {
            let ghost s0 = self@;
            let before = self.timer;
            let after: u16 = if before == 0xFFFF {
                0
            } else {
                before + 1
            };
            self.timer = after;
            proof {
                assert(self@ =~= (MemState { timer: next_count(s0.timer), ..s0 }));
            }
            let mut fired = false;
            if tac_enable && (before >> bit) & 1 == 1 && !((after >> bit) & 1 == 1) {
                fired = self.bump_tima();
            }
            proof {
                assert((self@, fired) == s0.tick(tac_enable));
            }
            overflow = overflow || fired;
            k = k + 1;
        }
        overflow
    }

    fn set_joypad(&mut self, jp: Joypad, newly: bool)
        requires
            old(self).wf(),
        ensures
            final(self).wf(),
            final(self)@ == old(self)@.set_joypad(jp, newly),
    {
        self.joypad = jp;
        let line = joypad_value(self.io[0], &jp);
        self.io.set(0, line);
        if newly {
            let f = self.io[0x0F];
            self.io.set(0x0F, f | INT_JOYPAD);
        }
        proof {
            assert(self@ =~= old(self)@.set_joypad(jp, newly));
        }
    }

    pub fn joypad_a(&mut self, pressed: bool)
        requires
            old(self).wf(),
        ensures
            final(self).wf(),
            final(self)@ == old(self)@.set_joypad(
                Joypad { a: pressed, ..old(self)@.joypad },
                pressed && !old(self)@.joypad.a,
            ),
    {
        let newly = pressed && !self.joypad.a;
        self.set_joypad(Joypad { a: pressed, ..self.joypad }, newly);
    }

    pub fn joypad_b(&mut self, pressed: bool)
        requires
            old(self).wf(),
        ensures
            final(self).wf(),
            final(self)@ == old(self)@.set_joypad(
                Joypad { b: pressed, ..old(self)@.joypad },
                pressed && !old(self)@.joypad.b,
            ),
    {
        let newly = pressed && !self.joypad.b;
        self.set_joypad(Joypad { b: pressed, ..self.joypad }, newly);
    }

    pub fn joypad_start(&mut self, pressed: bool)
        requires
            old(self).wf(),
        ensures
            final(self).wf(),
            final(self)@ == old(self)@.set_joypad(
                Joypad { start: pressed, ..old(self)@.joypad },
                pressed && !old(self)@.joypad.start,
            ),
    {
        let newly = pressed && !self.joypad.start;
        self.set_joypad(Joypad { start: pressed, ..self.joypad }, newly);
    }

    pub fn joypad_select(&mut self, pressed: bool)
        requires
            old(self).wf(),
        ensures
            final(self).wf(),
            final(self)@ == old(self)@.set_joypad(
                Joypad { select: pressed, ..old(self)@.joypad },
                pressed && !old(self)@.joypad.select,
            ),
    {
        let newly = pressed && !self.joypad.select;
        self.set_joypad(Joypad { select: pressed, ..self.joypad }, newly);
    }

    pub fn joypad_up(&mut self, pressed: bool)
        requires
            old(self).wf(),
        ensures
            final(self).wf(),
            final(self)@ == old(self)@.set_joypad(
                Joypad { up: pressed, ..old(self)@.joypad },
                pressed && !old(self)@.joypad.up,
            ),
    {
        let newly = pressed && !self.joypad.up;
        self.set_joypad(Joypad { up: pressed, ..self.joypad }, newly);
    }

    pub fn joypad_down(&mut self, pressed: bool)
        requires
            old(self).wf(),
        ensures
            final(self).wf(),
            final(self)@ == old(self)@.set_joypad(
                Joypad { down: pressed, ..old(self)@.joypad },
                pressed && !old(self)@.joypad.down,
            ),
    {
        let newly = pressed && !self.joypad.down;
        self.set_joypad(Joypad { down: pressed, ..self.joypad }, newly);
    }

    pub fn joypad_left(&mut self, pressed: bool)
        requires
            old(self).wf(),
        ensures
            final(self).wf(),
            final(self)@ == old(self)@.set_joypad(
                Joypad { left: pressed, ..old(self)@.joypad },
                pressed && !old(self)@.joypad.left,
            ),
    {
        let newly = pressed && !self.joypad.left;
        self.set_joypad(Joypad { left: pressed, ..self.joypad }, newly);
    }

    pub fn joypad_right(&mut self, pressed: bool)
        requires
            old(self).wf(),
        ensures
            final(self).wf(),
            final(self)@ == old(self)@.set_joypad(
                Joypad { right: pressed, ..old(self)@.joypad },
                pressed && !old(self)@.joypad.right,
            ),
    {
        let newly = pressed && !self.joypad.right;
        self.set_joypad(Joypad { right: pressed, ..self.joypad }, newly);
    }

    pub open spec fn lcdc(&self) -> u8 {
        self@.io[0x40]
    }

    /// LCDC bit 0.
    pub fn get_bg_enable(&self) -> (r: bool)
        requires
            self.wf(),
        ensures
            r == (self.lcdc() & 0x01 != 0),
    {
        self.io[0x40] & 0x01 != 0
    }

    /// LCDC bit 5.
    pub fn get_window_enable(&self) -> (r: bool)
        requires
            self.wf(),
        ensures
            r == (self.lcdc() & 0x20 != 0),
    {
        self.io[0x40] & 0x20 != 0
    }

    /// LCDC bit 1.
    pub fn get_obj_enable(&self) -> (r: bool)
        requires
            self.wf(),
        ensures
            r == (self.lcdc() & 0x02 != 0),
    {
        self.io[0x40] & 0x02 != 0
    }

    /// LCDC bit 3: the background uses the tile map at 9C00 rather than 9800.
    pub fn get_bg_map_mode(&self) -> (r: bool)
        requires
            self.wf(),
        ensures
            r == (self.lcdc() & 0x08 != 0),
    {
        self.io[0x40] & 0x08 != 0
    }

    /// LCDC bit 6: the window uses the tile map at 9C00 rather than 9800.
    pub fn get_window_map_mode(&self) -> (r: bool)
        requires
            self.wf(),
        ensures
            r == (self.lcdc() & 0x40 != 0),
    {
        self.io[0x40] & 0x40 != 0
    }

    /// LCDC bit 4: tiles are indexed unsigned from 8000 rather than signed from 9000.
    pub fn get_tile_mode(&self) -> (r: bool)
        requires
            self.wf(),
        ensures
            r == (self.lcdc() & 0x10 != 0),
    {
        self.io[0x40] & 0x10 != 0
    }

    /// LCDC bit 2: sprites are 8x16.
    pub fn get_obj_size(&self) -> (r: bool)
        requires
            self.wf(),
        ensures
            r == (self.lcdc() & 0x04 != 0),
    {
        self.io[0x40] & 0x04 != 0
    }

    /// The VRAM byte at offset `i` (address 8000 + i).
    pub fn vram_byte(&self, i: usize) -> (r: u8)
        requires
            self.wf(),
            i < 0x2000,
        ensures
            r == self@.vram[i as int],
    {
        self.vram[i]
    }

    /// The OAM byte at offset `i` (address FE00 + i).
    pub fn oam_byte(&self, i: usize) -> (r: u8)
        requires
            self.wf(),
            i < 0xA0,
        ensures
            r == self@.oam[i as int],
    {
        self.oam[i]
    }

    /// The IO register at FF00 + `i`, as stored.
    pub fn io_byte(&self, i: usize) -> (r: u8)
        requires
            self.wf(),
            i < 0x80,
        ensures
            r == self@.io[i as int],
    {
        self.io[i]
    }

    fn vram_range(&self, start: usize, len: usize) -> (r: Vec<u8>)
        requires
            self.wf(),
            start + len <= 0x2000,
        ensures
            r@ == self@.vram.subrange(start as int, start + len),
    {
        let mut v: Vec<u8> = Vec::with_capacity(len);
        let mut i: usize = 0;
        while i < len
            invariant
                self.wf(),
                start + len <= 0x2000,
                i <= len,
                v@ == self@.vram.subrange(start as int, start + i),
            decreases len - i,
        {
            v.push(self.vram[start + i]);
            i = i + 1;
            assert(v@ =~= self@.vram.subrange(start as int, start + i));
        }
        v
    }

    /// The 4 KiB of tile data that the background and window use: 8000-8FFF in unsigned mode,
    /// 8800-97FF in signed mode.
    pub fn get_bg_tile_data(&self) -> (r: Vec<u8>)
        requires
            self.wf(),
        ensures
            r@ == (if self.lcdc() & 0x10 != 0 {
                self@.vram.subrange(0, 0x1000)
            } else {
                self@.vram.subrange(0x800, 0x1800)
            }),
    {
        if self.get_tile_mode() {
            self.vram_range(0, 0x1000)
        } else {
            self.vram_range(0x800, 0x1000)
        }
    }

    /// The 1 KiB background tile map: 9C00 or 9800.
    pub fn get_bg_tile_map(&self) -> (r: Vec<u8>)
        requires
            self.wf(),
        ensures
            r@ == (if self.lcdc() & 0x08 != 0 {
                self@.vram.subrange(0x1C00, 0x2000)
            } else {
                self@.vram.subrange(0x1800, 0x1C00)
            }),
    {
        if self.get_bg_map_mode() {
            self.vram_range(0x1C00, 0x400)
        } else {
            self.vram_range(0x1800, 0x400)
        }
    }

    /// The 1 KiB window tile map: 9C00 or 9800.
    pub fn get_window_tile_map(&self) -> (r: Vec<u8>)
        requires
            self.wf(),
        ensures
            r@ == (if self.lcdc() & 0x40 != 0 {
                self@.vram.subrange(0x1C00, 0x2000)
            } else {
                self@.vram.subrange(0x1800, 0x1C00)
            }),
    {
        if self.get_window_map_mode() {
            self.vram_range(0x1C00, 0x400)
        } else {
            self.vram_range(0x1800, 0x400)
        }
    }

    /// (WY, WX).
    pub fn get_window_pos(&self) -> (r: (u8, u8))
        requires
            self.wf(),
        ensures
            r == (self@.io[0x4A], self@.io[0x4B]),
    {
        (self.io[0x4A], self.io[0x4B])
    }

    /// A copy of the 40 four-byte sprite entries.
    pub fn get_oam(&self) -> (r: Vec<u8>)
        requires
            self.wf(),
        ensures
            r@ == self@.oam,
    {
        let mut v: Vec<u8> = Vec::with_capacity(0xA0);
        let mut i: usize = 0;
        while i < 0xA0
            invariant
                self.wf(),
                i <= 0xA0,
                v@ == self@.oam.subrange(0, i as int),
            decreases 0xA0 - i,
        {
            v.push(self.oam[i]);
            i = i + 1;
            assert(v@ =~= self@.oam.subrange(0, i as int));
        }
        assert(v@ =~= self@.oam);
        v
    }

    /// Sprites always take their tiles from 8000-8FFF.
    pub fn get_oam_tile_data(&self) -> (r: Vec<u8>)
        requires
            self.wf(),
        ensures
            r@ == self@.vram.subrange(0, 0x1000),
    {
        self.vram_range(0, 0x1000)
    }

    /// The shades of BGP.
    pub fn get_bg_palette(&self) -> (r: [Palette; 4])
        requires
            self.wf(),
        ensures
            r@ == Palette::decode(self@.io[0x47]),
    {
        Palette::from_u8(self.io[0x47])
    }

    /// The shades of OBP0 or OBP1, chosen by bit 0 of `palette`.
    pub fn get_obj_palette(&self, palette: usize) -> (r: [Palette; 4])
        requires
            self.wf(),
        ensures
            r@ == Palette::decode(self@.io[0x48 + palette % 2]),
    {
        Palette::from_u8(self.io[0x48 + palette % 2])
    }

    pub fn get_window_counter(&self) -> (r: u8)
        ensures
            r == self@.window_counter,
    {
        self.window_counter
    }

    pub fn set_window_counter(&mut self, value: u8)
        requires
            old(self).wf(),
        ensures
            final(self).wf(),
            final(self)@ == (MemState { window_counter: value, ..old(self)@ }),
    {
        self.window_counter = value;
        proof {
            assert(self@ =~= (MemState { window_counter: value, ..old(self)@ }));
        }
    }

    /// Loads a cartridge image. An empty image, a mapper type other than 00-03, or (for MBC1) a
    /// ROM-size code past 8 is refused and leaves the memory as it was.
    pub fn load_game(&mut self, game: &[u8]) -> (r: Result<(), LoadError>)
        requires
            old(self).wf(),
        ensures
            final(self).wf(),
            game@.len() == 0 ==> r == Err::<(), LoadError>(LoadError::Empty),
            game@.len() > 0 && header_byte(game@, 0x147) > 3 ==> r == Err::<(), LoadError>(
                LoadError::UnsupportedMapper(header_byte(game@, 0x147)),
            ),
            game@.len() > 0 && 1 <= header_byte(game@, 0x147) <= 3 && header_byte(game@, 0x148)
                > 8 ==> r == Err::<(), LoadError>(
                LoadError::UnsupportedRomSize(header_byte(game@, 0x148)),
            ),
            r.is_ok() <==> (game@.len() > 0 && header_byte(game@, 0x147) <= 3 && (header_byte(
                game@,
                0x147,
            ) == 0 || header_byte(game@, 0x148) <= 8)),
            r.is_err() ==> final(self)@ == old(self)@,
            r.is_ok() ==> final(self)@ == loaded(old(self)@, game@),
    {
        let len = game.len();
        if len == 0 {
            return Err(LoadError::Empty);
        }
        let t = if 0x147 < len {
            game[0x147]
        } else {
            0
        };
        let rom_code = if 0x148 < len {
            game[0x148]
        } else {
            0
        };
        let ram_code = if 0x149 < len {
            game[0x149]
        } else {
            0
        };
        if t > 3 {
            return Err(LoadError::UnsupportedMapper(t));
        }
        if t != 0 && rom_code > 8 {
            return Err(LoadError::UnsupportedRomSize(rom_code));
        }
        let ram_size = ram_banks(ram_code);
        let mut rom: Vec<u8> = Vec::with_capacity(len);
        let mut i: usize = 0;
        while i < len
            invariant
                i <= len == game@.len(),
                rom@ == game@.subrange(0, i as int),
            decreases len - i,
        {
            rom.push(game[i]);
            i = i + 1;
            assert(rom@ =~= game@.subrange(0, i as int));
        }
        assert(rom@ =~= game@);
        let pad = (ROM_BANK - len % ROM_BANK) % ROM_BANK;
        let mut j: usize = 0;
        while j < pad
            invariant
                j <= pad,
                pad == (ROM_BANK as int - (len as int) % (ROM_BANK as int)) % (ROM_BANK as int),
                len == game@.len(),
                rom@ == game@ + Seq::new(j as nat, |k: int| 0u8),
            decreases pad - j,
        {
            rom.push(0);
            j = j + 1;
            assert(rom@ =~= game@ + Seq::new(j as nat, |k: int| 0u8));
        }
        self.mapper = if t == 0 {
            None
        } else {
            Some(Mbc1::new(rom_banks(rom_code), ram_size))
        };
        self.rom = rom;
        self.ram = zeros(ram_size * RAM_BANK);
        proof {
            assert(self@ =~= loaded(old(self)@, game@));
        }
        Ok(())
    }

    /// Installs the 256-byte bootstrap program that shadows 0000-00FF.
    pub fn set_bootstrap(&mut self, boot: &[u8])
        requires
            old(self).wf(),
            boot@.len() == 0x100,
        ensures
            final(self).wf(),
            final(self)@ == (MemState { boot: boot@, ..old(self)@ }),
    {
        let mut v: Vec<u8> = Vec::with_capacity(0x100);
        let mut i: usize = 0;
        while i < boot.len()
            invariant
                i <= boot@.len(),
                v@ == boot@.subrange(0, i as int),
            decreases boot@.len() - i,
        {
            v.push(boot[i]);
            i = i + 1;
            assert(v@ =~= boot@.subrange(0, i as int));
        }
        assert(v@ =~= boot@);
        self.bootstrap = v;
    }
}

} // verus!
