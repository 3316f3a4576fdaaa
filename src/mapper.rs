use vstd::prelude::*;

verus! {

/// A cartridge mapper: it takes the writes to 0000-7FFF and decides which banks are visible.
pub trait Mapper: Sized {
    spec fn after_write(&self, address: u16, value: u8) -> Self;

    spec fn inv(&self) -> bool;

    fn write_register(&mut self, address: u16, value: u8)
        requires
            old(self).inv(),
            address < 0x8000,
        ensures
            final(self).inv(),
            *final(self) == old(self).after_write(address, value),
    ;
}

/// MBC1 state: RAM enable, the 5-bit primary bank register, the 2-bit secondary bank register
/// and the banking mode, with the cartridge's ROM and RAM sizes in banks.
#[derive(Clone, Copy, Debug, PartialEq, Eq, Structural)]
pub struct Mbc1 {
    pub rom_size: usize,
    pub ram_size: usize,
    pub ram_enable: bool,
    pub bank1: u8,
    pub bank2: u8,
    pub mode: u8,
}

/// The largest ROM, in 16 KiB banks, that the header's size code can declare here.
pub const MAX_ROM_BANKS: usize = 512;

/// The largest RAM, in 8 KiB banks, that the header's size code can declare.
pub const MAX_RAM_BANKS: usize = 16;

impl Mbc1 {
    pub open spec fn wf(self) -> bool {
        &&& 0 < self.rom_size <= MAX_ROM_BANKS
        &&& self.ram_size <= MAX_RAM_BANKS
        &&& self.bank1 < 32
        &&& self.bank2 < 4
        &&& self.mode < 2
        &&& self.ram_enable ==> self.ram_size > 0
    }

    /// The bank seen at 0000-3FFF: BANK2 << 5 in mode 1, else 0, wrapped to the ROM size.
    pub open spec fn low_bank(self) -> int {
        if self.mode == 1 {
            (self.bank2 as int * 32) % (self.rom_size as int)
        } else {
            0
        }
    }

    /// The bank seen at 4000-7FFF: BANK2 << 5 | BANK1, where a BANK1 of 0 reads as 1, wrapped to
    /// the ROM size.
    pub open spec fn high_bank(self) -> int {
        let low = if self.bank1 == 0 {
            1
        } else {
            self.bank1 as int
        };
        (self.bank2 as int * 32 + low) % (self.rom_size as int)
    }

    /// The RAM bank seen at A000-BFFF, if RAM is enabled: BANK2 in mode 1, else 0, wrapped to
    /// the RAM size.
    pub open spec fn ram_bank(self) -> Option<int> {
        if !self.ram_enable {
            None
        } else if self.mode == 1 {
            Some((self.bank2 as int) % (self.ram_size as int))
        } else {
            Some(0)
        }
    }

    pub fn new(rom_size: usize, ram_size: usize) -> (r: Mbc1)
        requires
            0 < rom_size <= MAX_ROM_BANKS,
            ram_size <= MAX_RAM_BANKS,
        ensures
            r.wf(),
            r == (Mbc1 { rom_size, ram_size, ram_enable: false, bank1: 1, bank2: 0, mode: 0 }),
    {
        Mbc1 { rom_size, ram_size, ram_enable: false, bank1: 1, bank2: 0, mode: 0 }
    }

    pub fn get_low_bank(&self) -> (r: usize)
        requires
            self.wf(),
        ensures
            r == self.low_bank(),
    {
        if self.mode == 1 {
            (self.bank2 as usize * 32) % self.rom_size
        } else {
            0
        }
    }

    pub fn get_high_bank(&self) -> (r: usize)
        requires
            self.wf(),
        ensures
            r == self.high_bank(),
    {
        let low: usize = if self.bank1 == 0 {
            1
        } else {
            self.bank1 as usize
        };
        (self.bank2 as usize * 32 + low) % self.rom_size
    }

    pub fn get_ram_bank(&self) -> (r: Option<usize>)
        requires
            self.wf(),
        ensures
            r.is_some() == self.ram_bank().is_some(),
            r.is_some() ==> r.unwrap() == self.ram_bank().unwrap(),
    {
        if !self.ram_enable {
            None
        } else if self.mode == 1 {
            Some((self.bank2 as usize) % self.ram_size)
        } else {
            Some(0)
        }
    }
}

impl Mapper for Mbc1 {
    /// RAMG at 0000-1FFF, BANK1 at 2000-3FFF, BANK2 at 4000-5FFF, MODE at 6000-7FFF.
    open spec fn after_write(&self, address: u16, value: u8) -> Mbc1 {
        if address < 0x2000 {
            Mbc1 { ram_enable: value & 0x0F == 0x0A && self.ram_size > 0, ..*self }
        } else if address < 0x4000 {
            Mbc1 { bank1: value & 0x1F, ..*self }
        } else if address < 0x6000 {
            Mbc1 { bank2: value & 0x03, ..*self }
        } else {
            Mbc1 { mode: value & 0x01, ..*self }
        }
    }

    open spec fn inv(&self) -> bool {
        self.wf()
    }

    fn write_register(&mut self, address: u16, value: u8) {
        if address < 0x2000 {
            self.ram_enable = value & 0x0F == 0x0A && self.ram_size > 0;
        } else if address < 0x4000 {
            self.bank1 = value & 0x1F;
            assert(value & 0x1F < 32) by (bit_vector);
        } else if address < 0x6000 {
            self.bank2 = value & 0x03;
            assert(value & 0x03 < 4) by (bit_vector);
        } else {
            self.mode = value & 0x01;
            assert(value & 0x01 < 2) by (bit_vector);
        }
    }
}

} // verus!
