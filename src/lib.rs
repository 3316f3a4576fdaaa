pub mod alu;
pub mod cpu;
pub mod driver;
pub mod mapper;
pub mod mmu;
pub mod ppu;
pub mod registers;
