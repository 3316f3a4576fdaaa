use trashgb::mmu::{LoadError, Mmu};

fn rom_image(kind: u8, rom_code: u8, ram_code: u8, banks: usize) -> Vec<u8> {
    let mut rom = vec![0u8; banks * 0x4000];
    rom[0x147] = kind;
    rom[0x148] = rom_code;
    rom[0x149] = ram_code;
    for bank in 0..banks {
        rom[bank * 0x4000 + 1] = bank as u8;
    }
    rom
}

#[test]
fn memory_map_regions() {
    let mut m = Mmu::new();
    m.write_byte(0x8000, 1);
    m.write_byte(0xC000, 2);
    m.write_byte(0xDFFF, 3);
    m.write_byte(0xFE00, 4);
    m.write_byte(0xFF80, 5);
    m.write_byte(0xFFFF, 6);
    m.write_byte(0xE000, 7);
    assert_eq!(m.read_byte(0x8000), 1);
    assert_eq!(m.read_byte(0xC000), 2);
    assert_eq!(m.read_byte(0xDFFF), 3);
    assert_eq!(m.read_byte(0xFE00), 4);
    assert_eq!(m.read_byte(0xFF80), 5);
    assert_eq!(m.read_byte(0xFFFF), 6);
    assert_eq!(m.read_byte(0xE000), 0xFF);
    assert_eq!(m.read_byte(0xFEA0), 0xFF);
    assert_eq!(m.read_byte(0xA000), 0xFF);
    assert_eq!(m.read_byte(0x4000), 0xFF);
}

#[test]
fn words_are_little_endian() {
    let mut m = Mmu::new();
    m.write_word(0xC010, 0x1234);
    assert_eq!(m.read_byte(0xC010), 0x34);
    assert_eq!(m.read_byte(0xC011), 0x12);
    assert_eq!(m.read_word(0xC010), 0x1234);
}

#[test]
fn interrupt_flag_upper_bits_read_as_one() {
    let mut m = Mmu::new();
    m.write_byte(0xFF0F, 0x01);
    assert_eq!(m.read_byte(0xFF0F), 0xE1);
}

#[test]
fn bootstrap_is_shadowed_until_ff50() {
    let mut m = Mmu::new();
    let mut boot = vec![0u8; 0x100];
    boot[0] = 0x31;
    m.set_bootstrap(&boot);
    m.load_game(&rom_image(0, 0, 0, 2)).unwrap();
    assert_eq!(m.read_byte(0x0000), 0x31);
    m.write_byte(0xFF50, 0x01);
    assert_eq!(m.read_byte(0x0000), 0x00);
    assert_eq!(m.read_byte(0xFF50), 0xFF);
    m.write_byte(0xFF50, 0x00);
    assert_eq!(m.read_byte(0xFF50), 0xFF);
}

#[test]
fn dma_copies_a_page_into_oam() {
    let mut m = Mmu::new();
    for i in 0..0xA0u16 {
        m.write_byte(0xC100 + i, (i as u8) ^ 0x5A);
    }
    m.write_byte(0xFF46, 0xC1);
    for i in 0..0xA0u16 {
        assert_eq!(m.read_byte(0xFE00 + i), (i as u8) ^ 0x5A);
    }
}

#[test]
fn div_reads_the_counter_and_resets() {
    let mut m = Mmu::new();
    m.increment_timer(0x100, false);
    assert_eq!(m.read_byte(0xFF04), 0x04);
    m.write_byte(0xFF04, 0x77);
    assert_eq!(m.read_byte(0xFF04), 0x00);
}

#[test]
fn timer_with_mux_00_steps_once_per_1024_cycles() {
    let mut m = Mmu::new();
    m.write_byte(0xFF07, 0x04);
    m.write_byte(0xFF05, 0x10);
    for k in 1..=5u8 {
        assert!(!m.increment_timer(256, true));
        assert_eq!(m.read_byte(0xFF05), 0x10 + k);
    }
}

#[test]
fn timer_overflow_reloads_from_tma() {
    let mut m = Mmu::new();
    m.write_byte(0xFF07, 0x05);
    m.write_byte(0xFF06, 0xAB);
    m.write_byte(0xFF05, 0xFF);
    assert!(m.increment_timer(4, true));
    assert_eq!(m.read_byte(0xFF05), 0xAB);
}

#[test]
fn div_write_with_watched_bit_set_steps_tima() {
    let mut m = Mmu::new();
    m.write_byte(0xFF07, 0x05);
    m.increment_timer(2, false);
    m.write_byte(0xFF05, 0xFF);
    m.write_byte(0xFF06, 0x20);
    m.write_byte(0xFF04, 0);
    assert_eq!(m.read_byte(0xFF05), 0x20);
    assert_eq!(m.read_byte(0xFF0F) & 0x04, 0x04);
}

#[test]
fn joypad_register_and_interrupt() {
    let mut m = Mmu::new();
    m.write_byte(0xFF00, 0x20);
    assert_eq!(m.read_byte(0xFF00), 0x2F);
    m.joypad_down(true);
    assert_eq!(m.read_byte(0xFF00), 0x27);
    assert_eq!(m.read_byte(0xFF0F), 0x10);
    m.write_byte(0xFF0F, 0x00);
    m.joypad_down(true);
    assert_eq!(m.read_byte(0xFF0F), 0xE0);
    m.write_byte(0xFF00, 0x10);
    assert_eq!(m.read_byte(0xFF00), 0x1F);
    m.joypad_a(true);
    m.joypad_start(true);
    assert_eq!(m.read_byte(0xFF00), 0x16);
    m.joypad_a(false);
    assert_eq!(m.read_byte(0xFF00), 0x17);
    m.write_byte(0xFF00, 0x30);
    assert_eq!(m.read_byte(0xFF00), 0x3F);
}

#[test]
fn joypad_all_buttons() {
    let mut m = Mmu::new();
    m.write_byte(0xFF00, 0x00);
    m.joypad_b(true);
    m.joypad_select(true);
    m.joypad_up(true);
    m.joypad_left(true);
    m.joypad_right(true);
    assert_eq!(m.read_byte(0xFF00), 0x08);
}

#[test]
fn load_game_refusals() {
    let mut m = Mmu::new();
    assert_eq!(m.load_game(&[]), Err(LoadError::Empty));
    assert_eq!(
        m.load_game(&rom_image(0x13, 0, 0, 2)),
        Err(LoadError::UnsupportedMapper(0x13))
    );
    assert_eq!(
        m.load_game(&rom_image(0x01, 9, 0, 2)),
        Err(LoadError::UnsupportedRomSize(9))
    );
}

#[test]
fn mbc1_switches_banks_through_writes() {
    let mut m = Mmu::new();
    m.load_game(&rom_image(0x03, 2, 3, 8)).unwrap();
    m.write_byte(0xFF50, 1);
    assert_eq!(m.read_byte(0x4001), 1);
    m.write_byte(0x2000, 5);
    assert_eq!(m.read_byte(0x4001), 5);
    m.write_byte(0x2000, 9);
    assert_eq!(m.read_byte(0x4001), 1);
    m.write_byte(0xA000, 0x42);
    assert_eq!(m.read_byte(0xA000), 0xFF);
    m.write_byte(0x0000, 0x0A);
    m.write_byte(0xA000, 0x42);
    assert_eq!(m.read_byte(0xA000), 0x42);
    m.write_byte(0x6000, 1);
    m.write_byte(0x4000, 2);
    assert_eq!(m.read_byte(0xA000), 0x00);
    m.write_byte(0x4000, 0);
    assert_eq!(m.read_byte(0xA000), 0x42);
}

#[test]
fn short_image_is_padded() {
    let mut m = Mmu::new();
    m.load_game(&[0xAA; 0x150]).unwrap_err();
    let mut img = vec![0u8; 0x150];
    img[0x100] = 0xC3;
    m.load_game(&img).unwrap();
    m.write_byte(0xFF50, 1);
    assert_eq!(m.read_byte(0x0100), 0xC3);
    assert_eq!(m.read_byte(0x3FFF), 0x00);
    assert_eq!(m.read_byte(0x4000), 0xFF);
}

#[test]
fn lcd_accessors() {
    let mut m = Mmu::new();
    m.write_byte(0xFF40, 0b0111_1111);
    assert!(m.get_bg_enable() && m.get_obj_enable() && m.get_obj_size());
    assert!(m.get_bg_map_mode() && m.get_tile_mode() && m.get_window_enable());
    assert!(m.get_window_map_mode());
    m.write_byte(0xFF4A, 10);
    m.write_byte(0xFF4B, 20);
    assert_eq!(m.get_window_pos(), (10, 20));
    m.write_byte(0x9C00, 0x11);
    m.write_byte(0x8000, 0x22);
    assert_eq!(m.get_bg_tile_map()[0], 0x11);
    assert_eq!(m.get_window_tile_map()[0], 0x11);
    assert_eq!(m.get_bg_tile_data()[0], 0x22);
    assert_eq!(m.get_oam_tile_data().len(), 0x1000);
    m.write_byte(0xFF40, 0);
    assert_eq!(m.get_bg_tile_map().len(), 0x400);
    assert_eq!(m.get_bg_tile_data()[0x800], 0x00);
    m.write_byte(0xFE03, 9);
    assert_eq!(m.get_oam()[3], 9);
    m.set_window_counter(3);
    assert_eq!(m.get_window_counter(), 3);
}

#[test]
fn div_write_steps_tima_with_the_timer_disabled_too() {
    let mut m = Mmu::new();
    m.write_byte(0xFF07, 0x01);
    m.increment_timer(2, false);
    m.write_byte(0xFF05, 0x10);
    m.write_byte(0xFF04, 0);
    assert_eq!(m.read_byte(0xFF05), 0x11);
    m.write_byte(0xFF04, 0);
    assert_eq!(m.read_byte(0xFF05), 0x11);
}

#[test]
fn loading_a_plain_cartridge_succeeds() {
    let mut m = Mmu::new();
    assert_eq!(m.load_game(&vec![0u8; 0x8000]), Ok(()));
    assert_eq!(m.load_game(&rom_image(0x01, 8, 0, 2)), Ok(()));
}
