use trashgb::mmu::Mmu;
use trashgb::ppu::{draw_scanline, draw_sprites, draw_window, ObjectAttribute, Palette, SpritePixel};

const LIGHT: [u8; 4] = [172, 212, 144, 255];
const BLACK: [u8; 4] = [20, 44, 56, 255];
const WHITE: [u8; 4] = [232, 252, 204, 255];

/// Background tile 0 all color 1, tile 1 all color 3, one sprite with tile 1 at the top left.
fn scene(attrs: u8) -> Mmu {
    let mut m = Mmu::new();
    for row in 0..8u16 {
        m.write_byte(0x8000 + 2 * row, 0xFF);
        m.write_byte(0x8001 + 2 * row, 0x00);
        m.write_byte(0x8010 + 2 * row, 0xFF);
        m.write_byte(0x8011 + 2 * row, 0xFF);
    }
    m.write_byte(0xFE00, 16);
    m.write_byte(0xFE01, 8);
    m.write_byte(0xFE02, 1);
    m.write_byte(0xFE03, attrs);
    m.write_byte(0xFF47, 0xE4);
    m.write_byte(0xFF48, 0xE4);
    m.write_byte(0xFF40, 0x93);
    m
}

fn pixel(frame: &[u8], line: usize, x: usize) -> [u8; 4] {
    let at = line * 640 + 4 * x;
    [frame[at], frame[at + 1], frame[at + 2], frame[at + 3]]
}

#[test]
fn sprite_priority_yields_to_nonzero_background() {
    let m = scene(0x80);
    let mut frame = vec![0u8; 92160];
    draw_scanline(&m, &mut frame, 0, 0, 0);
    assert_eq!(pixel(&frame, 0, 0), LIGHT);
    let m = scene(0x00);
    draw_scanline(&m, &mut frame, 0, 0, 0);
    assert_eq!(pixel(&frame, 0, 0), BLACK);
    assert_eq!(pixel(&frame, 0, 8), LIGHT);
}

#[test]
fn drawing_a_line_twice_gives_the_same_bytes() {
    let m = scene(0x00);
    let mut first = vec![7u8; 92160];
    draw_scanline(&m, &mut first, 3, 5, 2);
    let mut second = first.clone();
    draw_scanline(&m, &mut second, 3, 5, 2);
    assert_eq!(first, second);
    assert_eq!(first[0], 7);
    assert_eq!(first[3 * 640], 7);
}

#[test]
fn background_off_draws_white() {
    let mut m = scene(0x80);
    m.write_byte(0xFF40, 0x92);
    let mut frame = vec![0u8; 92160];
    draw_scanline(&m, &mut frame, 0, 0, 0);
    assert_eq!(pixel(&frame, 0, 0), BLACK);
    assert_eq!(pixel(&frame, 0, 20), WHITE);
}

#[test]
fn sprite_flips_and_lowest_entry_wins() {
    let mut m = scene(0x00);
    // Tile 2: only the leftmost column of row 0 has color 2.
    m.write_byte(0x8021, 0x80);
    m.write_byte(0xFE04, 16);
    m.write_byte(0xFE05, 8);
    m.write_byte(0xFE06, 2);
    m.write_byte(0xFE07, 0x20);
    let mut out = vec![None; 160];
    draw_sprites(&m, 0, &mut out);
    assert_eq!(out[0], Some(SpritePixel { color: 3, palette: false, priority: false }));
    m.write_byte(0xFE01, 0);
    draw_sprites(&m, 0, &mut out);
    assert_eq!(out[7], Some(SpritePixel { color: 2, palette: false, priority: false }));
    assert_eq!(out[0], None);
}

#[test]
fn at_most_ten_sprites_per_line() {
    let mut m = scene(0x00);
    for i in 0..12u16 {
        m.write_byte(0xFE00 + 4 * i, 16);
        m.write_byte(0xFE01 + 4 * i, 8 + 10 * i as u8);
        m.write_byte(0xFE02 + 4 * i, 1);
        m.write_byte(0xFE03 + 4 * i, 0x10);
    }
    let mut out = vec![None; 160];
    draw_sprites(&m, 0, &mut out);
    assert_eq!(out[90], Some(SpritePixel { color: 3, palette: true, priority: false }));
    assert_eq!(out[100], None);
}

#[test]
fn window_covers_from_wx_minus_7() {
    let mut m = scene(0x00);
    m.write_byte(0xFF40, 0xB1);
    m.write_byte(0xFF4A, 0);
    m.write_byte(0xFF4B, 17);
    let mut out = vec![None; 160];
    draw_window(&m, 0, &mut out);
    assert_eq!(out[9], None);
    assert_eq!(out[10], Some(1));
}

#[test]
fn palette_and_attributes_decode() {
    assert_eq!(
        Palette::from_u8(0xE4),
        [Palette::White, Palette::LightGray, Palette::DarkGray, Palette::Black]
    );
    let o = ObjectAttribute::from_bytes([16, 8, 5, 0xF0]);
    assert_eq!((o.y, o.x, o.tile, o.palette), (0, 0, 5, 1));
    assert!(o.priority && o.y_flip && o.x_flip);
}
