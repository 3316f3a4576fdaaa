use crate::alu::signed;
use crate::mmu::{MemState, Mmu};
use vstd::prelude::*;

verus! {

/// The four shades of the display, lightest first.
#[derive(Clone, Copy, Debug, PartialEq, Eq, Structural)]
pub enum Palette {
    White,
    LightGray,
    DarkGray,
    Black,
}

impl Palette {
    pub open spec fn of_index(k: u8) -> Palette {
        if k == 0 {
            Palette::White
        } else if k == 1 {
            Palette::LightGray
        } else if k == 2 {
            Palette::DarkGray
        } else {
            Palette::Black
        }
    }

    /// The shades that palette register `value` gives the color indices 0 to 3 (bits 1..0,
    /// 3..2, 5..4, 7..6).
    pub open spec fn decode(value: u8) -> Seq<Palette> {
        seq![
            Palette::of_index(value & 3),
            Palette::of_index((value >> 2u8) & 3),
            Palette::of_index((value >> 4u8) & 3),
            Palette::of_index((value >> 6u8) & 3),
        ]
    }

    fn from_index(k: u8) -> (r: Palette)
        ensures
            r == Palette::of_index(k),
    {
        if k == 0 {
            Palette::White
        } else if k == 1 {
            Palette::LightGray
        } else if k == 2 {
            Palette::DarkGray
        } else {
            Palette::Black
        }
    }

    pub fn from_u8(value: u8) -> (r: [Palette; 4])
        ensures
            r@ == Palette::decode(value),
    {
        let r = [
            Palette::from_index(value & 3),
            Palette::from_index((value >> 2u8) & 3),
            Palette::from_index((value >> 4u8) & 3),
            Palette::from_index((value >> 6u8) & 3),
        ];
        assert(r@ =~= Palette::decode(value));
        r
    }
}

/// The display's shade as red, green, blue, alpha.
pub open spec fn rgba_of(p: Palette) -> Seq<u8> {
    match p {
        Palette::White => seq![232u8, 252, 204, 255],
        Palette::LightGray => seq![172u8, 212, 144, 255],
        Palette::DarkGray => seq![84u8, 140, 112, 255],
        Palette::Black => seq![20u8, 44, 56, 255],
    }
}

pub fn rgba(p: Palette) -> (r: [u8; 4])
    ensures
        r@ == rgba_of(p),
{
    let r = match p {
        Palette::White => [232u8, 252, 204, 255],
        Palette::LightGray => [172u8, 212, 144, 255],
        Palette::DarkGray => [84u8, 140, 112, 255],
        Palette::Black => [20u8, 44, 56, 255],
    };
    assert(r@ =~= rgba_of(p));
    r
}

/// The 2-bit color of column `x` (0 leftmost) of a tile row: bit 7 - x of the high plane over
/// the same bit of the low plane.
pub open spec fn bitpair(lo: u8, hi: u8, x: int) -> u8 {
    (((hi >> ((7 - x) as u8)) & 1) * 2 + ((lo >> ((7 - x) as u8)) & 1)) as u8
}

/// The color of pixel (`row`, `col`) of the tile whose 16 bytes start at VRAM offset `base`.
pub open spec fn tile_pixel(vram: Seq<u8>, base: int, row: int, col: int) -> u8 {
    bitpair(vram[base + 2 * row], vram[base + 2 * row + 1], col)
}

/// Where tile `n` of the background and window starts in VRAM: unsigned from 8000 when LCDC
/// bit 4 is set, else signed from 9000.
pub open spec fn bg_tile_base(lcdc: u8, n: u8) -> int {
    if lcdc & 0x10 != 0 {
        n * 16
    } else {
        0x1000 + signed(n) * 16
    }
}

/// A sprite's contribution to a pixel: its nonzero color, OBP1 rather than OBP0, and whether it
/// yields to a nonzero background.
#[derive(Clone, Copy, Debug, PartialEq, Eq, Structural)]
pub struct SpritePixel {
    pub color: u8,
    pub palette: bool,
    pub priority: bool,
}

pub const SCREEN_WIDTH: usize = 160;

pub const SCREEN_HEIGHT: usize = 144;

/// The bytes of one RGBA line and of a whole frame.
pub const LINE_BYTES: usize = 640;

pub const FRAME_BYTES: usize = 92160;

impl MemState {
    pub open spec fn lcdc(self) -> u8 {
        self.io[0x40]
    }

    /// Background color index at screen column `x` of `line`, scrolled by SCX and SCY.
    pub open spec fn bg_index(self, line: int, x: int, scx: u8, scy: u8) -> u8 {
        let bx = (x + scx) % 256;
        let by = (line + scy) % 256;
        let map = if self.lcdc() & 0x08 != 0 {
            0x1C00int
        } else {
            0x1800
        };
        let n = self.vram[map + (by / 8) * 32 + bx / 8];
        tile_pixel(self.vram, bg_tile_base(self.lcdc(), n), by % 8, bx % 8)
    }

    /// The window covers a column when it is enabled, LY has reached WY and the column has
    /// reached WX - 7.
    pub open spec fn window_active(self, line: int, x: int) -> bool {
        &&& self.lcdc() & 0x20 != 0
        &&& line >= self.io[0x4A]
        &&& x + 7 >= self.io[0x4B]
    }

    /// Window color index at screen column `x`, on the window's own line counter.
    pub open spec fn window_index(self, x: int) -> u8 {
        let wx = x + 7 - self.io[0x4B];
        let wy = self.window_counter as int;
        let map = if self.lcdc() & 0x40 != 0 {
            0x1C00int
        } else {
            0x1800
        };
        let n = self.vram[map + (wy / 8) * 32 + wx / 8];
        tile_pixel(self.vram, bg_tile_base(self.lcdc(), n), wy % 8, wx % 8)
    }

    pub open spec fn obj_height(self) -> int {
        if self.lcdc() & 0x04 != 0 {
            16
        } else {
            8
        }
    }

    pub open spec fn obj_y(self, i: int) -> int {
        self.oam[4 * i] - 16
    }

    pub open spec fn obj_x(self, i: int) -> int {
        self.oam[4 * i + 1] - 8
    }

    pub open spec fn obj_attr(self, i: int) -> u8 {
        self.oam[4 * i + 3]
    }

    /// Sprite `i` crosses `line`.
    pub open spec fn on_line(self, i: int, line: int) -> bool {
        self.obj_y(i) <= line < self.obj_y(i) + self.obj_height()
    }

    /// The color sprite `i` gives column `c` of `line`, flips applied; 0 where it does not cover
    /// the column. For 8x16 sprites the tile index's low bit is ignored.
    pub open spec fn obj_color(self, i: int, line: int, c: int) -> u8 {
        let ox = self.obj_x(i);
        let attr = self.obj_attr(i);
        let h = self.obj_height();
        if !(ox <= c < ox + 8) {
            0
        } else {
            let col = if attr & 0x20 != 0 {
                7 - (c - ox)
            } else {
                c - ox
            };
            let row = if attr & 0x40 != 0 {
                h - 1 - (line - self.obj_y(i))
            } else {
                line - self.obj_y(i)
            };
            let t = if h == 16 {
                self.oam[4 * i + 2] & 0xFE
            } else {
                self.oam[4 * i + 2]
            };
            tile_pixel(self.vram, t * 16, row, col)
        }
    }

    /// The sprite pixel of column `c`: among the first ten sprites on the line in OAM order
    /// (from entry `i`, with `count` already taken), the lowest entry with a nonzero color there.
    pub open spec fn sprite_at(self, line: int, c: int, i: int, count: int) -> Option<SpritePixel>
        decreases 40 - i,
    {
        if i < 0 || i >= 40 || count >= 10 {
            None
        } else if !self.on_line(i, line) {
            self.sprite_at(line, c, i + 1, count)
        } else if self.obj_color(i, line, c) != 0 {
            Some(
                SpritePixel {
                    color: self.obj_color(i, line, c),
                    palette: self.obj_attr(i) & 0x10 != 0,
                    priority: self.obj_attr(i) & 0x80 != 0,
                },
            )
        } else {
            self.sprite_at(line, c, i + 1, count + 1)
        }
    }

    /// The color index under the sprites: 0 with the background off, else window or
    /// background.
    pub open spec fn under_index(self, line: int, x: int, scx: u8, scy: u8) -> u8 {
        if self.lcdc() & 0x01 == 0 {
            0
        } else if self.window_active(line, x) {
            self.window_index(x)
        } else {
            self.bg_index(line, x, scx, scy)
        }
    }

    /// The shade of one screen pixel: a sprite pixel covers the background unless it has
    /// priority set and the background color index is nonzero.
    pub open spec fn pixel(self, line: int, x: int, scx: u8, scy: u8) -> Palette {
        let u = self.under_index(line, x, scx, scy);
        let under = if self.lcdc() & 0x01 == 0 {
            Palette::White
        } else {
            Palette::decode(self.io[0x47])[u as int]
        };
        let sp = if self.lcdc() & 0x02 != 0 {
            self.sprite_at(line, x, 0, 0)
        } else {
            None
        };
        match sp {
            Some(p) => if !p.priority || u == 0 {
                Palette::decode(self.io[if p.palette { 0x49int } else { 0x48 }])[p.color as int]
            } else {
                under
            },
            None => under,
        }
    }
}

/// Sprite over background: with sprites on, a sprite pixel without the priority bit shows its
/// own palette's shade; one with the priority bit shows the background's shade wherever the
/// background (or window) color index is nonzero, and its own where it is zero.
pub proof fn lemma_sprite_priority(m: MemState, line: int, x: int, scx: u8, scy: u8)
    requires
        m.lcdc() & 0x02 != 0,
        m.sprite_at(line, x, 0, 0) is Some,
    ensures
        ({
            let p = m.sprite_at(line, x, 0, 0).unwrap();
            let u = m.under_index(line, x, scx, scy);
            let own = Palette::decode(m.io[if p.palette { 0x49int } else { 0x48 }])[p.color as int];
            &&& (!p.priority || u == 0) ==> m.pixel(line, x, scx, scy) == own
            &&& (p.priority && u != 0) ==> m.pixel(line, x, scx, scy) == Palette::decode(
                m.io[0x47],
            )[u as int]
        }),
{
}

proof fn lemma_bitpair_range(lo: u8, hi: u8, x: int)
    ensures
        bitpair(lo, hi, x) < 4,
{
    let k = (7 - x) as u8;
    assert((hi >> k) & 1 <= 1 && (lo >> k) & 1 <= 1) by (bit_vector);
}

proof fn lemma_window_index_range(m: MemState, x: int)
    ensures
        m.window_index(x) < 4,
{
    let wx = x + 7 - m.io[0x4B];
    let wy = m.window_counter as int;
    let map = if m.lcdc() & 0x40 != 0 {
        0x1C00int
    } else {
        0x1800
    };
    let n = m.vram[map + (wy / 8) * 32 + wx / 8];
    let base = bg_tile_base(m.lcdc(), n);
    lemma_bitpair_range(m.vram[base + 2 * (wy % 8)], m.vram[base + 2 * (wy % 8) + 1], wx % 8);
}

proof fn lemma_sprite_color_range(m: MemState, line: int, c: int, i: int, count: int)
    ensures
        m.sprite_at(line, c, i, count) matches Some(p) ==> p.color < 4,
    decreases 40 - i,
{
    if i < 0 || i >= 40 || count >= 10 {
    } else if !m.on_line(i, line) {
        lemma_sprite_color_range(m, line, c, i + 1, count);
    } else if m.obj_color(i, line, c) != 0 {
        let ox = m.obj_x(i);
        let attr = m.obj_attr(i);
        let h = m.obj_height();
        let col = if attr & 0x20 != 0 {
            7 - (c - ox)
        } else {
            c - ox
        };
        let row = if attr & 0x40 != 0 {
            h - 1 - (line - m.obj_y(i))
        } else {
            line - m.obj_y(i)
        };
        let t = if h == 16 {
            m.oam[4 * i + 2] & 0xFE
        } else {
            m.oam[4 * i + 2]
        };
        lemma_bitpair_range(m.vram[t * 16 + 2 * row], m.vram[t * 16 + 2 * row + 1], col);
    } else {
        lemma_sprite_color_range(m, line, c, i + 1, count + 1);
    }
}

fn tile_color(mmu: &Mmu, base: usize, row: usize, col: usize) -> (r: u8)
    requires
        mmu.wf(),
        base + 2 * row + 1 < 0x2000,
        col < 8,
    ensures
        r == tile_pixel(mmu@.vram, base as int, row as int, col as int),
        r < 4,
{
    let lo = mmu.vram_byte(base + 2 * row);
    let hi = mmu.vram_byte(base + 2 * row + 1);
    let k = (7 - col) as u8;
    let h1 = (hi >> k) & 1;
    let l1 = (lo >> k) & 1;
    proof {
        lemma_bitpair_range(lo, hi, col as int);
        assert((hi >> k) & 1 <= 1 && (lo >> k) & 1 <= 1) by (bit_vector);
    }
    h1 * 2 + l1
}

fn bg_tile_start(lcdc: u8, n: u8) -> (r: usize)
    ensures
        r == bg_tile_base(lcdc, n),
        r + 16 <= 0x1800,
{
    if lcdc & 0x10 != 0 {
        n as usize * 16
    } else if n < 128 {
        0x1000 + n as usize * 16
    } else {
        0x1000 - (256 - n as usize) * 16
    }
}

/// A sprite's OAM entry, positions moved to screen coordinates.
#[derive(Clone, Copy, Debug, PartialEq, Eq, Structural)]
pub struct ObjectAttribute {
    pub y: i16,
    pub x: i16,
    pub tile: u8,
    pub priority: bool,
    pub y_flip: bool,
    pub x_flip: bool,
    pub palette: usize,
}

impl ObjectAttribute {
    /// Y is stored plus 16 and X plus 8; attribute bit 7 is priority, 6 Y-flip, 5 X-flip, 4 the
    /// palette.
    pub fn from_bytes(bytes: [u8; 4]) -> (r: ObjectAttribute)
        ensures
            r.y == bytes@[0] - 16,
            r.x == bytes@[1] - 8,
            r.tile == bytes@[2],
            r.priority == (bytes@[3] & 0x80 != 0),
            r.y_flip == (bytes@[3] & 0x40 != 0),
            r.x_flip == (bytes@[3] & 0x20 != 0),
            r.palette == (if bytes@[3] & 0x10 != 0 {
                1usize
            } else {
                0
            }),
    {
        ObjectAttribute {
            y: bytes[0] as i16 - 16,
            x: bytes[1] as i16 - 8,
            tile: bytes[2],
            priority: bytes[3] & 0x80 != 0,
            y_flip: bytes[3] & 0x40 != 0,
            x_flip: bytes[3] & 0x20 != 0,
            palette: if bytes[3] & 0x10 != 0 {
                1
            } else {
                0
            },
        }
    }
}

/// Byte `k` of pixel `x` of `line` in an RGBA frame.
pub open spec fn frame_px(frame: Seq<u8>, line: int, x: int, k: int) -> u8 {
    frame[line * LINE_BYTES + 4 * x + k]
}

fn none_line() -> (r: Vec<Option<SpritePixel>>)
    ensures
        r@.len() == SCREEN_WIDTH,
        forall|c: int| 0 <= c < SCREEN_WIDTH ==> r@[c].is_none(),
{
    let mut v: Vec<Option<SpritePixel>> = Vec::with_capacity(SCREEN_WIDTH);
    let mut c: usize = 0;
    while c < SCREEN_WIDTH
        invariant
            c <= SCREEN_WIDTH,
            v@.len() == c,
            forall|j: int| 0 <= j < c ==> v@[j].is_none(),
        decreases SCREEN_WIDTH - c,
    {
        v.push(None);
        c = c + 1;
    }
    v
}

/// Fills `output` with the sprite pixel of each column of `line`: the first ten sprites on the
/// line in OAM order are taken, and where they overlap the lowest OAM entry with a nonzero
/// color wins.
pub fn draw_sprites(mmu: &Mmu, line: u8, output: &mut Vec<Option<SpritePixel>>)
    requires
        mmu.wf(),
        old(output)@.len() == SCREEN_WIDTH,
    ensures
        final(output)@.len() == SCREEN_WIDTH,
        forall|c: int|
            0 <= c < SCREEN_WIDTH ==> #[trigger] final(output)@[c] == mmu@.sprite_at(
                line as int,
                c,
                0,
                0,
            ),
{
    let mut c: usize = 0;
    while c < SCREEN_WIDTH
        invariant
            c <= SCREEN_WIDTH,
            output@.len() == SCREEN_WIDTH,
            forall|j: int| 0 <= j < c ==> output@[j].is_none(),
        decreases SCREEN_WIDTH - c,
    {
        output.set(c, None);
        c = c + 1;
    }
    let h: i32 = if mmu.get_obj_size() {
        16
    } else {
        8
    };
    let l = line as i32;
    let mut i: usize = 0;
    let mut count: usize = 0;
    while i < 40 && count < 10
        invariant
            mmu.wf(),
            output@.len() == SCREEN_WIDTH,
            i <= 40,
            count <= 10,
            h == mmu@.obj_height(),
            l == line as int,
            forall|c: int|
                0 <= c < SCREEN_WIDTH ==> mmu@.sprite_at(line as int, c, 0, 0) == (
                if output@[c].is_some() {
                    output@[c]
                } else {
                    mmu@.sprite_at(line as int, c, i as int, count as int)
                }),
        decreases 40 - i,
    {
        let obj = ObjectAttribute::from_bytes(
            [
                mmu.oam_byte(4 * i),
                mmu.oam_byte(4 * i + 1),
                mmu.oam_byte(4 * i + 2),
                mmu.oam_byte(4 * i + 3),
            ],
        );
        let oy = obj.y as i32;
        let ox = obj.x as i32;
        let ghost before = output@;
        let ghost ii = i as int;
        let ghost attr = mmu@.obj_attr(ii);
        if oy <= l && l < oy + h {
            let t: usize = if h == 16 {
                (obj.tile & 0xFE) as usize
            } else {
                obj.tile as usize
            };
            proof {
                let tile = obj.tile;
                assert(tile & 0xFE <= 254) by (bit_vector);
            }
            let row: i32 = if obj.y_flip {
                h - 1 - (l - oy)
            } else {
                l - oy
            };
            let mut px: i32 = 0;
            while px < 8
                invariant
                    mmu.wf(),
                    output@.len() == SCREEN_WIDTH,
                    0 <= px <= 8,
                    0 <= row < h,
                    h == mmu@.obj_height(),
                    h == 16 ==> t <= 254,
                    t <= 255,
                    t == (if h == 16 {
                        mmu@.oam[4 * ii + 2] & 0xFE
                    } else {
                        mmu@.oam[4 * ii + 2]
                    }),
                    ox == mmu@.obj_x(ii),
                    oy == mmu@.obj_y(ii),
                    row == (if attr & 0x40 != 0 {
                        h - 1 - (line - oy)
                    } else {
                        line - oy
                    }),
                    attr == mmu@.obj_attr(ii),
                    obj.x_flip == (attr & 0x20 != 0),
                    obj.palette == (if attr & 0x10 != 0 {
                        1usize
                    } else {
                        0
                    }),
                    obj.priority == (attr & 0x80 != 0),
                    0 <= ii < 40,
                    forall|c: int|
                        0 <= c < SCREEN_WIDTH ==> output@[c] == (if ox <= c < ox + px
                            && before[c].is_none() && mmu@.obj_color(ii, line as int, c) != 0 {
                            Some(
                                SpritePixel {
                                    color: mmu@.obj_color(ii, line as int, c),
                                    palette: attr & 0x10 != 0,
                                    priority: attr & 0x80 != 0,
                                },
                            )
                        } else {
                            before[c]
                        }),
                decreases 8 - px,
            {
                let c = ox + px;
                if 0 <= c && c < SCREEN_WIDTH as i32 && output[c as usize].is_none() {
                    let col: i32 = if obj.x_flip {
                        7 - px
                    } else {
                        px
                    };
                    let color = tile_color(mmu, t * 16, row as usize, col as usize);
                    if color != 0 {
                        output.set(
                            c as usize,
                            Some(
                                SpritePixel {
                                    color,
                                    palette: obj.palette == 1,
                                    priority: obj.priority,
                                },
                            ),
                        );
                    }
                }
                px = px + 1;
            }
            count = count + 1;
        }
        i = i + 1;
    }
}

/// Fills `output` with the window's color index of each column of `line`, or `None` where
/// the window does not cover it.
pub fn draw_window(mmu: &Mmu, line: u8, output: &mut Vec<Option<u8>>)
    requires
        mmu.wf(),
        old(output)@.len() == SCREEN_WIDTH,
    ensures
        final(output)@.len() == SCREEN_WIDTH,
        forall|c: int|
            0 <= c < SCREEN_WIDTH ==> #[trigger] final(output)@[c] == (if mmu@.window_active(
                line as int,
                c,
            ) {
                Some(mmu@.window_index(c))
            } else {
                None
            }),
{
    let (wy, wx) = mmu.get_window_pos();
    let enabled = mmu.get_window_enable();
    let lcdc = mmu.io_byte(0x40);
    let map: usize = if mmu.get_window_map_mode() {
        0x1C00
    } else {
        0x1800
    };
    let y = mmu.get_window_counter() as usize;
    let mut c: usize = 0;
    while c < SCREEN_WIDTH
        invariant
            mmu.wf(),
            output@.len() == SCREEN_WIDTH,
            c <= SCREEN_WIDTH,
            wy == mmu@.io[0x4A],
            wx == mmu@.io[0x4B],
            lcdc == mmu@.lcdc(),
            enabled == (lcdc & 0x20 != 0),
            map == (if lcdc & 0x40 != 0 {
                0x1C00int
            } else {
                0x1800
            }),
            y == mmu@.window_counter,
            forall|j: int|
                0 <= j < c ==> output@[j] == (if mmu@.window_active(line as int, j) {
                    Some(mmu@.window_index(j))
                } else {
                    None
                }),
        decreases SCREEN_WIDTH - c,
    {
        if enabled && line >= wy && c + 7 >= wx as usize {
            let x = c + 7 - wx as usize;
            let n = mmu.vram_byte(map + (y / 8) * 32 + x / 8);
            let color = tile_color(mmu, bg_tile_start(lcdc, n), y % 8, x % 8);
            output.set(c, Some(color));
        } else {
            output.set(c, None);
        }
        c = c + 1;
    }
}

fn bg_color_index(mmu: &Mmu, line: u8, x: usize, scx: u8, scy: u8) -> (r: u8)
    requires
        mmu.wf(),
        x < SCREEN_WIDTH,
    ensures
        r == mmu@.bg_index(line as int, x as int, scx, scy),
        r < 4,
{
    let bx = (x + scx as usize) % 256;
    let by = (line as usize + scy as usize) % 256;
    let map: usize = if mmu.get_bg_map_mode() {
        0x1C00
    } else {
        0x1800
    };
    let n = mmu.vram_byte(map + (by / 8) * 32 + bx / 8);
    tile_color(mmu, bg_tile_start(mmu.io_byte(0x40), n), by % 8, bx % 8)
}

/// Renders `line` into its 640 bytes of `frame`: background scrolled by `scx`/`scy`, window,
/// then sprites, each pixel the RGBA of its shade. The rest of the frame is not touched.
pub fn draw_scanline(mmu: &Mmu, frame: &mut Vec<u8>, scx: u8, scy: u8, line: u8)
    requires
        mmu.wf(),
        old(frame)@.len() == FRAME_BYTES,
        line < SCREEN_HEIGHT,
    ensures
        final(frame)@.len() == FRAME_BYTES,
        forall|x: int, k: int|
            0 <= x < SCREEN_WIDTH && 0 <= k < 4 ==> #[trigger] frame_px(
                final(frame)@,
                line as int,
                x,
                k,
            )
                == rgba_of(mmu@.pixel(line as int, x, scx, scy))[k],
        forall|j: int|
            0 <= j < FRAME_BYTES && !(line * LINE_BYTES <= j < line * LINE_BYTES + LINE_BYTES)
                ==> #[trigger] final(frame)@[j] == old(frame)@[j],
{
    let mut sprites = none_line();
    draw_sprites(mmu, line, &mut sprites);
    let mut window: Vec<Option<u8>> = Vec::with_capacity(SCREEN_WIDTH);
    let mut c: usize = 0;
    while c < SCREEN_WIDTH
        invariant
            c <= SCREEN_WIDTH,
            window@.len() == c,
        decreases SCREEN_WIDTH - c,
    {
        window.push(None);
        c = c + 1;
    }
    draw_window(mmu, line, &mut window);
    let bg_on = mmu.get_bg_enable();
    let obj_on = mmu.get_obj_enable();
    let bgp = mmu.get_bg_palette();
    let obp0 = mmu.get_obj_palette(0);
    let obp1 = mmu.get_obj_palette(1);
    let base = line as usize * LINE_BYTES;
    let ghost m = mmu@;
    let mut x: usize = 0;
    while x < SCREEN_WIDTH
        invariant
            mmu.wf(),
            m == mmu@,
            x <= SCREEN_WIDTH,
            line < SCREEN_HEIGHT,
            base == line * LINE_BYTES,
            frame@.len() == FRAME_BYTES,
            sprites@.len() == SCREEN_WIDTH,
            window@.len() == SCREEN_WIDTH,
            forall|c: int|
                0 <= c < SCREEN_WIDTH ==> sprites@[c] == m.sprite_at(line as int, c, 0, 0),
            forall|c: int|
                0 <= c < SCREEN_WIDTH ==> window@[c] == (if m.window_active(line as int, c) {
                    Some(m.window_index(c))
                } else {
                    None
                }),
            bg_on == (m.lcdc() & 0x01 != 0),
            obj_on == (m.lcdc() & 0x02 != 0),
            bgp@ == Palette::decode(m.io[0x47]),
            obp0@ == Palette::decode(m.io[0x48]),
            obp1@ == Palette::decode(m.io[0x49]),
            forall|c: int, k: int|
                0 <= c < x && 0 <= k < 4 ==> #[trigger] frame_px(frame@, line as int, c, k)
                    == rgba_of(m.pixel(line as int, c, scx, scy))[k],
            forall|j: int|
                0 <= j < FRAME_BYTES && !(base <= j < base + 4 * x) ==> #[trigger] frame@[j]
                    == old(frame)@[j],
        decreases SCREEN_WIDTH - x,
    {
        let u: u8 = if !bg_on {
            0
        } else {
            match window[x] {
                Some(w) => w,
                None => bg_color_index(mmu, line, x, scx, scy),
            }
        };
        proof {
            lemma_window_index_range(m, x as int);
            lemma_sprite_color_range(m, line as int, x as int, 0, 0);
        }
        let under = if !bg_on {
            Palette::White
        } else {
            bgp[u as usize]
        };
        let shade = if !obj_on {
            under
        } else {
            match sprites[x] {
                Some(p) => if !p.priority || u == 0 {
                    if p.palette {
                        obp1[p.color as usize]
                    } else {
                        obp0[p.color as usize]
                    }
                } else {
                    under
                },
                None => under,
            }
        };
        assert(shade == m.pixel(line as int, x as int, scx, scy));
        let bytes = rgba(shade);
        let at = base + 4 * x;
        let ghost prev = frame@;
        frame.set(at, bytes[0]);
        frame.set(at + 1, bytes[1]);
        frame.set(at + 2, bytes[2]);
        frame.set(at + 3, bytes[3]);
        proof {
            assert forall|c: int, k: int| 0 <= c < x + 1 && 0 <= k < 4 implies #[trigger] frame_px(
                frame@,
                line as int,
                c,
                k,
            ) == rgba_of(m.pixel(line as int, c, scx, scy))[k] by {
                if c < x {
                    assert(frame_px(prev, line as int, c, k) == rgba_of(
                        m.pixel(line as int, c, scx, scy),
                    )[k]);
                } else {
                    assert(bytes@ == rgba_of(shade));
                }
            }
        }
        x = x + 1;
    }
}

} // verus!
