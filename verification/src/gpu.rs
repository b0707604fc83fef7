//! Pixel processing unit: scanline/mode state machine, LCD control register
//! decoding, and the background and sprite rendering passes.

use vstd::prelude::*;
use crate::texture::Tile;
use crate::texture::spec_tile;

verus! {

/// First bus address of VRAM.
pub const VRAM_START: usize = 0x8000;

/// Last bus address of VRAM.
pub const VRAM_END: usize = 0x9FFF;

/// First bus address of the sprite attribute table.
pub const OAM_START: usize = 0xFE00;

/// Last bus address of the sprite attribute table.
pub const OAM_END: usize = 0xFE9F;

/// Scanline on which the VBlank interval starts.
pub const END_HBLANK: u8 = 144;

/// One past the last VBlank scanline; the line counter wraps here.
pub const END_VBLANK: u8 = 154;

/// The four scanning phases of the PPU.
#[derive(Clone, Copy, Debug, PartialEq, Eq, Structural)]
pub enum GpuMode {
    HBlank,
    VBlank,
    OAM,
    VRAM,
}

/// Dots a mode lasts before the next transition.
pub open spec fn mode_budget(m: GpuMode) -> int {
    match m {
        GpuMode::OAM => 80,
        GpuMode::VRAM => 172,
        GpuMode::HBlank => 204,
        GpuMode::VBlank => 456,
    }
}

/// PPU state: mode machine position, scanline counter, video memories and the
/// LCD registers.
pub struct GPU {
    pub mode: GpuMode,
    pub clock: usize,
    pub scanline: u8,
    pub vram: Vec<u8>,
    pub oam: Vec<u8>,
    pub lcdc: u8,
    pub lcdstat: u8,
    pub hscroll: u8,
    pub vscroll: u8,
    pub bgrdpal: u8,
    pub obj0pal: u8,
    pub obj1pal: u8,
    pub windowx: u8,
    pub windowy: u8,
    pub vblank_count: usize,
}

impl GPU {
    /// Memory sizes are fixed, the mode clock never reaches its budget, and
    /// the scanline is below 154 and in the VBlank band exactly during VBlank.
    pub open spec fn wf(self) -> bool {
        &&& self.vram@.len() == 0x2000
        &&& self.oam@.len() == 0xA0
        &&& (self.clock as int) < mode_budget(self.mode)
        &&& self.scanline < 154
        &&& (self.mode is VBlank <==> self.scanline >= 144)
    }

    /// LCDC bit 7: display enable.
    pub open spec fn spec_is_on(self) -> bool {
        self.lcdc & 0b1000_0000 == 0b1000_0000
    }

    /// LCDC bit 1: sprite display enable.
    pub open spec fn spec_sprites_enabled(self) -> bool {
        self.lcdc & 0b10 == 0b10
    }

    /// VRAM offset of the background tile map, from LCDC bit 3.
    pub open spec fn spec_bg_map_base(self) -> int {
        if self.lcdc & 0b0000_1000 != 0 {
            0x1C00
        } else {
            0x1800
        }
    }

    /// VRAM offset of the first byte of tile `t`'s data, from LCDC bit 4:
    /// set means unsigned indexing from 0x8000, clear means two's-complement
    /// indexing around 0x9000.
    pub open spec fn spec_tile_data_start(self, t: u8) -> int {
        if self.lcdc & 0b0001_0000 != 0 {
            16 * t
        } else if t >= 128 {
            16 * t
        } else {
            0x1000 + 16 * t
        }
    }

    /// Whether a step taken now (after the dot was counted) crosses the
    /// HBlank boundary into scanline 144 and so requests a VBlank interrupt.
    pub open spec fn step_requests_vblank(self) -> bool {
        &&& self.mode is HBlank
        &&& self.clock >= 204
        &&& self.scanline == 143
    }

    /// The state after one step of the mode machine (the current dot already
    /// counted into `clock`).
    pub open spec fn spec_step(self) -> GPU {
        match self.mode {
            GpuMode::OAM => if self.clock >= 80 {
                GPU { mode: GpuMode::VRAM, clock: 0, ..self }
            } else {
                self
            },
            GpuMode::VRAM => if self.clock >= 172 {
                GPU { mode: GpuMode::HBlank, clock: 0, ..self }
            } else {
                self
            },
            GpuMode::HBlank => if self.clock >= 204 {
                if self.scanline == 143 {
                    GPU {
                        mode: GpuMode::VBlank,
                        clock: 0,
                        scanline: 144,
                        vblank_count: (self.vblank_count + 1) as usize,
                        ..self
                    }
                } else {
                    GPU {
                        mode: GpuMode::OAM,
                        clock: 0,
                        scanline: (self.scanline + 1) as u8,
                        ..self
                    }
                }
            } else {
                self
            },
            GpuMode::VBlank => if self.clock >= 456 {
                if self.scanline == 153 {
                    GPU { mode: GpuMode::OAM, clock: 0, scanline: 0, ..self }
                } else {
                    GPU { clock: 0, scanline: (self.scanline + 1) as u8, ..self }
                }
            } else {
                self
            },
        }
    }

    /// Whether one PPU dot advanced from this state requests a VBlank
    /// interrupt.
    pub open spec fn cycle_requests_vblank(self) -> bool {
        &&& self.spec_is_on()
        &&& GPU { clock: (self.clock + 1) as usize, ..self }.step_requests_vblank()
    }

    /// The state after one PPU dot: frozen while the LCD is off, otherwise
    /// count the dot and step the mode machine.
    pub open spec fn spec_cycle(self) -> GPU {
        if !self.spec_is_on() {
            self
        } else {
            GPU { clock: (self.clock + 1) as usize, ..self }.spec_step()
        }
    }

    /// The reset state: OAM scan of scanline 0, all registers and memories
    /// zero.
    pub open spec fn is_reset(self) -> bool {
        &&& self.mode is OAM
        &&& self.clock == 0
        &&& self.scanline == 0
        &&& self.lcdc == 0
        &&& self.lcdstat == 0
        &&& self.hscroll == 0
        &&& self.vscroll == 0
        &&& self.bgrdpal == 0
        &&& self.obj0pal == 0
        &&& self.obj1pal == 0
        &&& self.windowx == 0
        &&& self.windowy == 0
        &&& self.vblank_count == 0
        &&& self.vram@ == Seq::new(0x2000, |i: int| 0u8)
        &&& self.oam@ == Seq::new(0xA0, |i: int| 0u8)
    }

    /// Reset state: OAM scan of scanline 0, all registers and memories zero.
    pub fn new() -> (g: GPU)
        ensures
            g.wf(),
            g.is_reset(),
    {
        GPU {
            mode: GpuMode::OAM,
            clock: 0,
            scanline: 0,
            lcdc: 0,
            lcdstat: 0,
            vscroll: 0,
            hscroll: 0,
            bgrdpal: 0,
            obj0pal: 0,
            obj1pal: 0,
            windowx: 0,
            windowy: 0,
            vblank_count: 0,
            vram: crate::zeroed_bytes(0x2000),
            oam: crate::zeroed_bytes(0xA0),
        }
    }

    /// LCDC bit 7: whether the display is enabled.
    pub fn is_on(&self) -> (r: bool)
        ensures
            r == self.spec_is_on(),
    {
        self.lcdc & 0b1000_0000 == 0b1000_0000
    }

    /// VRAM offset range (inclusive) of the window tile map, from LCDC bit 6.
    pub fn window_tile_map_display_select(&self) -> (r: (usize, usize))
        ensures
            r.0 == if self.lcdc & 0b0100_0000 != 0 { 0x1C00int } else { 0x1800int },
            r.1 == r.0 + 0x3FF,
    {
        if self.lcdc & 0b0100_0000 != 0 {
            (0x1C00, 0x1FFF)
        } else {
            (0x1800, 0x1BFF)
        }
    }

    /// VRAM offset range (inclusive) holding background and window tile data,
    /// from LCDC bit 4.
    pub fn bg_and_window_tile_data_select(&self) -> (r: (usize, usize))
        ensures
            r.0 == if self.lcdc & 0b0001_0000 != 0 { 0int } else { 0x800int },
            r.1 == r.0 + 0xFFF,
    {
        if self.lcdc & 0b0001_0000 != 0 {
            (0x0000, 0x0FFF)
        } else {
            (0x0800, 0x17FF)
        }
    }

    /// VRAM offset range (exclusive end) of tile `value`'s 16 data bytes
    /// under the current LCDC bit 4 addressing mode.
    pub fn bg_tile_data(&self, value: u8) -> (r: (usize, usize))
        ensures
            r.0 == self.spec_tile_data_start(value),
            r.1 == r.0 + 16,
            0 <= r.0 && r.1 <= 0x1800,
    {
        if self.lcdc & 0b0001_0000 != 0 {
            let start = value as usize * 16;
            (start, start + 16)
        } else if value >= 128 {
            let start = value as usize * 16;
            (start, start + 16)
        } else {
            let start = 0x1000 + value as usize * 16;
            (start, start + 16)
        }
    }

    /// VRAM offset range (inclusive) of the background tile map, from LCDC
    /// bit 3.
    pub fn bg_tile_map_display_select(&self) -> (r: (usize, usize))
        ensures
            r.0 == self.spec_bg_map_base(),
            r.1 == r.0 + 0x3FF,
    {
        if self.lcdc & 0b0000_1000 != 0 {
            (0x1C00, 0x1FFF)
        } else {
            (0x1800, 0x1BFF)
        }
    }

    /// LCDC bit 1: whether sprites are drawn.
    pub fn sprite_display_enabled(&self) -> (r: bool)
        ensures
            r == self.spec_sprites_enabled(),
    {
        self.lcdc & 0b10 == 0b10
    }

    /// Advance the PPU one dot: a no-op while the LCD is off, otherwise count
    /// the dot and step the mode machine, requesting a VBlank interrupt in
    /// `flag` when the frame's drawing phase ends.
    pub fn cycle(&mut self, flag: &mut u8)
        requires
            old(self).wf(),
            old(self).vblank_count < usize::MAX,
        ensures
            *final(self) == old(self).spec_cycle(),
            final(self).wf(),
            *final(flag) == if old(self).cycle_requests_vblank() {
                *old(flag) | crate::VBLANK
            } else {
                *old(flag)
            },
    {
        if !self.is_on() {
            return;
        }
        self.clock = self.clock + 1;
        self.step(flag);
    }

    /// Scroll registers `(SCX, SCY)`.
    pub fn scroll(&self) -> (s: (u32, u32))
        ensures
            s.0 == self.hscroll,
            s.1 == self.vscroll,
    {
        (self.hscroll as u32, self.vscroll as u32)
    }

    /// Decode all 384 tiles of the tile data region through the background
    /// palette.
    pub fn tiles(&self) -> (ts: Vec<Tile>)
        requires
            self.wf(),
        ensures
            ts@.len() == 384,
            forall|i: int| 0 <= i < 384 ==> (#[trigger] ts@[i]).wf(),
            forall|i: int|
                0 <= i < 384 ==> (#[trigger] ts@[i]).texture@
                    == spec_tile(self.bgrdpal, self.vram@.subrange(16 * i, 16 * i + 16)),
    {
        let mut ts: Vec<Tile> = Vec::new();
        let mut i: usize = 0;
        while i < 384
            invariant
                self.wf(),
                i <= 384,
                ts@.len() == i,
                forall|j: int| 0 <= j < i ==> (#[trigger] ts@[j]).wf(),
                forall|j: int|
                    0 <= j < i ==> (#[trigger] ts@[j]).texture@
                        == spec_tile(self.bgrdpal, self.vram@.subrange(16 * j, 16 * j + 16)),
            decreases 384 - i,
        {
            let tile = Tile::construct(self.bgrdpal, &self.vram[16 * i..16 * i + 16]);
            ts.push(tile);
            i = i + 1;
        }
        ts
    }

    /// Step the mode machine once; `clock` already counts the dot being
    /// processed. Requests a VBlank interrupt in `flag` when HBlank of
    /// scanline 143 completes.
    pub fn step(&mut self, flag: &mut u8)
        requires
            old(self).scanline < 154,
            old(self).vblank_count < usize::MAX,
        ensures
            *final(self) == old(self).spec_step(),
            *final(flag) == if old(self).step_requests_vblank() {
                *old(flag) | crate::VBLANK
            } else {
                *old(flag)
            },
    {
        match self.mode {
            GpuMode::OAM => {
                if self.clock >= 80 {
                    self.mode = GpuMode::VRAM;
                    self.clock = 0;
                }
            },
            GpuMode::VRAM => {
                if self.clock >= 172 {
                    self.mode = GpuMode::HBlank;
                    self.clock = 0;
                }
            },
            GpuMode::HBlank => {
                if self.clock >= 204 {
                    self.scanline = self.scanline + 1;
                    if self.scanline == END_HBLANK {
                        self.vblank_count = self.vblank_count + 1;
                        *flag = *flag | crate::VBLANK;
                        self.mode = GpuMode::VBlank;
                    } else {
                        self.mode = GpuMode::OAM;
                    }
                    self.clock = 0;
                }
            },
            GpuMode::VBlank => {
                if self.clock >= 456 {
                    self.scanline = self.scanline + 1;
                    if self.scanline == END_VBLANK {
                        self.mode = GpuMode::OAM;
                        self.scanline = 0;
                    }
                    self.clock = 0;
                }
            },
        }
    }
}

impl Default for GPU {
    /// Same state as `GPU::new`.
    fn default() -> (g: GPU)
        ensures
            g.wf(),
            g.is_reset(),
    {
        GPU::new()
    }
}

/// The 256x256 background framebuffer: RGB565 words, row-major.
pub struct PixelData {
    pub pixels: Vec<u16>,
}

impl PixelData {
    /// The buffer always holds exactly 256 * 256 words.
    pub open spec fn wf(self) -> bool {
        self.pixels@.len() == 0x10000
    }

    /// Word at column `x` of row `y`.
    pub open spec fn spec_at(self, x: int, y: int) -> u16 {
        self.pixels@[y * 256 + x]
    }

    /// An all-zero framebuffer.
    pub fn new() -> (p: PixelData)
        ensures
            p.wf(),
            p.pixels@ == Seq::new(0x10000, |i: int| 0u16),
    {
        PixelData { pixels: crate::zeroed_words(0x10000) }
    }

    /// Read the word at column `x` of row `y`.
    pub fn get(&self, x: usize, y: usize) -> (w: u16)
        requires
            self.wf(),
            x < 256,
            y < 256,
        ensures
            w == self.spec_at(x as int, y as int),
    {
        self.pixels[y * 256 + x]
    }

    /// Overwrite the word at column `x` of row `y`.
    pub fn set(&mut self, x: usize, y: usize, w: u16)
        requires
            old(self).wf(),
            x < 256,
            y < 256,
        ensures
            final(self).wf(),
            final(self).pixels@ == old(self).pixels@.update(y * 256 + x, w),
    {
        self.pixels.set(y * 256 + x, w);
    }

    /// The 160x144 window the display shows, cropped at scroll position
    /// `(scx, scy)` with wrap-around at the map edges.
    pub fn window(&self, scx: u8, scy: u8) -> (w: Vec<u16>)
        requires
            self.wf(),
        ensures
            w@.len() == 160 * 144,
            forall|j: int|
                0 <= j < 160 * 144 ==> #[trigger] w@[j]
                    == self.spec_at((scx + j % 160) % 256, (scy + j / 160) % 256),
    {
        let mut w: Vec<u16> = Vec::new();
        let mut y: usize = 0;
        while y < 144
            invariant
                self.wf(),
                y <= 144,
                w@.len() == y * 160,
                forall|j: int|
                    0 <= j < w@.len() ==> w@[j]
                        == self.spec_at((scx + j % 160) % 256, (scy + j / 160) % 256),
            decreases 144 - y,
        {
            let mut x: usize = 0;
            while x < 160
                invariant
                    self.wf(),
                    y < 144,
                    x <= 160,
                    w@.len() == y * 160 + x,
                    forall|j: int|
                        0 <= j < w@.len() ==> w@[j]
                            == self.spec_at((scx + j % 160) % 256, (scy + j / 160) % 256),
                decreases 160 - x,
            {
                let fx = (scx as usize + x) % 256;
                let fy = (scy as usize + y) % 256;
                w.push(self.get(fx, fy));
                proof {
                    vstd::arithmetic::div_mod::lemma_fundamental_div_mod_converse(
                        (y * 160 + x) as int, 160, y as int, x as int);
                }
                x = x + 1;
            }
            y = y + 1;
        }
        w
    }
}

/// A window index `y * 160 + x` decomposes back into its row and column.
pub proof fn lemma_window_index(x: int, y: int)
    requires
        0 <= x < 160,
        0 <= y < 144,
    ensures
        0 <= y * 160 + x < 160 * 144,
        (y * 160 + x) % 160 == x,
        (y * 160 + x) / 160 == y,
{
    vstd::arithmetic::div_mod::lemma_fundamental_div_mod_converse(y * 160 + x, 160, y, x);
}

impl PixelData {

    /// Serialize the whole buffer, row-major, each pixel as two little-endian
    /// bytes.
    pub fn to_bytes(&self) -> (r: Vec<u8>)
        requires
            self.wf(),
        ensures
            r@.len() == 0x20000,
            forall|i: int|
                0 <= i < 0x10000 ==> r@[2 * i] == crate::texture::le_byte(self.pixels@[i], 0)
                    && r@[2 * i + 1] == crate::texture::le_byte(self.pixels@[i], 1),
    {
        let mut r: Vec<u8> = Vec::new();
        let mut i: usize = 0;
        while i < 0x10000
            invariant
                self.wf(),
                i <= 0x10000,
                r@.len() == 2 * i,
                forall|j: int|
                    0 <= j < i ==> r@[2 * j] == crate::texture::le_byte(self.pixels@[j], 0)
                        && r@[2 * j + 1] == crate::texture::le_byte(self.pixels@[j], 1),
            decreases 0x10000 - i,
        {
            let word = self.pixels[i];
            proof {
                assert((word & 0xFF) < 256 && (word >> 8) < 256) by (bit_vector);
            }
            r.push((word & 0xFF) as u8);
            r.push((word >> 8) as u8);
            i = i + 1;
        }
        r
    }
}

/// A framebuffer index decomposes into its column `i % 256` and row
/// `i / 256`, each of which splits again into a tile cell and an offset.
proof fn lemma_fb_coords(i: int)
    requires
        0 <= i < 0x10000,
    ensures
        ({
            let x = i % 256;
            let y = i / 256;
            &&& 0 <= x < 256 && 0 <= y < 256
            &&& i == y * 256 + x
            &&& 0 <= x % 8 < 8 && 0 <= x / 8 < 32
            &&& 0 <= y % 8 < 8 && 0 <= y / 8 < 32
            &&& x == 8 * (x / 8) + x % 8
            &&& y == 8 * (y / 8) + y % 8
        }),
{
    vstd::arithmetic::div_mod::lemma_fundamental_div_mod(i, 256);
    vstd::arithmetic::div_mod::lemma_mod_bound(i, 256);
    vstd::arithmetic::div_mod::lemma_div_pos_is_pos(i, 256);
    let x = i % 256;
    let y = i / 256;
    vstd::arithmetic::div_mod::lemma_fundamental_div_mod(x, 8);
    vstd::arithmetic::div_mod::lemma_mod_bound(x, 8);
    vstd::arithmetic::div_mod::lemma_div_pos_is_pos(x, 8);
    vstd::arithmetic::div_mod::lemma_fundamental_div_mod(y, 8);
    vstd::arithmetic::div_mod::lemma_mod_bound(y, 8);
    vstd::arithmetic::div_mod::lemma_div_pos_is_pos(y, 8);
}

/// Column `x` of row `y` is framebuffer index `y * 256 + x`.
proof fn lemma_fb_index(x: int, y: int)
    requires
        0 <= x < 256,
        0 <= y < 256,
    ensures
        0 <= y * 256 + x < 0x10000,
        (y * 256 + x) % 256 == x,
        (y * 256 + x) / 256 == y,
{
    vstd::arithmetic::div_mod::lemma_fundamental_div_mod_converse(y * 256 + x, 256, y, x);
}

/// Pixel offset `k` of tile cell `m` along one axis sits at coordinate
/// `8 * m + k`.
proof fn lemma_cell_coord(m: int, k: int)
    requires
        0 <= m,
        0 <= k < 8,
    ensures
        (8 * m + k) / 8 == m,
        (8 * m + k) % 8 == k,
{
    vstd::arithmetic::div_mod::lemma_fundamental_div_mod_converse(8 * m + k, 8, m, k);
}

impl GPU {
    /// RGB565 word the background pass paints at column `x` of row `y`: the
    /// tile map cell `(x / 8, y / 8)` names a tile whose data is decoded
    /// through the background palette.
    pub open spec fn bg_pixel(self, x: int, y: int) -> u16 {
        let t = self.vram@[self.spec_bg_map_base() + 32 * (y / 8) + x / 8];
        let ts = self.spec_tile_data_start(t);
        spec_tile(self.bgrdpal, self.vram@.subrange(ts, ts + 16))[8 * (y % 8) + x % 8]
    }

    /// The whole background picture, row-major.
    pub open spec fn bg_frame(self) -> Seq<u16> {
        Seq::new(0x10000, |i: int| self.bg_pixel(i % 256, i / 256))
    }

    /// Sprite slot `s` is drawn unless all four of its attribute bytes are
    /// zero (the sentinel for an unused slot).
    pub open spec fn sprite_live(self, s: int) -> bool {
        ||| self.oam@[4 * s] != 0
        ||| self.oam@[4 * s + 1] != 0
        ||| self.oam@[4 * s + 2] != 0
        ||| self.oam@[4 * s + 3] != 0
    }

    /// Leftmost framebuffer column of sprite `s`: its raw X minus 8 with
    /// wrap-around, shifted by the horizontal scroll.
    pub open spec fn sprite_x0(self, s: int) -> int {
        (self.oam@[4 * s + 1] + 248) % 256 + self.hscroll
    }

    /// Topmost framebuffer row of sprite `s`: its raw Y minus 16 with
    /// wrap-around, shifted by the vertical scroll.
    pub open spec fn sprite_y0(self, s: int) -> int {
        (self.oam@[4 * s] + 240) % 256 + self.vscroll
    }

    /// Pixels of sprite `s`: its tile index addresses the tile data region
    /// from 0x8000, decoded through object palette 0.
    pub open spec fn sprite_tile(self, s: int) -> Seq<u16> {
        let p = self.oam@[4 * s + 2];
        spec_tile(self.obj0pal, self.vram@.subrange(16 * p, 16 * p + 16))
    }

    /// Whether sprite `s` paints column `x` of row `y`; pixels past the map
    /// edge are clipped, not wrapped.
    pub open spec fn sprite_covers(self, s: int, x: int, y: int) -> bool {
        &&& self.sprite_x0(s) <= x < self.sprite_x0(s) + 8
        &&& self.sprite_y0(s) <= y < self.sprite_y0(s) + 8
    }

    /// The framebuffer after sprite `s` is drawn over `fb`.
    pub open spec fn apply_sprite(self, fb: Seq<u16>, s: int) -> Seq<u16> {
        if !self.sprite_live(s) {
            fb
        } else {
            Seq::new(0x10000, |i: int|
                if self.sprite_covers(s, i % 256, i / 256) {
                    self.sprite_tile(s)[8 * (i / 256 - self.sprite_y0(s))
                        + (i % 256 - self.sprite_x0(s))]
                } else {
                    fb[i]
                })
        }
    }

    /// The framebuffer after the first `n` sprite slots are drawn over `fb`,
    /// in slot order.
    pub open spec fn sprites_applied(self, fb: Seq<u16>, n: nat) -> Seq<u16>
        decreases n,
    {
        if n == 0 {
            fb
        } else {
            self.apply_sprite(self.sprites_applied(fb, (n - 1) as nat), n - 1)
        }
    }

    /// What `render` produces: the background picture, with all 40 sprite
    /// slots drawn over it when sprites are enabled.
    pub open spec fn spec_render(self) -> Seq<u16> {
        if self.spec_sprites_enabled() {
            self.sprites_applied(self.bg_frame(), 40)
        } else {
            self.bg_frame()
        }
    }

    /// Draw the tile named by background map cell `map_idx` into its cell of
    /// the framebuffer.
    pub fn blit_tile(&self, pixels: &mut PixelData, map_idx: usize)
        requires
            self.wf(),
            old(pixels).wf(),
            map_idx < 1024,
        ensures
            final(pixels).wf(),
            forall|i: int|
                0 <= i < 0x10000 ==> #[trigger] final(pixels).pixels@[i]
                    == if (i / 256) / 8 == map_idx / 32 && (i % 256) / 8 == map_idx % 32 {
                        self.bg_pixel(i % 256, i / 256)
                    } else {
                        old(pixels).pixels@[i]
                    },
    {
        let ghost orig = old(pixels).pixels@;
        let mx = map_idx % 32;
        let my = map_idx / 32;
        proof {
            vstd::arithmetic::div_mod::lemma_fundamental_div_mod(map_idx as int, 32);
            vstd::arithmetic::div_mod::lemma_mod_bound(map_idx as int, 32);
            vstd::arithmetic::div_mod::lemma_div_pos_is_pos(map_idx as int, 32);
        }
        let base: usize = if self.lcdc & 0b0000_1000 != 0 { 0x1C00 } else { 0x1800 };
        let t = self.vram[base + map_idx];
        let (ts, te) = self.bg_tile_data(t);
        let tile = Tile::construct(self.bgrdpal, &self.vram[ts..te]);
        let mut r: usize = 0;
        while r < 8
            invariant
                self.wf(),
                pixels.wf(),
                orig.len() == 0x10000,
                map_idx < 1024,
                mx == map_idx % 32,
                my == map_idx / 32,
                0 <= mx < 32,
                0 <= my < 32,
                map_idx == 32 * my + mx,
                base == self.spec_bg_map_base(),
                t == self.vram@[base + map_idx],
                ts == self.spec_tile_data_start(t),
                tile.wf(),
                tile.texture@ == spec_tile(
                    self.bgrdpal, self.vram@.subrange(ts as int, ts as int + 16)),
                r <= 8,
                forall|i: int|
                    0 <= i < 0x10000 ==> #[trigger] pixels.pixels@[i]
                        == if (i / 256) / 8 == my && (i % 256) / 8 == mx && (i / 256) % 8 < r {
                            self.bg_pixel(i % 256, i / 256)
                        } else {
                            orig[i]
                        },
            decreases 8 - r,
        {
            let mut c: usize = 0;
            while c < 8
                invariant
                    self.wf(),
                    pixels.wf(),
                    orig.len() == 0x10000,
                    map_idx < 1024,
                    mx == map_idx % 32,
                    my == map_idx / 32,
                    0 <= mx < 32,
                    0 <= my < 32,
                    map_idx == 32 * my + mx,
                    base == self.spec_bg_map_base(),
                    t == self.vram@[base + map_idx],
                    ts == self.spec_tile_data_start(t),
                    tile.wf(),
                    tile.texture@ == spec_tile(
                        self.bgrdpal, self.vram@.subrange(ts as int, ts as int + 16)),
                    r < 8,
                    c <= 8,
                    forall|i: int|
                        0 <= i < 0x10000 ==> #[trigger] pixels.pixels@[i]
                            == if (i / 256) / 8 == my && (i % 256) / 8 == mx
                                && ((i / 256) % 8 < r
                                    || ((i / 256) % 8 == r && (i % 256) % 8 < c)) {
                                self.bg_pixel(i % 256, i / 256)
                            } else {
                                orig[i]
                            },
                decreases 8 - c,
            {
                let px = 8 * mx + c;
                let py = 8 * my + r;
                let ghost before = pixels.pixels@;
                pixels.set(px, py, tile.texture[8 * r + c]);
                proof {
                    lemma_cell_coord(mx as int, c as int);
                    lemma_cell_coord(my as int, r as int);
                    lemma_fb_index(px as int, py as int);
                    let j = (py * 256 + px) as int;
                    assert(self.bg_pixel(px as int, py as int)
                        == tile.texture@[8 * (r as int) + c as int]);
                    assert forall|i: int| 0 <= i < 0x10000 implies #[trigger] pixels.pixels@[i]
                        == if (i / 256) / 8 == my && (i % 256) / 8 == mx
                            && ((i / 256) % 8 < r
                                || ((i / 256) % 8 == r && (i % 256) % 8 < c + 1)) {
                            self.bg_pixel(i % 256, i / 256)
                        } else {
                            orig[i]
                        } by {
                        lemma_fb_coords(i);
                        if i != j {
                            assert(pixels.pixels@[i] == before[i]);
                        }
                    }
                }
                c = c + 1;
            }
            r = r + 1;
        }
    }

    /// Draw `tile` with its top-left corner at `(screenx + SCX,
    /// screeny + SCY)`, clipping pixels that fall off the map.
    pub fn blit_to_screen(&self, pixels: &mut PixelData, screenx: usize, screeny: usize, tile: &Tile)
        requires
            old(pixels).wf(),
            tile.wf(),
            screenx < 256,
            screeny < 256,
        ensures
            final(pixels).wf(),
            forall|i: int|
                0 <= i < 0x10000 ==> #[trigger] final(pixels).pixels@[i]
                    == if screenx + self.hscroll <= i % 256 < screenx + self.hscroll + 8
                        && screeny + self.vscroll <= i / 256 < screeny + self.vscroll + 8 {
                        tile.texture@[8 * (i / 256 - (screeny + self.vscroll))
                            + (i % 256 - (screenx + self.hscroll))]
                    } else {
                        old(pixels).pixels@[i]
                    },
    {
        let ghost orig = old(pixels).pixels@;
        let (h, v) = self.scroll();
        let x0 = screenx + h as usize;
        let y0 = screeny + v as usize;
        let mut row: usize = 0;
        while row < 8
            invariant
                pixels.wf(),
                orig.len() == 0x10000,
                tile.wf(),
                x0 == screenx + self.hscroll,
                y0 == screeny + self.vscroll,
                x0 < 512,
                y0 < 512,
                row <= 8,
                forall|i: int|
                    0 <= i < 0x10000 ==> #[trigger] pixels.pixels@[i]
                        == if x0 <= i % 256 < x0 + 8 && y0 <= i / 256 < y0 + 8
                            && i / 256 - y0 < row {
                            tile.texture@[8 * (i / 256 - y0) + (i % 256 - x0)]
                        } else {
                            orig[i]
                        },
            decreases 8 - row,
        {
            let mut col: usize = 0;
            while col < 8
                invariant
                    pixels.wf(),
                    orig.len() == 0x10000,
                    tile.wf(),
                    x0 == screenx + self.hscroll,
                    y0 == screeny + self.vscroll,
                    x0 < 512,
                    y0 < 512,
                    row < 8,
                    col <= 8,
                    forall|i: int|
                        0 <= i < 0x10000 ==> #[trigger] pixels.pixels@[i]
                            == if x0 <= i % 256 < x0 + 8 && y0 <= i / 256 < y0 + 8
                                && (i / 256 - y0 < row
                                    || (i / 256 - y0 == row && i % 256 - x0 < col)) {
                                tile.texture@[8 * (i / 256 - y0) + (i % 256 - x0)]
                            } else {
                                orig[i]
                            },
                decreases 8 - col,
            {
                let x = x0 + col;
                let y = y0 + row;
                if y < 256 && x < 256 {
                    let ghost before = pixels.pixels@;
                    pixels.set(x, y, tile.texture[8 * row + col]);
                    proof {
                        lemma_fb_index(x as int, y as int);
                        let j = (y * 256 + x) as int;
                        assert forall|i: int| 0 <= i < 0x10000 implies #[trigger] pixels.pixels@[i]
                            == if x0 <= i % 256 < x0 + 8 && y0 <= i / 256 < y0 + 8
                                && (i / 256 - y0 < row
                                    || (i / 256 - y0 == row && i % 256 - x0 < col + 1)) {
                                tile.texture@[8 * (i / 256 - y0) + (i % 256 - x0)]
                            } else {
                                orig[i]
                            } by {
                            lemma_fb_coords(i);
                            if i != j {
                                assert(pixels.pixels@[i] == before[i]);
                            }
                        }
                    }
                } else {
                    proof {
                        assert forall|i: int| 0 <= i < 0x10000 implies #[trigger] pixels.pixels@[i]
                            == if x0 <= i % 256 < x0 + 8 && y0 <= i / 256 < y0 + 8
                                && (i / 256 - y0 < row
                                    || (i / 256 - y0 == row && i % 256 - x0 < col + 1)) {
                                tile.texture@[8 * (i / 256 - y0) + (i % 256 - x0)]
                            } else {
                                orig[i]
                            } by {
                            lemma_fb_coords(i);
                        }
                    }
                }
                col = col + 1;
            }
            row = row + 1;
        }
    }

    /// Draw every live sprite slot, in table order, over the framebuffer.
    pub fn render_sprites(&self, pixels: &mut PixelData)
        requires
            self.wf(),
            old(pixels).wf(),
        ensures
            final(pixels).wf(),
            final(pixels).pixels@ == self.sprites_applied(old(pixels).pixels@, 40),
    {
        let ghost orig = old(pixels).pixels@;
        let mut s: usize = 0;
        while s < 40
            invariant
                self.wf(),
                pixels.wf(),
                orig.len() == 0x10000,
                s <= 40,
                pixels.pixels@ == self.sprites_applied(orig, s as nat),
            decreases 40 - s,
        {
            let e0 = self.oam[4 * s];
            let e1 = self.oam[4 * s + 1];
            let e2 = self.oam[4 * s + 2];
            let e3 = self.oam[4 * s + 3];
            if !(e0 == 0 && e1 == 0 && e2 == 0 && e3 == 0) {
                let idx = e2 as usize * 16;
                let tile = Tile::construct(self.obj0pal, &self.vram[idx..idx + 16]);
                let screen_x = if e1 >= 8 {
                    e1 as usize - 8
                } else {
                    e1 as usize + 248
                };
                let screen_y = if e0 >= 16 {
                    e0 as usize - 16
                } else {
                    e0 as usize + 240
                };
                proof {
                    if e1 >= 8 {
                        vstd::arithmetic::div_mod::lemma_fundamental_div_mod_converse(
                            e1 + 248, 256, 1, e1 - 8);
                    } else {
                        vstd::arithmetic::div_mod::lemma_fundamental_div_mod_converse(
                            e1 + 248, 256, 0, e1 + 248);
                    }
                    if e0 >= 16 {
                        vstd::arithmetic::div_mod::lemma_fundamental_div_mod_converse(
                            e0 + 240, 256, 1, e0 - 16);
                    } else {
                        vstd::arithmetic::div_mod::lemma_fundamental_div_mod_converse(
                            e0 + 240, 256, 0, e0 + 240);
                    }
                    assert(screen_x + self.hscroll == self.sprite_x0(s as int));
                    assert(screen_y + self.vscroll == self.sprite_y0(s as int));
                }
                let ghost mid = pixels.pixels@;
                self.blit_to_screen(pixels, screen_x, screen_y, &tile);
                proof {
                    assert(tile.texture@ == self.sprite_tile(s as int));
                    assert(self.sprite_live(s as int));
                    assert forall|i: int| 0 <= i < 0x10000
                        implies pixels.pixels@[i]
                            == self.apply_sprite(mid, s as int)[i] by {
                        lemma_fb_coords(i);
                    }
                    assert(pixels.pixels@ =~= self.apply_sprite(mid, s as int));
                }
            } else {
                proof {
                    assert(!self.sprite_live(s as int));
                }
            }
            s = s + 1;
        }
    }

    /// Repaint the framebuffer: the full background pass, then, when sprites
    /// are enabled, the sprite pass.
    pub fn render(&self, pixels: &mut PixelData)
        requires
            self.wf(),
            old(pixels).wf(),
        ensures
            final(pixels).wf(),
            final(pixels).pixels@ == self.spec_render(),
    {
        let ghost orig = old(pixels).pixels@;
        let mut idx: usize = 0;
        while idx < 1024
            invariant
                self.wf(),
                pixels.wf(),
                orig.len() == 0x10000,
                idx <= 1024,
                forall|i: int|
                    0 <= i < 0x10000 ==> #[trigger] pixels.pixels@[i]
                        == if 32 * ((i / 256) / 8) + (i % 256) / 8 < idx {
                            self.bg_pixel(i % 256, i / 256)
                        } else {
                            orig[i]
                        },
            decreases 1024 - idx,
        {
            let ghost before = pixels.pixels@;
            self.blit_tile(pixels, idx);
            proof {
                vstd::arithmetic::div_mod::lemma_fundamental_div_mod(idx as int, 32);
                vstd::arithmetic::div_mod::lemma_mod_bound(idx as int, 32);
                vstd::arithmetic::div_mod::lemma_div_pos_is_pos(idx as int, 32);
                assert forall|i: int| 0 <= i < 0x10000 implies #[trigger] pixels.pixels@[i]
                    == if 32 * ((i / 256) / 8) + (i % 256) / 8 < idx + 1 {
                        self.bg_pixel(i % 256, i / 256)
                    } else {
                        orig[i]
                    } by {
                    lemma_fb_coords(i);
                    let cell = 32 * ((i / 256) / 8) + (i % 256) / 8;
                    if cell == idx {
                        vstd::arithmetic::div_mod::lemma_fundamental_div_mod_converse(
                            idx as int, 32, (i / 256) / 8, (i % 256) / 8);
                    }
                }
            }
            idx = idx + 1;
        }
        proof {
            assert forall|i: int| 0 <= i < 0x10000
                implies pixels.pixels@[i] == self.bg_frame()[i] by {
                lemma_fb_coords(i);
            }
            assert(pixels.pixels@ =~= self.bg_frame());
        }
        if self.sprite_display_enabled() {
            self.render_sprites(pixels);
        }
    }
}

/// Mode of the PPU `d` dots into a frame with the LCD on: each of the first
/// 144 scanlines spends 80 dots in OAM scan, 172 in VRAM fetch and 204 in
/// HBlank; the last 10 scanlines are VBlank.
pub open spec fn frame_mode(d: int) -> GpuMode {
    if d / 456 >= 144 {
        GpuMode::VBlank
    } else if d % 456 < 80 {
        GpuMode::OAM
    } else if d % 456 < 252 {
        GpuMode::VRAM
    } else {
        GpuMode::HBlank
    }
}

/// Dots spent in the current mode, `d` dots into a frame.
pub open spec fn frame_clock(d: int) -> int {
    if d / 456 >= 144 {
        d % 456
    } else if d % 456 < 80 {
        d % 456
    } else if d % 456 < 252 {
        d % 456 - 80
    } else {
        d % 456 - 252
    }
}

/// Scanline `d` dots into a frame: one line per 456 dots.
pub open spec fn frame_scanline(d: int) -> int {
    d / 456
}

/// The PPU after `n` dots.
pub open spec fn gpu_run(g: GPU, n: nat) -> GPU
    decreases n,
{
    if n == 0 {
        g
    } else {
        gpu_run(g, (n - 1) as nat).spec_cycle()
    }
}

/// The whole schedule of one frame, from a frame start with the LCD on and
/// no register writes: at every dot `d` the mode, mode clock and scanline
/// are exactly those of the fixed frame timetable, so the scanline visits
/// 0 through 153 in order; the VBlank counter steps exactly once, at dot
/// 65664 (the HBlank-to-VBlank transition of scanline 143 into 144); and
/// after 70224 dots the machine is back at a frame start.
pub proof fn lemma_frame_schedule(g: GPU, d: nat)
    requires
        g.wf(),
        g.spec_is_on(),
        g.mode is OAM,
        g.clock == 0,
        g.scanline == 0,
        g.vblank_count < usize::MAX,
        d <= 70224,
    ensures
        ({
            let h = gpu_run(g, d);
            &&& h.wf()
            &&& h == (GPU {
                mode: h.mode,
                clock: h.clock,
                scanline: h.scanline,
                vblank_count: h.vblank_count,
                ..g
            })
            &&& d < 70224 ==> h.mode == frame_mode(d as int) && h.clock == frame_clock(d as int)
                && h.scanline == frame_scanline(d as int)
            &&& d == 70224 ==> h.mode is OAM && h.clock == 0 && h.scanline == 0
            &&& h.vblank_count == g.vblank_count + (if d >= 65664 {
                1int
            } else {
                0int
            })
        }),
    decreases d,
{
    if d > 0 {
        let e = (d - 1) as nat;
        lemma_frame_schedule(g, e);
        let h = gpu_run(g, e);
        let ei = e as int;
        let di = d as int;
        vstd::arithmetic::div_mod::lemma_fundamental_div_mod(ei, 456);
        vstd::arithmetic::div_mod::lemma_mod_bound(ei, 456);
        vstd::arithmetic::div_mod::lemma_div_pos_is_pos(ei, 456);
        let line = ei / 456;
        let r = ei % 456;
        if r < 455 {
            vstd::arithmetic::div_mod::lemma_fundamental_div_mod_converse(di, 456, line, r + 1);
        } else {
            vstd::arithmetic::div_mod::lemma_fundamental_div_mod_converse(di, 456, line + 1, 0);
        }
        assert(gpu_run(g, d) == h.spec_cycle());
    }
}

/// One dot requests a VBlank interrupt exactly when it steps the VBlank
/// counter.
pub proof fn lemma_vblank_flag_iff_count(g: GPU)
    requires
        g.wf(),
        g.vblank_count < usize::MAX,
    ensures
        g.cycle_requests_vblank() <==> g.spec_cycle().vblank_count == g.vblank_count + 1,
        !g.cycle_requests_vblank() <==> g.spec_cycle().vblank_count == g.vblank_count,
{
}

/// One PPU dot preserves well-formedness.
pub proof fn lemma_cycle_preserves_wf(g: GPU)
    requires
        g.wf(),
    ensures
        g.spec_cycle().wf(),
{
}

/// The standing bounds of the mode machine: the scanline never reaches 154
/// and the mode clock stays below the current mode's budget.
pub proof fn lemma_mode_bounds(g: GPU)
    requires
        g.wf(),
    ensures
        g.scanline < 154,
        (g.clock as int) < mode_budget(g.mode),
{
}

} // verus!
