//! Palette and tile decoding: 2-bit-per-pixel tile data is remapped through a
//! palette byte and widened to RGB565 pixel words.

use vstd::prelude::*;

verus! {

/// Bytes of one encoded tile: 8 rows, two bytes per row.
pub const TILE_SIZE: usize = 16;

/// The RGB565 word displayed for final palette output `index` (0..=3).
/// Any value above 3 is treated as the darkest shade; the decoder never
/// produces one.
pub open spec fn color_word(index: u8) -> u16 {
    if index == 0 {
        0xE7DA
    } else if index == 1 {
        0x8E0E
    } else if index == 2 {
        0x360A
    } else {
        0x08C4
    }
}

/// Remap a raw 2-bit pixel index through a palette byte: field `index` of the
/// palette is its bits `2*index` and `2*index + 1`.
pub open spec fn palette_remap(palette: u8, index: u8) -> u8 {
    (palette >> ((2 * index) as u8)) & 0b11
}

/// Raw 2-bit pixel index of column `x` (0 = leftmost) given the low and high
/// bytes of a tile row: bit `7 - x` of `lo` is the low bit, of `hi` the high
/// bit.
pub open spec fn pixel_index(lo: u8, hi: u8, x: u8) -> u8 {
    (((hi >> ((7 - x) as u8)) & 1) << 1) | ((lo >> ((7 - x) as u8)) & 1)
}

/// RGB565 word of column `x` of a tile row encoded by `lo` and `hi`, remapped
/// through `palette`.
pub open spec fn tile_pixel(palette: u8, lo: u8, hi: u8, x: u8) -> u16 {
    color_word(palette_remap(palette, pixel_index(lo, hi, x)))
}

/// The 64 pixels (row-major) of a 16-byte tile decoded through `palette`:
/// row `y` is encoded by bytes `2*y` (low bits) and `2*y + 1` (high bits).
pub open spec fn spec_tile(palette: u8, data: Seq<u8>) -> Seq<u16> {
    Seq::new(64, |i: int| tile_pixel(palette, data[2 * (i / 8)], data[2 * (i / 8) + 1], (i % 8) as u8))
}

/// A palette remap always lands in 0..=3, and so does a raw pixel index.
pub proof fn lemma_two_bit_fields()
    by (bit_vector)
    ensures
        forall|p: u8, k: u8| #[trigger] ((p >> k) & 0b11) < 4,
        forall|lo: u8, hi: u8, k: u8|
            ((((hi >> k) & 1) << 1) | ((lo >> k) & 1)) < 4,
{
}

/// The four DMG shades, lightest to darkest.
#[derive(Copy, Clone, Debug, PartialEq, Eq, Structural)]
pub enum Color {
    White,
    LightGrey,
    DarkGrey,
    Black,
}

/// RGB triple shown for each shade.
pub open spec fn spec_color_rgb(c: Color) -> (u8, u8, u8) {
    match c {
        Color::White => (224u8, 248u8, 208u8),
        Color::LightGrey => (136u8, 192u8, 112u8),
        Color::DarkGrey => (52u8, 104u8, 86u8),
        Color::Black => (8u8, 24u8, 32u8),
    }
}

/// Shade selected by a final palette output in 0..=3.
pub open spec fn spec_byte2color(value: u8) -> Color {
    if value == 0 {
        Color::White
    } else if value == 1 {
        Color::LightGrey
    } else if value == 2 {
        Color::DarkGrey
    } else {
        Color::Black
    }
}

impl Color {
    /// 24-bit RGB rendering of this shade.
    pub fn value(self) -> (rgb: (u8, u8, u8))
        ensures
            rgb == spec_color_rgb(self),
    {
        match self {
            Color::White => (224, 248, 208),
            Color::LightGrey => (136, 192, 112),
            Color::DarkGrey => (52, 104, 86),
            Color::Black => (8, 24, 32),
        }
    }

    /// RGB565 word for a final palette output. Values above 3 cannot arise
    /// from a 2-bit field and are rejected.
    pub fn pixel(value: u8) -> (p: u16)
        requires
            value < 4,
        ensures
            p == color_word(value),
    {
        if value == 0 {
            0xE7DA
        } else if value == 1 {
            0x8E0E
        } else if value == 2 {
            0x360A
        } else {
            0x08C4
        }
    }

    /// Shade for a final palette output. Values above 3 cannot arise from a
    /// 2-bit field and are rejected.
    pub fn byte2color(value: u8) -> (c: Color)
        requires
            value < 4,
        ensures
            c == spec_byte2color(value),
    {
        if value == 0 {
            Color::White
        } else if value == 1 {
            Color::LightGrey
        } else if value == 2 {
            Color::DarkGrey
        } else {
            Color::Black
        }
    }
}

/// One decoded 8x8 tile: 64 RGB565 words, row-major.
pub struct Tile {
    pub texture: Vec<u16>,
}

impl Tile {
    /// A decoded tile always holds exactly 64 pixel words.
    pub open spec fn wf(self) -> bool {
        self.texture@.len() == 64
    }

    /// Decode a 16-byte tile through a palette byte. The result is a pure
    /// function of the two arguments.
    pub fn construct(palette: u8, tile_data: &[u8]) -> (tile: Tile)
        requires
            tile_data@.len() == TILE_SIZE,
        ensures
            tile.wf(),
            tile.texture@ == spec_tile(palette, tile_data@),
    {
        let mut texture: Vec<u16> = Vec::new();
        let mut y: usize = 0;
        while y < 8
            invariant
                y <= 8,
                tile_data@.len() == 16,
                texture@.len() == 8 * y,
                forall|i: int|
                    0 <= i < 8 * y ==> texture@[i] == spec_tile(palette, tile_data@)[i],
            decreases 8 - y,
        {
            let lo = tile_data[2 * y];
            let hi = tile_data[2 * y + 1];
            let mut x: usize = 0;
            while x < 8
                invariant
                    y < 8,
                    x <= 8,
                    tile_data@.len() == 16,
                    lo == tile_data@[2 * y],
                    hi == tile_data@[2 * y + 1],
                    texture@.len() == 8 * y + x,
                    forall|i: int|
                        0 <= i < 8 * y + x ==> texture@[i] == spec_tile(palette, tile_data@)[i],
                decreases 8 - x,
            {
                let shift: u8 = (7 - x) as u8;
                let lo_bit = (lo >> shift) & 1;
                let hi_bit = (hi >> shift) & 1;
                let index = (hi_bit << 1) | lo_bit;
                proof {
                    lemma_two_bit_fields();
                    assert(index == pixel_index(lo, hi, x as u8));
                }
                let shade = (palette >> (2 * index)) & 0b11;
                proof {
                    assert(shade == palette_remap(palette, index));
                }
                let word = Color::pixel(shade);
                texture.push(word);
                proof {
                    let i = 8 * (y as int) + x as int;
                    vstd::arithmetic::div_mod::lemma_fundamental_div_mod_converse(
                        i, 8, y as int, x as int);
                    assert(spec_tile(palette, tile_data@)[i]
                        == tile_pixel(palette, tile_data@[2 * (y as int)],
                            tile_data@[2 * (y as int) + 1], x as u8));
                }
                x = x + 1;
            }
            y = y + 1;
        }
        proof {
            assert(texture@ =~= spec_tile(palette, tile_data@));
        }
        Tile { texture }
    }

    /// The decoded pixel words.
    pub fn texture(&self) -> (t: &Vec<u16>)
        ensures
            t == &self.texture,
    {
        &self.texture
    }
}

/// Decoding is deterministic: two tiles decoded from the same palette and the
/// same bytes hold identical pixels.
pub proof fn lemma_tile_decode_deterministic(palette: u8, data: Seq<u8>, a: Tile, b: Tile)
    requires
        a.texture@ == spec_tile(palette, data),
        b.texture@ == spec_tile(palette, data),
    ensures
        a.texture@ == b.texture@,
{
}

/// Byte `b` (0 = low, 1 = high) of an RGB565 word stored little-endian.
pub open spec fn le_byte(w: u16, b: int) -> u8 {
    if b == 0 {
        (w & 0xFF) as u8
    } else {
        (w >> 8) as u8
    }
}

/// A rectangle of tiles: `map` selects, row-major, a tile of `tile_set` for
/// each of the `width * height` cells.
pub struct TileMap {
    pub width: usize,
    pub height: usize,
    pub tile_set: Vec<Tile>,
    pub map: Vec<u8>,
}

impl TileMap {
    /// The map has one entry per cell, every entry names a tile of the set,
    /// and every tile of the set is fully decoded.
    pub open spec fn wf(self) -> bool {
        &&& self.map@.len() == self.width * self.height
        &&& forall|k: int|
            0 <= k < self.map@.len() ==> (self.map@[k] as int) < self.tile_set@.len()
        &&& forall|j: int| 0 <= j < self.tile_set@.len() ==> self.tile_set@[j].wf()
    }

    /// RGB565 word of pixel `(gx, gy)` of the assembled picture.
    pub open spec fn map_pixel(self, gx: int, gy: int) -> u16 {
        self.tile_set@[self.map@[(gy / 8) * self.width + gx / 8] as int]
            .texture@[(gy % 8) * 8 + (gx % 8)]
    }

    /// Byte `j` of the little-endian serialization of the assembled picture.
    pub open spec fn texture_byte(self, j: int) -> u8 {
        le_byte(self.map_pixel((j / 2) % (self.width * 8), (j / 2) / (self.width * 8)), j % 2)
    }

    /// A map whose cells all name tile 0 of the given set.
    pub fn new(width: usize, height: usize, tile_set: Vec<Tile>) -> (m: TileMap)
        requires
            width * height <= usize::MAX,
            width * height == 0 || tile_set@.len() > 0,
            forall|j: int| 0 <= j < tile_set@.len() ==> tile_set@[j].wf(),
        ensures
            m.wf(),
            m.width == width,
            m.height == height,
            m.tile_set == tile_set,
            m.map@ == Seq::new((width * height) as nat, |i: int| 0u8),
    {
        proof {
            vstd::arithmetic::mul::lemma_mul_nonnegative(width as int, height as int);
        }
        let cells = width * height;
        let map = crate::zeroed_bytes(cells);
        TileMap { width, height, tile_set, map }
    }

    /// Point cell `(x, y)` at tile `index` of the set.
    pub fn set(&mut self, x: usize, y: usize, index: u8)
        requires
            old(self).wf(),
            x < old(self).width,
            y < old(self).height,
            (index as int) < old(self).tile_set@.len(),
        ensures
            final(self).wf(),
            final(self).width == old(self).width,
            final(self).height == old(self).height,
            final(self).tile_set == old(self).tile_set,
            final(self).map@ == old(self).map@.update(y * old(self).width + x, index),
    {
        let len = self.map.len();
        proof {
            assert(0 <= (y as int) * (self.width as int)
                && (y as int) * (self.width as int) + x
                    < (self.width as int) * (self.height as int))
                by (nonlinear_arith)
                requires
                    y as int + 1 <= self.height as int,
                    0 <= x < self.width,
                    0 <= y,
            ;
            assert(len == (self.width as int) * (self.height as int));
        }
        let cell = y * self.width + x;
        self.map.set(cell, index);
    }

    /// Bytes per assembled pixel row: `width` tiles of 8 pixels, 2 bytes each.
    pub fn pitch(&self) -> (p: usize)
        requires
            self.width * 16 <= usize::MAX,
        ensures
            p == self.width * 16,
    {
        self.width * 8 * 2
    }

    /// Width and height in tiles.
    pub fn dimensions(&self) -> (d: (usize, usize))
        ensures
            d == (self.width, self.height),
    {
        (self.width, self.height)
    }

    /// Width and height in pixels.
    pub fn pixel_dims(&self) -> (d: (usize, usize))
        requires
            self.width * 8 <= usize::MAX,
            self.height * 8 <= usize::MAX,
        ensures
            d.0 == self.width * 8,
            d.1 == self.height * 8,
    {
        (self.width * 8, self.height * 8)
    }

    /// Serialize the assembled picture, row-major, each pixel as two
    /// little-endian bytes.
    pub fn texture(&self) -> (r: Vec<u8>)
        requires
            self.wf(),
            self.width * self.height * 128 <= usize::MAX,
            self.width * 8 <= usize::MAX,
            self.height * 8 <= usize::MAX,
        ensures
            r@.len() == self.width * self.height * 128,
            forall|j: int| 0 <= j < r@.len() ==> r@[j] == #[trigger] self.texture_byte(j),
    {
        let w8 = self.width * 8;
        let h8 = self.height * 8;
        let mut out: Vec<u8> = Vec::new();
        let mut gy: usize = 0;
        while gy < h8
            invariant
                self.wf(),
                self.width * self.height * 128 <= usize::MAX,
                w8 == self.width * 8,
                h8 == self.height * 8,
                gy <= h8,
                out@.len() == 2 * (gy * w8),
                forall|j: int| 0 <= j < out@.len() ==> out@[j] == #[trigger] self.texture_byte(j),
            decreases h8 - gy,
        {
            let mut mx: usize = 0;
            while mx < self.width
                invariant
                    self.wf(),
                    self.width * self.height * 128 <= usize::MAX,
                    w8 == self.width * 8,
                    h8 == self.height * 8,
                    gy < h8,
                    mx <= self.width,
                    out@.len() == 2 * (gy * w8 + mx * 8),
                    forall|j: int| 0 <= j < out@.len() ==> out@[j] == #[trigger] self.texture_byte(j),
                decreases self.width - mx,
            {
                proof {
                    lemma_texture_cell_bounds(
                        self.width as int, self.height as int, gy as int, mx as int);
                }
                let cell = (gy / 8) * self.width + mx;
                let ti = self.map[cell];
                let tile = &self.tile_set[ti as usize];
                let mut c: usize = 0;
                while c < 8
                    invariant
                        self.wf(),
                        self.width * self.height * 128 <= usize::MAX,
                        w8 == self.width * 8,
                        h8 == self.height * 8,
                        gy < h8,
                        mx < self.width,
                        c <= 8,
                        cell == (gy / 8) * self.width + mx,
                        cell < self.map@.len(),
                        ti == self.map@[cell as int],
                        tile == &self.tile_set@[ti as int],
                        out@.len() == 2 * (gy * w8 + mx * 8 + c),
                        forall|j: int|
                            0 <= j < out@.len() ==> out@[j] == #[trigger] self.texture_byte(j),
                    decreases 8 - c,
                {
                    let word = tile.texture[(gy % 8) * 8 + c];
                    let ghost jlo = out@.len() as int;
                    proof {
                        assert((word & 0xFF) < 256 && (word >> 8) < 256) by (bit_vector);
                    }
                    out.push((word & 0xFF) as u8);
                    out.push((word >> 8) as u8);
                    proof {
                        lemma_texture_byte_decompose(
                            self.width as int, gy as int, mx as int, c as int);
                        let gx = 8 * (mx as int) + c as int;
                        assert(self.texture_byte(jlo) == le_byte(self.map_pixel(gx, gy as int), 0));
                        assert(self.texture_byte(jlo + 1)
                            == le_byte(self.map_pixel(gx, gy as int), 1));
                    }
                    c = c + 1;
                }
                mx = mx + 1;
            }
            proof {
                assert((gy + 1) * (w8 as int) == gy * (w8 as int) + w8) by (nonlinear_arith);
            }
            gy = gy + 1;
        }
        proof {
            assert(2 * ((h8 as int) * (w8 as int))
                == (self.width as int) * (self.height as int) * 128)
                by (nonlinear_arith)
                requires
                    w8 == self.width * 8,
                    h8 == self.height * 8,
            ;
        }
        out
    }
}

/// The cell read while assembling pixel row `gy`, tile column `mx` lies inside
/// the map.
proof fn lemma_texture_cell_bounds(width: int, height: int, gy: int, mx: int)
    requires
        0 <= gy < height * 8,
        0 <= mx < width,
    ensures
        0 <= (gy / 8) * width + mx < width * height,
        0 <= gy % 8 < 8,
{
    vstd::arithmetic::div_mod::lemma_div_pos_is_pos(gy, 8);
    vstd::arithmetic::div_mod::lemma_mod_bound(gy, 8);
    assert(gy / 8 < height) by (nonlinear_arith)
        requires
            0 <= gy < height * 8,
            gy / 8 * 8 + gy % 8 == gy,
            0 <= gy % 8 < 8,
    ;
    assert((gy / 8) * width + mx < width * height) by (nonlinear_arith)
        requires
            0 <= gy / 8 < height,
            0 <= mx < width,
    ;
    assert(0 <= (gy / 8) * width) by (nonlinear_arith)
        requires
            0 <= gy / 8,
            0 <= width,
    ;
}

/// Serialized byte indices `2 * (gy * width * 8 + mx * 8 + c)` and its
/// successor decompose back into pixel `(8 * mx + c, gy)` and byte halves.
proof fn lemma_texture_byte_decompose(width: int, gy: int, mx: int, c: int)
    requires
        0 <= gy,
        0 <= mx < width,
        0 <= c < 8,
    ensures
        ({
            let gx = 8 * mx + c;
            let j = 2 * (gy * (width * 8) + mx * 8 + c);
            &&& j / 2 == gy * (width * 8) + gx && j % 2 == 0
            &&& (j + 1) / 2 == gy * (width * 8) + gx && (j + 1) % 2 == 1
            &&& (gy * (width * 8) + gx) / (width * 8) == gy
            &&& (gy * (width * 8) + gx) % (width * 8) == gx
            &&& gx / 8 == mx && gx % 8 == c
        }),
{
    let gx = 8 * mx + c;
    let w8 = width * 8;
    let pix = gy * w8 + gx;
    assert(0 <= gx < w8) by (nonlinear_arith)
        requires
            0 <= mx < width,
            0 <= c < 8,
            gx == 8 * mx + c,
            w8 == width * 8,
    ;
    assert(0 <= pix) by (nonlinear_arith)
        requires
            0 <= gy,
            0 <= gx,
            pix == gy * w8 + gx,
            0 < w8,
    ;
    vstd::arithmetic::div_mod::lemma_fundamental_div_mod_converse(2 * pix, 2, pix, 0);
    vstd::arithmetic::div_mod::lemma_fundamental_div_mod_converse(2 * pix + 1, 2, pix, 1);
    vstd::arithmetic::div_mod::lemma_fundamental_div_mod_converse(pix, w8, gy, gx);
    vstd::arithmetic::div_mod::lemma_fundamental_div_mod_converse(gx, 8, mx, c);
}

} // verus!
