use rsboy::texture::Color;
use rsboy::texture::Tile;
use rsboy::texture::TileMap;

fn identity_tile_bytes() -> Vec<u8> {
    vec![
        0xFF, 0x00, // row 0: raw index 1 everywhere
        0x00, 0xFF, // row 1: raw index 2 everywhere
        0xFF, 0xFF, // row 2: raw index 3 everywhere
        0x00, 0x00, // row 3: raw index 0 everywhere
        0x00, 0x00, 0x00, 0x00, 0x00, 0x00, 0x00, 0x00,
    ]
}

#[test]
fn palette_identity() {
    let tile = Tile::construct(0b11_10_01_00, &identity_tile_bytes());
    for c in 0..8 {
        assert_eq!(tile.texture[c], 0x8E0E);
        assert_eq!(tile.texture[8 + c], 0x360A);
        assert_eq!(tile.texture[16 + c], 0x08C4);
        assert_eq!(tile.texture[24 + c], 0xE7DA);
    }
}

#[test]
fn palette_remap() {
    let tile = Tile::construct(0b00_00_00_11, &identity_tile_bytes());
    // Row 0 pixels carry raw index 1; the palette maps field 1 to 0.
    for c in 0..8 {
        assert_eq!(tile.texture[c], 0xE7DA);
    }
}

#[test]
fn decode_is_deterministic() {
    let bytes = identity_tile_bytes();
    let a = Tile::construct(0b11_10_01_00, &bytes);
    let b = Tile::construct(0b11_10_01_00, &bytes);
    assert_eq!(a.texture, b.texture);
}

#[test]
fn decode_reads_bit_columns() {
    // Row 0: lo = 0b1000_0000, hi = 0b0000_0001; identity palette.
    let mut bytes = vec![0u8; 16];
    bytes[0] = 0b1000_0000;
    bytes[1] = 0b0000_0001;
    let tile = Tile::construct(0b11_10_01_00, &bytes);
    assert_eq!(tile.texture[0], 0x8E0E); // column 0: lo bit only, index 1
    assert_eq!(tile.texture[7], 0x360A); // column 7: hi bit only, index 2
    for c in 1..7 {
        assert_eq!(tile.texture[c], 0xE7DA); // index 0
    }
}

#[test]
fn texture_getter_returns_pixels() {
    let tile = Tile::construct(0b11_10_01_00, &identity_tile_bytes());
    assert_eq!(tile.texture().len(), 64);
    assert_eq!(tile.texture()[0], 0x8E0E);
}

#[test]
fn color_words() {
    assert_eq!(Color::pixel(0), 0xE7DA);
    assert_eq!(Color::pixel(1), 0x8E0E);
    assert_eq!(Color::pixel(2), 0x360A);
    assert_eq!(Color::pixel(3), 0x08C4);
}

#[test]
fn color_shades() {
    assert!(matches!(Color::byte2color(0), Color::White));
    assert!(matches!(Color::byte2color(1), Color::LightGrey));
    assert!(matches!(Color::byte2color(2), Color::DarkGrey));
    assert!(matches!(Color::byte2color(3), Color::Black));
}

#[test]
fn color_rgb_values() {
    assert_eq!(Color::White.value(), (224, 248, 208));
    assert_eq!(Color::LightGrey.value(), (136, 192, 112));
    assert_eq!(Color::DarkGrey.value(), (52, 104, 86));
    assert_eq!(Color::Black.value(), (8, 24, 32));
}

#[test]
fn tile_map_assembles_le_bytes() {
    let t0 = Tile::construct(0b11_10_01_00, &identity_tile_bytes());
    let t1 = Tile::construct(0b00_00_00_11, &identity_tile_bytes());
    let mut map = TileMap::new(2, 1, vec![t0, t1]);
    map.set(1, 0, 1);
    assert_eq!(map.dimensions(), (2, 1));
    assert_eq!(map.pixel_dims(), (16, 8));
    assert_eq!(map.pitch(), 32);
    let bytes = map.texture();
    assert_eq!(bytes.len(), 2 * 1 * 128);
    // Pixel (0, 0): tile 0, row 0 -> 0x8E0E, little-endian.
    assert_eq!(bytes[0], 0x0E);
    assert_eq!(bytes[1], 0x8E);
    // Pixel (8, 0): tile 1, row 0 -> 0xE7DA.
    assert_eq!(bytes[16], 0xDA);
    assert_eq!(bytes[17], 0xE7);
    // Pixel (0, 1): tile 0, row 1 -> 0x360A.
    assert_eq!(bytes[32], 0x0A);
    assert_eq!(bytes[33], 0x36);
}
