use rsboy::gpu::GPU;
use rsboy::gpu::GpuMode;
use rsboy::gpu::PixelData;
use rsboy::bus::Bus;

fn gpu_on() -> GPU {
    let mut gpu = GPU::new();
    gpu.lcdc = 0x80;
    gpu
}

#[test]
fn mode_machine_walks_one_scanline() {
    let mut gpu = gpu_on();
    let mut flag = 0u8;
    for _ in 0..80 {
        gpu.cycle(&mut flag);
    }
    assert!(matches!(gpu.mode, GpuMode::VRAM));
    assert_eq!(gpu.clock, 0);
    for _ in 0..172 {
        gpu.cycle(&mut flag);
    }
    assert!(matches!(gpu.mode, GpuMode::HBlank));
    for _ in 0..204 {
        gpu.cycle(&mut flag);
    }
    assert!(matches!(gpu.mode, GpuMode::OAM));
    assert_eq!(gpu.scanline, 1);
    assert_eq!(flag, 0);
}

#[test]
fn vblank_timing() {
    let mut gpu = gpu_on();
    let mut flag = 0u8;
    for _ in 0..65663 {
        gpu.cycle(&mut flag);
    }
    assert!(matches!(gpu.mode, GpuMode::HBlank));
    assert_eq!(gpu.scanline, 143);
    assert_eq!(flag, 0);
    gpu.cycle(&mut flag);
    assert!(matches!(gpu.mode, GpuMode::VBlank));
    assert_eq!(gpu.scanline, 144);
    assert_eq!(flag & 0x01, 0x01);
    assert_eq!(gpu.vblank_count, 1);
}

#[test]
fn vblank_timing_on_bus() {
    let mut bus = Bus::new(Vec::new(), None);
    bus.write(0xFF40, 0x80);
    for _ in 0..65664 {
        bus.cycle();
    }
    assert_eq!(bus.read(0xFF44), 144);
    assert_eq!(bus.read(0xFF0F) & 0x01, 0x01);
    assert!(matches!(bus.gpu.mode, GpuMode::VBlank));
}

#[test]
fn one_vblank_request_per_frame() {
    let mut gpu = gpu_on();
    let mut flag = 0u8;
    for _ in 0..70224 {
        gpu.cycle(&mut flag);
    }
    assert_eq!(gpu.vblank_count, 1);
    assert!(matches!(gpu.mode, GpuMode::OAM));
    assert_eq!(gpu.scanline, 0);
    assert_eq!(gpu.clock, 0);
    for _ in 0..70224 {
        gpu.cycle(&mut flag);
    }
    assert_eq!(gpu.vblank_count, 2);
}

#[test]
fn scanline_visits_every_line_in_order() {
    let mut gpu = gpu_on();
    let mut flag = 0u8;
    for line in 0..154 {
        assert_eq!(gpu.scanline, line);
        for _ in 0..456 {
            gpu.cycle(&mut flag);
        }
    }
    assert_eq!(gpu.scanline, 0);
}

#[test]
fn bounds_hold_at_every_dot() {
    let mut gpu = gpu_on();
    let mut flag = 0u8;
    for _ in 0..70224 {
        gpu.cycle(&mut flag);
        assert!(gpu.scanline < 154);
        let budget = match gpu.mode {
            GpuMode::OAM => 80,
            GpuMode::VRAM => 172,
            GpuMode::HBlank => 204,
            GpuMode::VBlank => 456,
        };
        assert!(gpu.clock < budget);
    }
}

#[test]
fn lcd_off_freezes_ppu() {
    let mut gpu = GPU::new();
    let mut flag = 0u8;
    for _ in 0..1000 {
        gpu.cycle(&mut flag);
    }
    assert!(matches!(gpu.mode, GpuMode::OAM));
    assert_eq!(gpu.clock, 0);
    assert_eq!(gpu.scanline, 0);
    assert_eq!(flag, 0);
}

#[test]
fn is_on_reads_lcdc_bit7() {
    let mut gpu = GPU::new();
    assert!(!gpu.is_on());
    gpu.lcdc = 0x80;
    assert!(gpu.is_on());
}

#[test]
fn scroll_returns_registers() {
    let mut gpu = GPU::new();
    gpu.hscroll = 5;
    gpu.vscroll = 3;
    assert_eq!(gpu.scroll(), (5, 3));
}

#[test]
fn render_background_tile() {
    let mut gpu = GPU::new();
    // Unsigned tile addressing from 0x8000, map at 0x9800.
    gpu.lcdc = 0b0001_0000;
    gpu.bgrdpal = 0b11_10_01_00;
    // Tile 1, row 0: raw index 1 in every column.
    gpu.vram[16] = 0xFF;
    gpu.vram[17] = 0x00;
    // Map cell (0, 0) names tile 1.
    gpu.vram[0x1800] = 1;
    let mut fb = PixelData::new();
    gpu.render(&mut fb);
    for c in 0..8 {
        assert_eq!(fb.get(c, 0), 0x8E0E);
    }
    // Row 1 of tile 1 is zero: palette output 0.
    assert_eq!(fb.get(0, 1), 0xE7DA);
    // The neighbouring cell names tile 0, all zero.
    assert_eq!(fb.get(8, 0), 0xE7DA);
}

#[test]
fn render_signed_tile_addressing() {
    let mut gpu = GPU::new();
    // LCDC bit 4 clear: two's-complement indexing around 0x9000.
    gpu.bgrdpal = 0b11_10_01_00;
    // Tile 0 in signed mode sits at VRAM offset 0x1000.
    gpu.vram[0x1000] = 0xFF;
    gpu.vram[0x1001] = 0xFF;
    let mut fb = PixelData::new();
    gpu.render(&mut fb);
    assert_eq!(fb.get(0, 0), 0x08C4);
    // Tile 0xFF in signed mode sits at VRAM offset 0xFF0.
    gpu.vram[0x1800] = 0xFF;
    gpu.vram[0xFF0] = 0xFF;
    gpu.vram[0xFF1] = 0x00;
    gpu.render(&mut fb);
    assert_eq!(fb.get(0, 0), 0x8E0E);
}

#[test]
fn render_sprite_over_background() {
    let mut gpu = GPU::new();
    // Sprites enabled; background tile data all zero.
    gpu.lcdc = 0b0001_0010;
    gpu.bgrdpal = 0b11_10_01_00;
    gpu.obj0pal = 0b11_10_01_00;
    // Sprite slot 0 at screen position (0, 0), tile 2.
    gpu.oam[0] = 16;
    gpu.oam[1] = 8;
    gpu.oam[2] = 2;
    // Tile 2, row 0: raw index 3 everywhere.
    gpu.vram[32] = 0xFF;
    gpu.vram[33] = 0xFF;
    let mut fb = PixelData::new();
    gpu.render(&mut fb);
    for c in 0..8 {
        assert_eq!(fb.get(c, 0), 0x08C4);
    }
    // Below the sprite the background shows through.
    assert_eq!(fb.get(0, 8), 0xE7DA);
}

#[test]
fn sprites_skipped_when_disabled() {
    let mut gpu = GPU::new();
    gpu.lcdc = 0b0001_0000;
    gpu.oam[0] = 16;
    gpu.oam[1] = 8;
    gpu.oam[2] = 2;
    gpu.vram[32] = 0xFF;
    gpu.vram[33] = 0xFF;
    let mut fb = PixelData::new();
    gpu.render(&mut fb);
    assert_eq!(fb.get(0, 0), 0xE7DA);
}

#[test]
fn empty_sprite_slots_are_skipped() {
    let mut gpu = GPU::new();
    gpu.lcdc = 0b0001_0010;
    // All OAM bytes zero: nothing is drawn even with sprites enabled.
    let mut fb = PixelData::new();
    gpu.render(&mut fb);
    assert_eq!(fb.get(0, 0), 0xE7DA);
    // A wrapped slot would cover (248 - 8, ...) otherwise.
    assert_eq!(fb.get(240, 240), 0xE7DA);
}

#[test]
fn scroll_crop() {
    let mut fb = PixelData::new();
    for y in 0..256 {
        for x in 0..256 {
            fb.set(x, y, (y * 256 + x) as u16);
        }
    }
    let w = fb.window(5, 3);
    assert_eq!(w.len(), 160 * 144);
    assert_eq!(w[0], fb.get(5, 3));
    assert_eq!(w[143 * 160 + 159], fb.get(164, 146));
    // Wrap-around at the map edges.
    let w2 = fb.window(250, 250);
    assert_eq!(w2[0], fb.get(250, 250));
    assert_eq!(w2[10], fb.get(4, 250));
    assert_eq!(w2[10 * 160], fb.get(250, 4));
}

#[test]
fn framebuffer_serializes_little_endian() {
    let mut fb = PixelData::new();
    fb.set(0, 0, 0x8E0E);
    fb.set(1, 0, 0x08C4);
    let bytes = fb.to_bytes();
    assert_eq!(bytes.len(), 0x20000);
    assert_eq!(bytes[0], 0x0E);
    assert_eq!(bytes[1], 0x8E);
    assert_eq!(bytes[2], 0xC4);
    assert_eq!(bytes[3], 0x08);
}

#[test]
fn tiles_decodes_whole_tile_data_region() {
    let mut gpu = GPU::new();
    gpu.bgrdpal = 0b11_10_01_00;
    gpu.vram[16] = 0xFF;
    let tiles = gpu.tiles();
    assert_eq!(tiles.len(), 384);
    assert_eq!(tiles[0].texture[0], 0xE7DA);
    assert_eq!(tiles[1].texture[0], 0x8E0E);
}

#[test]
fn lcdc_selects() {
    let mut gpu = GPU::new();
    assert_eq!(gpu.bg_tile_map_display_select(), (0x1800, 0x1BFF));
    assert_eq!(gpu.window_tile_map_display_select(), (0x1800, 0x1BFF));
    assert_eq!(gpu.bg_and_window_tile_data_select(), (0x0800, 0x17FF));
    assert!(!gpu.sprite_display_enabled());
    gpu.lcdc = 0b0101_1010;
    assert_eq!(gpu.bg_tile_map_display_select(), (0x1C00, 0x1FFF));
    assert_eq!(gpu.window_tile_map_display_select(), (0x1C00, 0x1FFF));
    assert_eq!(gpu.bg_and_window_tile_data_select(), (0x0000, 0x0FFF));
    assert!(gpu.sprite_display_enabled());
}

#[test]
fn tile_data_addressing_modes() {
    let mut gpu = GPU::new();
    // Signed mode: tile 0 at 0x1000, tile 127 at 0x17F0, tile 128 at 0x800.
    assert_eq!(gpu.bg_tile_data(0), (0x1000, 0x1010));
    assert_eq!(gpu.bg_tile_data(127), (0x17F0, 0x1800));
    assert_eq!(gpu.bg_tile_data(128), (0x800, 0x810));
    assert_eq!(gpu.bg_tile_data(255), (0xFF0, 0x1000));
    // Unsigned mode: tile n at 16 * n.
    gpu.lcdc = 0b0001_0000;
    assert_eq!(gpu.bg_tile_data(0), (0, 16));
    assert_eq!(gpu.bg_tile_data(255), (0xFF0, 0x1000));
}
