use rsboy::bus::Bus;
use rsboy::bus::Key;

fn boot_rom() -> Vec<u8> {
    let mut b = vec![0u8; 0x100];
    b[0] = 0x31;
    b[1] = 0xFE;
    b
}

fn cartridge() -> Vec<u8> {
    let mut r = vec![0u8; 0x100];
    r[0] = 0xAB;
    r[1] = 0xCD;
    r
}

#[test]
fn boot_rom_handoff() {
    let mut bus = Bus::new(cartridge(), Some(boot_rom()));
    assert_eq!(bus.in_bios, 0);
    assert_eq!(bus.read(0x0000), 0x31);
    assert_eq!(bus.read(0x0001), 0xFE);
    bus.write(0xFF50, 0x01);
    assert_eq!(bus.read(0x0000), 0xAB);
    assert_eq!(bus.read(0x0001), 0xCD);
    // Writing zero afterwards does not bring the overlay back.
    bus.write(0xFF50, 0x00);
    assert_eq!(bus.read(0x0000), 0xAB);
}

#[test]
fn rom_visible_above_overlay() {
    let mut rom = vec![0u8; 0x200];
    rom[0x150] = 0x77;
    let bus = Bus::new(rom, Some(boot_rom()));
    assert_eq!(bus.read(0x0150), 0x77);
}

#[test]
fn div_write_resets() {
    let mut bus = Bus::new(Vec::new(), None);
    for _ in 0..256 {
        bus.cycle();
    }
    assert_eq!(bus.read(0xFF04), 1);
    bus.write(0xFF04, 0x5A);
    assert_eq!(bus.read(0xFF04), 0);
}

#[test]
fn div_counts_every_256_cycles() {
    let mut bus = Bus::new(Vec::new(), None);
    for _ in 0..255 {
        bus.cycle();
    }
    assert_eq!(bus.read(0xFF04), 0);
    bus.cycle();
    assert_eq!(bus.read(0xFF04), 1);
    for _ in 0..256 {
        bus.cycle();
    }
    assert_eq!(bus.read(0xFF04), 2);
}

#[test]
fn interrupt_flag_writes_or() {
    let mut bus = Bus::new(Vec::new(), None);
    bus.write(0xFF0F, 0x01);
    bus.write(0xFF0F, 0x04);
    assert_eq!(bus.read(0xFF0F), 0x05);
    // A written zero clears nothing.
    bus.write(0xFF0F, 0x00);
    assert_eq!(bus.read(0xFF0F), 0x05);
}

#[test]
fn interrupt_acknowledge_clears_bit() {
    let mut bus = Bus::new(Vec::new(), None);
    bus.enable_interrupts();
    assert_eq!(bus.ime, 1);
    bus.write(0xFF0F, 0x05);
    bus.handle_interrupt(0x01);
    assert_eq!(bus.ime, 0);
    assert_eq!(bus.read(0xFF0F), 0x04);
    bus.disable_interrupts();
    assert_eq!(bus.ime, 0);
}

#[test]
fn interrupt_enable_register() {
    let mut bus = Bus::new(Vec::new(), None);
    bus.write(0xFFFF, 0x1F);
    assert_eq!(bus.read(0xFFFF), 0x1F);
}

#[test]
fn ly_writes_are_ignored() {
    let mut bus = Bus::new(Vec::new(), None);
    bus.write(0xFF44, 0x55);
    assert_eq!(bus.read(0xFF44), 0);
}

#[test]
fn ppu_registers_route_to_gpu() {
    let mut bus = Bus::new(Vec::new(), None);
    bus.write(0xFF40, 0x91);
    bus.write(0xFF41, 0x02);
    bus.write(0xFF42, 0x13);
    bus.write(0xFF43, 0x17);
    bus.write(0xFF47, 0xE4);
    bus.write(0xFF48, 0xD2);
    bus.write(0xFF49, 0x1B);
    bus.write(0xFF4A, 0x40);
    bus.write(0xFF4B, 0x07);
    assert_eq!(bus.gpu.lcdc, 0x91);
    assert_eq!(bus.read(0xFF40), 0x91);
    assert_eq!(bus.read(0xFF41), 0x02);
    assert_eq!(bus.read(0xFF42), 0x13);
    assert_eq!(bus.read(0xFF43), 0x17);
    assert_eq!(bus.gpu.bgrdpal, 0xE4);
    assert_eq!(bus.read(0xFF48), 0xD2);
    assert_eq!(bus.read(0xFF49), 0x1B);
    assert_eq!(bus.read(0xFF4A), 0x40);
    assert_eq!(bus.read(0xFF4B), 0x07);
}

#[test]
fn vram_and_oam_route_to_gpu() {
    let mut bus = Bus::new(Vec::new(), None);
    bus.write(0x8000, 0x12);
    bus.write(0x9FFF, 0x34);
    bus.write(0xFE00, 0x56);
    bus.write(0xFE9F, 0x78);
    assert_eq!(bus.gpu.vram[0], 0x12);
    assert_eq!(bus.gpu.vram[0x1FFF], 0x34);
    assert_eq!(bus.gpu.oam[0], 0x56);
    assert_eq!(bus.gpu.oam[0x9F], 0x78);
    assert_eq!(bus.read(0x8000), 0x12);
    assert_eq!(bus.read(0x9FFF), 0x34);
    assert_eq!(bus.read(0xFE00), 0x56);
    assert_eq!(bus.read(0xFE9F), 0x78);
}

#[test]
fn plain_ram_reads_back() {
    let mut bus = Bus::new(Vec::new(), None);
    bus.write(0xC000, 0x99);
    bus.write(0xFF80, 0x42);
    bus.write(0xA000, 0x24);
    assert_eq!(bus.read(0xC000), 0x99);
    assert_eq!(bus.read(0xFF80), 0x42);
    assert_eq!(bus.read(0xA000), 0x24);
}

#[test]
fn joypad_interrupt_on_press() {
    let mut bus = Bus::new(Vec::new(), None);
    assert_eq!(bus.read(0xFF0F), 0);
    // Select the directions half: bit 4 written as zero.
    bus.write(0xFF00, 0x20);
    bus.inject_input(Key::Down, true);
    assert_eq!(bus.read(0xFF0F) & 0x10, 0x10);
    assert_eq!(bus.read(0xFF00), 0xE7);
    bus.inject_input(Key::Down, false);
    assert_eq!(bus.read(0xFF00), 0xEF);
}

#[test]
fn joypad_matrix_select() {
    let mut bus = Bus::new(Vec::new(), None);
    // Buttons are selected at reset; all lines released.
    assert_eq!(bus.read(0xFF00), 0xDF);
    bus.inject_input(Key::Start, true);
    assert_eq!(bus.read(0xFF00), 0xD7);
    // Select directions: the button press is not visible there.
    bus.write(0xFF00, 0x20);
    assert_eq!(bus.read(0xFF00), 0xEF);
    // Select buttons again: bit 5 written as zero.
    bus.write(0xFF00, 0x10);
    assert_eq!(bus.read(0xFF00), 0xD7);
}
