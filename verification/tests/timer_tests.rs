use rsboy::bus::Bus;

#[test]
fn tima_increments_at_selected_period() {
    let mut bus = Bus::new(Vec::new(), None);
    // TAC = enable + divide-by-16.
    bus.write(0xFF07, 0b101);
    for _ in 0..15 {
        bus.cycle();
    }
    assert_eq!(bus.read(0xFF05), 0);
    bus.cycle();
    assert_eq!(bus.read(0xFF05), 1);
    for _ in 0..16 {
        bus.cycle();
    }
    assert_eq!(bus.read(0xFF05), 2);
}

#[test]
fn tima_overflow_reloads_and_requests_interrupt() {
    let mut bus = Bus::new(Vec::new(), None);
    bus.write(0xFF07, 0b101);
    bus.write(0xFF06, 0x40);
    for _ in 0..4095 {
        bus.cycle();
    }
    assert_eq!(bus.read(0xFF05), 255);
    assert_eq!(bus.read(0xFF0F) & 0x04, 0);
    bus.cycle();
    assert_eq!(bus.read(0xFF05), 0x40);
    assert_eq!(bus.read(0xFF0F) & 0x04, 0x04);
}

#[test]
fn tima_disabled_when_tac_enable_clear() {
    let mut bus = Bus::new(Vec::new(), None);
    // Period bits set but the enable bit clear.
    bus.write(0xFF07, 0b001);
    for _ in 0..64 {
        bus.cycle();
    }
    assert_eq!(bus.read(0xFF05), 0);
}

#[test]
fn tima_slow_period() {
    let mut bus = Bus::new(Vec::new(), None);
    // TAC = enable + divide-by-1024.
    bus.write(0xFF07, 0b100);
    for _ in 0..1023 {
        bus.cycle();
    }
    assert_eq!(bus.read(0xFF05), 0);
    bus.cycle();
    assert_eq!(bus.read(0xFF05), 1);
}

#[test]
fn timer_registers_pass_through() {
    let mut bus = Bus::new(Vec::new(), None);
    bus.write(0xFF05, 0x11);
    bus.write(0xFF06, 0x22);
    bus.write(0xFF07, 0x07);
    assert_eq!(bus.read(0xFF05), 0x11);
    assert_eq!(bus.read(0xFF06), 0x22);
    assert_eq!(bus.read(0xFF07), 0x07);
}

#[test]
fn frame_boundary_is_inclusive_above() {
    let mut bus = Bus::new(Vec::new(), None);
    let start = bus.clock;
    for _ in 0..69904 {
        bus.cycle();
    }
    assert!(!bus.frame_done(start));
    bus.cycle();
    assert!(bus.frame_done(start));
    bus.cycle();
    assert!(bus.frame_done(start));
}

#[test]
fn clock_counts_cycles() {
    let mut bus = Bus::new(Vec::new(), None);
    for _ in 0..100 {
        bus.cycle();
    }
    assert_eq!(bus.clock, 100);
}
