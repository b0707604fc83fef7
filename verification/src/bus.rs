//! The memory fabric: dispatches CPU reads and writes across ROM, VRAM, OAM,
//! work RAM, high RAM and the I/O registers, owns the interrupt and timer
//! state, and advances the PPU one dot per machine cycle.

use vstd::prelude::*;
use crate::gpu::GPU;
use crate::gpu::OAM_END;
use crate::gpu::OAM_START;
use crate::gpu::VRAM_END;
use crate::gpu::VRAM_START;

verus! {

/// Bus address of the divider register DIV.
pub const DIVIDER_REGISTER: usize = 0xFF04;

/// Bus address of the timer counter TIMA.
pub const TIMER_REG: usize = 0xFF05;

/// Bus address of the timer modulo TMA.
pub const TIMER_MODULO: usize = 0xFF06;

/// Bus address of the timer control TAC.
pub const TIMER_CONTROL: usize = 0xFF07;

/// The capability through which the CPU reaches the bus.
pub trait Memory {
    /// Standing invariant the implementor maintains.
    spec fn mem_inv(&self) -> bool;

    /// Addresses the implementor accepts reads from.
    spec fn can_read(&self, address: u16) -> bool;

    /// Writes the implementor accepts.
    spec fn can_write(&self, address: u16, value: u8) -> bool;

    fn read(&self, address: u16) -> u8
        requires
            self.mem_inv(),
            self.can_read(address),
    ;

    fn write(&mut self, address: u16, value: u8)
        requires
            old(self).mem_inv(),
            old(self).can_write(address, value),
    ;
}

/// Which half of the joypad matrix a read of 0xFF00 reports.
#[derive(Clone, Copy, Debug, PartialEq, Eq, Structural)]
pub enum Select {
    Buttons,
    Directions,
}

/// A joypad key.
#[derive(Clone, Copy, Debug, PartialEq, Eq, Structural)]
pub enum Key {
    Up,
    Down,
    Left,
    Right,
    A,
    B,
    Start,
    Select,
}

/// Whether a key sits on the directions half of the matrix.
pub open spec fn key_is_direction(k: Key) -> bool {
    match k {
        Key::Up | Key::Down | Key::Left | Key::Right => true,
        _ => false,
    }
}

/// Bit of a key within its input nibble (bit clear = pressed).
pub open spec fn key_bit(k: Key) -> u8 {
    match k {
        Key::Right => 0b0001,
        Key::Left => 0b0010,
        Key::Up => 0b0100,
        Key::Down => 0b1000,
        Key::A => 0b0001,
        Key::B => 0b0010,
        Key::Select => 0b0100,
        Key::Start => 0b1000,
    }
}

/// TIMA period in cycles selected by TAC bits 1-0.
pub open spec fn timer_period(tac: u8) -> int {
    if tac & 0b11 == 0b00 {
        1024
    } else if tac & 0b11 == 0b01 {
        16
    } else if tac & 0b11 == 0b10 {
        64
    } else {
        256
    }
}

/// Increment with wrap-around at 256.
pub open spec fn wrap_inc(x: u8) -> u8 {
    if x == 255 {
        0
    } else {
        (x + 1) as u8
    }
}

/// One timer tick at bus time `clock`: DIV counts every 256 cycles; when TAC
/// enables it, TIMA counts at the selected period and, on overflow, reloads
/// from TMA and requests a timer interrupt. Returns the new
/// `(DIV, TIMA, IF)`.
pub open spec fn spec_timer(clock: int, div: u8, tima: u8, tma: u8, tac: u8, intf: u8)
    -> (u8, u8, u8) {
    let div2 = if clock % 256 == 0 {
        wrap_inc(div)
    } else {
        div
    };
    if tac & 0b100 != 0 && clock % timer_period(tac) == 0 {
        if tima == 255 {
            (div2, tma, intf | crate::TIMER)
        } else {
            (div2, (tima + 1) as u8, intf)
        }
    } else {
        (div2, tima, intf)
    }
}

/// The whole machine but the CPU: flat memory, boot ROM overlay, interrupt
/// registers, cycle counter, joypad matrix and the PPU.
pub struct Bus {
    pub memory: Vec<u8>,
    pub bootrom: Vec<u8>,
    pub in_bios: u8,
    pub int_enabled: u8,
    pub int_flags: u8,
    pub clock: usize,
    pub ime: u8,
    pub joypad_io: Select,
    pub directions: u8,
    pub buttons: u8,
    pub gpu: GPU,
    pub rom_start_signal: bool,
}

impl Bus {
    /// Memory sizes are fixed, the joypad shadows are nibbles, and the PPU is
    /// well-formed.
    pub open spec fn wf(self) -> bool {
        &&& self.memory@.len() == 0x10000
        &&& self.bootrom@.len() == 0x100
        &&& self.directions < 16
        &&& self.buttons < 16
        &&& self.gpu.wf()
    }

    /// Value a read of the joypad port 0xFF00 returns: the selector bits,
    /// the unused and inactive lines as ones, and the selected input nibble
    /// (bit set = not pressed).
    pub open spec fn spec_joypad(self) -> u8 {
        match self.joypad_io {
            Select::Directions => 0xE0 | self.directions,
            Select::Buttons => 0xD0 | self.buttons,
        }
    }

    /// Value a read of `address` returns: the boot ROM overlay while active,
    /// the PPU registers, IE/IF, the joypad port, VRAM, OAM, and the flat
    /// memory array everywhere else.
    pub open spec fn spec_read(self, address: u16) -> u8 {
        let a = address as int;
        if a < 0x100 && self.in_bios == 0 {
            self.bootrom@[a]
        } else if a == 0xFF40 {
            self.gpu.lcdc
        } else if a == 0xFF41 {
            self.gpu.lcdstat
        } else if a == 0xFF42 {
            self.gpu.vscroll
        } else if a == 0xFF43 {
            self.gpu.hscroll
        } else if a == 0xFF44 {
            self.gpu.scanline
        } else if a == 0xFF48 {
            self.gpu.obj0pal
        } else if a == 0xFF49 {
            self.gpu.obj1pal
        } else if a == 0xFF4A {
            self.gpu.windowy
        } else if a == 0xFF4B {
            self.gpu.windowx
        } else if a == 0xFFFF {
            self.int_enabled
        } else if a == 0xFF0F {
            self.int_flags
        } else if a == 0xFF00 {
            self.spec_joypad()
        } else if 0x8000 <= a && a <= 0x9FFF {
            self.gpu.vram@[a - 0x8000]
        } else if 0xFE00 <= a && a <= 0xFE9F {
            self.gpu.oam@[a - 0xFE00]
        } else {
            self.memory@[a]
        }
    }

    /// How a write of `value` to `address` relates the bus before (`self`)
    /// to the bus after (`post`): DIV resets, LY writes are ignored, IF
    /// writes OR into the register, a nonzero write to 0xFF50 retires the
    /// boot ROM overlay for good, 0xFF00 selects the joypad matrix half, the
    /// PPU registers, VRAM and OAM are routed to the PPU, and everything
    /// else lands in the flat memory array.
    pub open spec fn write_rel(self, address: u16, value: u8, post: Bus) -> bool {
        let a = address as int;
        if a == 0xFF04 {
            &&& post == Bus { memory: post.memory, ..self }
            &&& post.memory@ == self.memory@.update(0xFF04, 0u8)
        } else if a == 0xFF40 {
            post == Bus { gpu: GPU { lcdc: value, ..self.gpu }, ..self }
        } else if a == 0xFF41 {
            post == Bus { gpu: GPU { lcdstat: value, ..self.gpu }, ..self }
        } else if a == 0xFF42 {
            post == Bus { gpu: GPU { vscroll: value, ..self.gpu }, ..self }
        } else if a == 0xFF43 {
            post == Bus { gpu: GPU { hscroll: value, ..self.gpu }, ..self }
        } else if a == 0xFF44 {
            post == self
        } else if a == 0xFF47 {
            post == Bus { gpu: GPU { bgrdpal: value, ..self.gpu }, ..self }
        } else if a == 0xFF48 {
            post == Bus { gpu: GPU { obj0pal: value, ..self.gpu }, ..self }
        } else if a == 0xFF49 {
            post == Bus { gpu: GPU { obj1pal: value, ..self.gpu }, ..self }
        } else if a == 0xFF4A {
            post == Bus { gpu: GPU { windowy: value, ..self.gpu }, ..self }
        } else if a == 0xFF4B {
            post == Bus { gpu: GPU { windowx: value, ..self.gpu }, ..self }
        } else if a == 0xFFFF {
            post == Bus { int_enabled: value, ..self }
        } else if a == 0xFF0F {
            post == Bus { int_flags: self.int_flags | value, ..self }
        } else if a == 0xFF50 {
            if value != 0 {
                post == Bus { in_bios: value, rom_start_signal: true, ..self }
            } else {
                post == self
            }
        } else if a == 0xFF00 {
            if value & 0b0001_0000 == 0 {
                post == Bus { joypad_io: Select::Directions, ..self }
            } else if value & 0b0010_0000 == 0 {
                post == Bus { joypad_io: Select::Buttons, ..self }
            } else {
                post == self
            }
        } else if 0x8000 <= a && a <= 0x9FFF {
            &&& post == Bus { gpu: GPU { vram: post.gpu.vram, ..self.gpu }, ..self }
            &&& post.gpu.vram@ == self.gpu.vram@.update(a - 0x8000, value)
        } else if 0xFE00 <= a && a <= 0xFE9F {
            &&& post == Bus { gpu: GPU { oam: post.gpu.oam, ..self.gpu }, ..self }
            &&& post.gpu.oam@ == self.gpu.oam@.update(a - 0xFE00, value)
        } else {
            &&& post == Bus { memory: post.memory, ..self }
            &&& post.memory@ == self.memory@.update(a, value)
        }
    }

    /// A bus at reset: the cartridge image at the bottom of a zeroed memory
    /// array, the boot ROM overlay active exactly when a boot ROM was given,
    /// interrupts clear and the joypad released.
    pub fn new(rom: Vec<u8>, bootrom: Option<Vec<u8>>) -> (b: Bus)
        requires
            rom@.len() <= 0x8000,
            bootrom matches Some(br) ==> br@.len() == 0x100,
        ensures
            b.wf(),
            b.memory@.len() == 0x10000,
            forall|i: int| 0 <= i < rom@.len() ==> b.memory@[i] == rom@[i],
            forall|i: int| rom@.len() <= i < 0x10000 ==> b.memory@[i] == 0,
            bootrom matches Some(br) ==> b.bootrom@ == br@ && b.in_bios == 0,
            bootrom is None ==> b.bootrom@ == Seq::new(0x100, |i: int| 0u8) && b.in_bios == 1,
            b.int_enabled == 0,
            b.int_flags == 0,
            b.clock == 0,
            b.ime == 0,
            b.joypad_io is Buttons,
            b.directions == 0x0F,
            b.buttons == 0x0F,
            b.rom_start_signal == false,
            b.gpu.wf(),
            b.gpu.is_reset(),
    {
        let mut memory = crate::zeroed_bytes(0x10000);
        let mut i: usize = 0;
        while i < rom.len()
            invariant
                rom@.len() <= 0x8000,
                i <= rom@.len(),
                memory@.len() == 0x10000,
                forall|k: int| 0 <= k < i ==> memory@[k] == rom@[k],
                forall|k: int| i <= k < 0x10000 ==> memory@[k] == 0,
            decreases rom@.len() - i,
        {
            memory.set(i, rom[i]);
            i = i + 1;
        }
        let (bootrom, in_bios): (Vec<u8>, u8) = match bootrom {
            Some(br) => (br, 0),
            None => (crate::zeroed_bytes(0x100), 1),
        };
        Bus {
            memory,
            bootrom,
            ime: 0,
            in_bios,
            int_enabled: 0,
            int_flags: 0,
            clock: 0,
            joypad_io: Select::Buttons,
            directions: 0x0F,
            buttons: 0x0F,
            gpu: GPU::new(),
            rom_start_signal: false,
        }
    }

    /// Read one byte from the memory map. The background palette register
    /// 0xFF47 is write-only; reading it is a caller bug and is rejected.
    pub fn read(&self, address: u16) -> (r: u8)
        requires
            self.wf(),
            address != 0xFF47,
        ensures
            r == self.spec_read(address),
    {
        let a = address as usize;
        if a < 0x100 && self.in_bios == 0 {
            self.bootrom[a]
        } else if a == 0xFF40 {
            self.gpu.lcdc
        } else if a == 0xFF41 {
            self.gpu.lcdstat
        } else if a == 0xFF42 {
            self.gpu.vscroll
        } else if a == 0xFF43 {
            self.gpu.hscroll
        } else if a == 0xFF44 {
            self.gpu.scanline
        } else if a == 0xFF48 {
            self.gpu.obj0pal
        } else if a == 0xFF49 {
            self.gpu.obj1pal
        } else if a == 0xFF4A {
            self.gpu.windowy
        } else if a == 0xFF4B {
            self.gpu.windowx
        } else if a == 0xFFFF {
            self.int_enabled
        } else if a == 0xFF0F {
            self.int_flags
        } else if a == 0xFF00 {
            match self.joypad_io {
                Select::Directions => 0xE0 | self.directions,
                Select::Buttons => 0xD0 | self.buttons,
            }
        } else if VRAM_START <= a && a <= VRAM_END {
            self.gpu.vram[a - VRAM_START]
        } else if OAM_START <= a && a <= OAM_END {
            self.gpu.oam[a - OAM_START]
        } else {
            self.memory[a]
        }
    }

    /// Write one byte into the memory map (see `write_rel`). Writing into
    /// the boot ROM region while the overlay is active is a caller bug and
    /// is rejected.
    pub fn write(&mut self, address: u16, value: u8)
        requires
            old(self).wf(),
            !(old(self).in_bios == 0 && address < 0x100),
        ensures
            final(self).wf(),
            old(self).write_rel(address, value, *final(self)),
    {
        let a = address as usize;
        if a == 0xFF04 {
            self.memory.set(DIVIDER_REGISTER, 0);
        } else if a == 0xFF40 {
            self.gpu.lcdc = value;
        } else if a == 0xFF41 {
            self.gpu.lcdstat = value;
        } else if a == 0xFF42 {
            self.gpu.vscroll = value;
        } else if a == 0xFF43 {
            self.gpu.hscroll = value;
        } else if a == 0xFF44 {
            // LY is read-only; the write is ignored.
        } else if a == 0xFF47 {
            self.gpu.bgrdpal = value;
        } else if a == 0xFF48 {
            self.gpu.obj0pal = value;
        } else if a == 0xFF49 {
            self.gpu.obj1pal = value;
        } else if a == 0xFF4A {
            self.gpu.windowy = value;
        } else if a == 0xFF4B {
            self.gpu.windowx = value;
        } else if a == 0xFFFF {
            self.int_enabled = value;
        } else if a == 0xFF0F {
            self.int_flags = self.int_flags | value;
        } else if a == 0xFF50 {
            if value != 0 {
                self.rom_start_signal = true;
                self.in_bios = value;
            }
        } else if a == 0xFF00 {
            if value & 0b0001_0000 == 0 {
                self.joypad_io = Select::Directions;
            } else if value & 0b0010_0000 == 0 {
                self.joypad_io = Select::Buttons;
            }
        } else if VRAM_START <= a && a <= VRAM_END {
            self.gpu.vram.set(a - VRAM_START, value);
        } else if OAM_START <= a && a <= OAM_END {
            self.gpu.oam.set(a - OAM_START, value);
        } else {
            self.memory.set(a, value);
        }
    }

    /// Whether a frame begun at bus time `start` is complete: the boundary
    /// is inclusive-above, one frame's worth of cycles or more.
    pub fn frame_done(&self, start: usize) -> (r: bool)
        ensures
            r <==> self.clock >= start + crate::CYCLES_PER_FRAME,
    {
        crate::CYCLES_PER_FRAME <= self.clock && start <= self.clock - crate::CYCLES_PER_FRAME
    }

    /// Set the interrupt master enable flag.
    pub fn enable_interrupts(&mut self)
        ensures
            *final(self) == (Bus { ime: 1u8, ..*old(self) }),
    {
        self.ime = 1;
    }

    /// Clear the interrupt master enable flag.
    pub fn disable_interrupts(&mut self)
        ensures
            *final(self) == (Bus { ime: 0u8, ..*old(self) }),
    {
        self.ime = 0;
    }

    /// Acknowledge a dispatched interrupt: clear its request bit and disable
    /// further interrupts until the handler returns.
    pub fn handle_interrupt(&mut self, flag: u8)
        ensures
            *final(self) == (Bus {
                ime: 0u8,
                int_flags: (old(self).int_flags & !flag) as u8,
                ..*old(self)
            }),
    {
        self.ime = 0;
        self.int_flags = self.int_flags & !flag;
    }

    /// Record a key press or release: presses clear the key's bit in its
    /// input nibble and request a joypad interrupt, releases set the bit.
    pub fn inject_input(&mut self, key: Key, pressed: bool)
        requires
            old(self).wf(),
        ensures
            final(self).wf(),
            final(self).directions == if key_is_direction(key) {
                if pressed {
                    old(self).directions & !key_bit(key)
                } else {
                    old(self).directions | key_bit(key)
                }
            } else {
                old(self).directions
            },
            final(self).buttons == if !key_is_direction(key) {
                if pressed {
                    old(self).buttons & !key_bit(key)
                } else {
                    old(self).buttons | key_bit(key)
                }
            } else {
                old(self).buttons
            },
            final(self).int_flags == if pressed {
                old(self).int_flags | crate::JOYPAD
            } else {
                old(self).int_flags
            },
            *final(self) == (Bus {
                directions: final(self).directions,
                buttons: final(self).buttons,
                int_flags: final(self).int_flags,
                ..*old(self)
            }),
    {
        proof {
            lemma_nibble_ops();
        }
        let bit: u8 = match key {
            Key::Right | Key::A => 0b0001,
            Key::Left | Key::B => 0b0010,
            Key::Up | Key::Select => 0b0100,
            Key::Down | Key::Start => 0b1000,
        };
        let is_direction = match key {
            Key::Up | Key::Down | Key::Left | Key::Right => true,
            _ => false,
        };
        if is_direction {
            if pressed {
                self.directions = self.directions & !bit;
            } else {
                self.directions = self.directions | bit;
            }
        } else {
            if pressed {
                self.buttons = self.buttons & !bit;
            } else {
                self.buttons = self.buttons | bit;
            }
        }
        if pressed {
            self.int_flags = self.int_flags | crate::JOYPAD;
        }
    }

    /// One timer tick at the current bus time (see `spec_timer`).
    fn tick_timer_counter(&mut self)
        requires
            old(self).wf(),
        ensures
            final(self).wf(),
            ({
                let (d, t, f) = spec_timer(
                    old(self).clock as int,
                    old(self).memory@[0xFF04],
                    old(self).memory@[0xFF05],
                    old(self).memory@[0xFF06],
                    old(self).memory@[0xFF07],
                    old(self).int_flags,
                );
                &&& final(self).memory@.len() == 0x10000
                &&& final(self).memory@[0xFF04] == d
                &&& final(self).memory@[0xFF05] == t
                &&& final(self).int_flags == f
                &&& forall|k: int|
                    0 <= k < 0x10000 && k != 0xFF04 && k != 0xFF05
                        ==> final(self).memory@[k] == old(self).memory@[k]
                &&& *final(self) == Bus {
                    memory: final(self).memory,
                    int_flags: final(self).int_flags,
                    ..*old(self)
                }
            }),
    {
        if self.clock % 256 == 0 {
            let d = self.memory[DIVIDER_REGISTER];
            let d2 = if d == 255 {
                0
            } else {
                d + 1
            };
            self.memory.set(DIVIDER_REGISTER, d2);
        }
        let control = self.memory[TIMER_CONTROL];
        let clock_select = control & 0b11;
        let enable = (control & 0b100) != 0;
        let clock_speed: usize = if clock_select == 0b00 {
            1024
        } else if clock_select == 0b01 {
            16
        } else if clock_select == 0b10 {
            64
        } else {
            256
        };
        if enable && self.clock % clock_speed == 0 {
            let t = self.memory[TIMER_REG];
            if t == 255 {
                self.int_flags = self.int_flags | crate::TIMER;
                let tma = self.memory[TIMER_MODULO];
                self.memory.set(TIMER_REG, tma);
            } else {
                self.memory.set(TIMER_REG, t + 1);
            }
        }
    }

    /// Count one machine cycle and run the timers for it.
    fn tick(&mut self)
        requires
            old(self).wf(),
            old(self).clock < usize::MAX,
        ensures
            final(self).wf(),
            final(self).clock == old(self).clock + 1,
            ({
                let (d, t, f) = spec_timer(
                    old(self).clock + 1,
                    old(self).memory@[0xFF04],
                    old(self).memory@[0xFF05],
                    old(self).memory@[0xFF06],
                    old(self).memory@[0xFF07],
                    old(self).int_flags,
                );
                &&& final(self).memory@.len() == 0x10000
                &&& final(self).memory@[0xFF04] == d
                &&& final(self).memory@[0xFF05] == t
                &&& final(self).int_flags == f
                &&& forall|k: int|
                    0 <= k < 0x10000 && k != 0xFF04 && k != 0xFF05
                        ==> final(self).memory@[k] == old(self).memory@[k]
                &&& *final(self) == Bus {
                    memory: final(self).memory,
                    int_flags: final(self).int_flags,
                    clock: final(self).clock,
                    ..*old(self)
                }
            }),
    {
        self.clock = self.clock + 1;
        self.tick_timer_counter();
    }

    /// One machine cycle: the PPU advances one dot (possibly requesting a
    /// VBlank interrupt), then the cycle is counted and the timers run.
    pub fn cycle(&mut self)
        requires
            old(self).wf(),
            old(self).clock < usize::MAX,
            old(self).gpu.vblank_count < usize::MAX,
        ensures
            final(self).wf(),
            old(self).cycle_rel(*final(self)),
    {
        let mut f = self.int_flags;
        self.gpu.cycle(&mut f);
        self.int_flags = f;
        self.tick();
    }

    /// How one machine cycle relates the bus before (`self`) to the bus
    /// after (`post`).
    pub open spec fn cycle_rel(self, post: Bus) -> bool {
        let intf1 = if self.gpu.cycle_requests_vblank() {
            self.int_flags | crate::VBLANK
        } else {
            self.int_flags
        };
        let (d, t, f) = spec_timer(
            self.clock + 1,
            self.memory@[0xFF04],
            self.memory@[0xFF05],
            self.memory@[0xFF06],
            self.memory@[0xFF07],
            intf1,
        );
        &&& post.gpu == self.gpu.spec_cycle()
        &&& post.clock == self.clock + 1
        &&& post.memory@.len() == 0x10000
        &&& post.memory@[0xFF04] == d
        &&& post.memory@[0xFF05] == t
        &&& post.int_flags == f
        &&& forall|k: int|
            0 <= k < 0x10000 && k != 0xFF04 && k != 0xFF05 ==> post.memory@[k] == self.memory@[k]
        &&& post == Bus {
            memory: post.memory,
            int_flags: post.int_flags,
            clock: post.clock,
            gpu: post.gpu,
            ..self
        }
    }
}

impl Memory for Bus {
    /// The bus invariant.
    open spec fn mem_inv(&self) -> bool {
        self.wf()
    }

    /// Every address but the write-only background palette register.
    open spec fn can_read(&self, address: u16) -> bool {
        address != 0xFF47
    }

    /// Every write but one into the boot ROM region while the overlay is
    /// active.
    open spec fn can_write(&self, address: u16, value: u8) -> bool {
        !(self.in_bios == 0 && address < 0x100)
    }

    fn read(&self, address: u16) -> u8 {
        Bus::read(self, address)
    }

    fn write(&mut self, address: u16, value: u8) {
        Bus::write(self, address, value)
    }
}

impl Bus {
    /// `n` machine cycles in sequence relate `self` to `post`.
    pub open spec fn run_rel(self, post: Bus, n: nat) -> bool
        decreases n,
    {
        if n == 0 {
            post == self
        } else {
            exists|mid: Bus| #[trigger] mid.cycle_rel(post) && self.run_rel(mid, (n - 1) as nat)
        }
    }
}

/// Extend a cycle chain by one cycle.
pub proof fn lemma_run_rel_step(b: Bus, mid: Bus, post: Bus, n: nat)
    requires
        b.run_rel(mid, n),
        mid.cycle_rel(post),
    ensures
        b.run_rel(post, n + 1),
{
}

/// Writing any value to the divider register makes a following read of it
/// return zero.
pub proof fn lemma_div_write_resets(b: Bus, post: Bus, value: u8)
    requires
        b.wf(),
        b.write_rel(0xFF04, value, post),
    ensures
        post.spec_read(0xFF04) == 0,
{
}

/// While the boot ROM overlay is active, address 0 reads the boot ROM.
pub proof fn lemma_boot_overlay_active(b: Bus)
    requires
        b.wf(),
        b.in_bios == 0,
    ensures
        b.spec_read(0x0000) == b.bootrom@[0],
{
}

/// A nonzero write to 0xFF50 retires the overlay: address 0 then reads the
/// cartridge ROM.
pub proof fn lemma_boot_handoff(b: Bus, post: Bus, value: u8)
    requires
        b.wf(),
        value != 0,
        b.write_rel(0xFF50, value, post),
    ensures
        post.in_bios != 0,
        post.spec_read(0x0000) == post.memory@[0],
        post.memory@[0] == b.memory@[0],
{
}

/// Once the overlay is retired, a write of zero to 0xFF50 does not bring it
/// back.
pub proof fn lemma_boot_no_reenable(b: Bus, post: Bus)
    requires
        b.wf(),
        b.in_bios != 0,
        b.write_rel(0xFF50, 0, post),
    ensures
        post.in_bios != 0,
        post.spec_read(0x0000) == post.memory@[0],
{
}

/// A press injected while the directions half is selected requests a joypad
/// interrupt, and a read of 0xFF00 shows the key's line pulled low. The
/// hypotheses on `post` are what `Bus::inject_input` ensures for a press of
/// a direction key.
pub proof fn lemma_joypad_press_visible(b: Bus, post: Bus, key: Key)
    requires
        b.wf(),
        b.joypad_io is Directions,
        key_is_direction(key),
        post.directions == b.directions & !key_bit(key),
        post.buttons == b.buttons,
        post.int_flags == b.int_flags | crate::JOYPAD,
        post == (Bus {
            directions: post.directions,
            buttons: post.buttons,
            int_flags: post.int_flags,
            ..b
        }),
    ensures
        post.int_flags & crate::JOYPAD == crate::JOYPAD,
        post.spec_read(0xFF00) == 0xE0 | (b.directions & !key_bit(key)),
        post.spec_read(0xFF00) & key_bit(key) == 0,
{
    let f = b.int_flags;
    assert((f | 0x10) & 0x10 == 0x10) by (bit_vector);
    let d = b.directions;
    let kb = key_bit(key);
    assert(kb == 1 || kb == 2 || kb == 4 || kb == 8);
    assert((0xE0 | (d & !kb)) & kb == 0) by (bit_vector)
        requires
            kb == 1 || kb == 2 || kb == 4 || kb == 8,
    ;
}

/// With the LCD off and the timer disabled, `n <= 256` cycles from bus time
/// zero leave everything in place except the cycle counter — and the divider
/// register, which wrap-increments exactly once, at cycle 256.
pub proof fn lemma_div_counts(b: Bus, post: Bus, n: nat)
    requires
        b.wf(),
        b.run_rel(post, n),
        !b.gpu.spec_is_on(),
        b.clock == 0,
        b.memory@[0xFF07] & 0b100 == 0,
        n <= 256,
    ensures
        post.wf(),
        post.clock == n,
        post.memory@[0xFF04] == if n < 256 {
            b.memory@[0xFF04]
        } else {
            wrap_inc(b.memory@[0xFF04])
        },
        post.int_flags == b.int_flags,
        post.gpu == b.gpu,
        forall|k: int| 0 <= k < 0x10000 && k != 0xFF04 ==> post.memory@[k] == b.memory@[k],
        post == (Bus { memory: post.memory, clock: post.clock, ..b }),
    decreases n,
{
    if n == 0 {
    } else {
        let mid = choose|mid: Bus| #[trigger] mid.cycle_rel(post) && b.run_rel(mid, (n - 1) as nat);
        lemma_div_counts(b, mid, (n - 1) as nat);
        if n < 256 {
            vstd::arithmetic::div_mod::lemma_small_mod(n, 256);
        }
        assert(!mid.gpu.cycle_requests_vblank());
        assert(mid.gpu.spec_cycle() == mid.gpu);
    }
}

/// With the LCD off and TAC set to enable with the divide-by-16 period,
/// `n` cycles from bus time zero increment TIMA once every 16 cycles, with
/// no overflow and no interrupt as long as the count stays below 256.
pub proof fn lemma_tima_counts(b: Bus, post: Bus, n: nat)
    requires
        b.wf(),
        b.run_rel(post, n),
        !b.gpu.spec_is_on(),
        b.clock == 0,
        b.memory@[0xFF07] == 0b101,
        b.memory@[0xFF05] + n / 16 <= 255,
    ensures
        post.wf(),
        post.clock == n,
        post.gpu == b.gpu,
        post.memory@[0xFF05] == b.memory@[0xFF05] + n / 16,
        post.int_flags == b.int_flags,
        forall|k: int|
            0 <= k < 0x10000 && k != 0xFF04 && k != 0xFF05 ==> post.memory@[k] == b.memory@[k],
        post == (Bus { memory: post.memory, clock: post.clock, ..b }),
    decreases n,
{
    assert(0b101u8 & 0b11 == 0b01 && 0b101u8 & 0b100 != 0) by (bit_vector);
    if n == 0 {
    } else {
        let mid = choose|mid: Bus| #[trigger] mid.cycle_rel(post) && b.run_rel(mid, (n - 1) as nat);
        vstd::arithmetic::div_mod::lemma_fundamental_div_mod(n as int, 16);
        vstd::arithmetic::div_mod::lemma_mod_bound(n as int, 16);
        vstd::arithmetic::div_mod::lemma_div_pos_is_pos(n as int, 16);
        if n % 16 == 0 {
            vstd::arithmetic::div_mod::lemma_fundamental_div_mod_converse(
                n - 1, 16, n as int / 16 - 1, 15);
        } else {
            vstd::arithmetic::div_mod::lemma_fundamental_div_mod_converse(
                n - 1, 16, n as int / 16, n as int % 16 - 1);
        }
        lemma_tima_counts(b, mid, (n - 1) as nat);
        assert(!mid.gpu.cycle_requests_vblank());
        assert(mid.gpu.spec_cycle() == mid.gpu);
        assert(timer_period(0b101) == 16);
    }
}

/// With the LCD off, TAC at enable + divide-by-16 and TIMA starting at zero,
/// cycle 4096 overflows TIMA: it reloads from TMA and the timer interrupt is
/// requested then, and only then.
pub proof fn lemma_tima_overflow(b: Bus, post: Bus)
    requires
        b.wf(),
        b.run_rel(post, 4096),
        !b.gpu.spec_is_on(),
        b.clock == 0,
        b.memory@[0xFF07] == 0b101,
        b.memory@[0xFF05] == 0,
    ensures
        post.wf(),
        post.clock == 4096,
        post.memory@[0xFF05] == b.memory@[0xFF06],
        post.int_flags == b.int_flags | crate::TIMER,
{
    assert(0b101u8 & 0b11 == 0b01 && 0b101u8 & 0b100 != 0) by (bit_vector);
    let mid = choose|mid: Bus| #[trigger] mid.cycle_rel(post) && b.run_rel(mid, 4095nat);
    lemma_tima_counts(b, mid, 4095);
    assert(mid.memory@[0xFF05] == 255);
    assert(!mid.gpu.cycle_requests_vblank());
    assert(timer_period(0b101) == 16);
}

/// Running the bus runs the PPU dot for dot, and a frame started with the
/// LCD on shows the VBlank request in IF from dot 65664 on: no write path of
/// the cycle ever clears an interrupt bit.
pub proof fn lemma_frame_vblank_interrupt(b: Bus, post: Bus, n: nat)
    requires
        b.wf(),
        b.run_rel(post, n),
        b.gpu.spec_is_on(),
        b.gpu.mode is OAM,
        b.gpu.clock == 0,
        b.gpu.scanline == 0,
        b.gpu.vblank_count < usize::MAX,
        n <= 70224,
    ensures
        post.gpu == crate::gpu::gpu_run(b.gpu, n),
        n >= 65664 ==> post.int_flags & crate::VBLANK == crate::VBLANK,
    decreases n,
{
    if n > 0 {
        let mid = choose|mid: Bus| #[trigger] mid.cycle_rel(post) && b.run_rel(mid, (n - 1) as nat);
        lemma_frame_vblank_interrupt(b, mid, (n - 1) as nat);
        crate::gpu::lemma_frame_schedule(b.gpu, (n - 1) as nat);
        let f1 = mid.int_flags;
        assert((f1 | 0x01u8) & 0x01 == 0x01) by (bit_vector);
        if n - 1 >= 65664 {
            assert(f1 & 0x01 == 0x01);
            assert(((f1 | 0x01) | 0x04u8) & 0x01 == 0x01 && (f1 | 0x04u8) & 0x01 == f1 & 0x01)
                by (bit_vector);
        } else if n == 65664 {
            // The dot taken here completes HBlank of scanline 143: the PPU
            // requests VBlank and the timer can only set further bits.
            assert(mid.gpu.mode is HBlank && mid.gpu.clock == 203 && mid.gpu.scanline == 143);
            assert(mid.gpu.cycle_requests_vblank());
            assert(((f1 | 0x01) | 0x04u8) & 0x01 == 0x01) by (bit_vector);
        }
    }
}

/// Masking a nibble keeps it a nibble; or-ing two nibbles stays a nibble.
pub proof fn lemma_nibble_ops()
    by (bit_vector)
    ensures
        forall|d: u8, m: u8| d < 16 ==> #[trigger] (d & m) < 16,
        forall|d: u8, b: u8| d < 16 && b < 16 ==> #[trigger] (d | b) < 16,
{
}

} // verus!
