//! Core of a DMG (original Game Boy) emulator: the memory bus with its
//! memory-mapped I/O registers, the pixel processing unit with its mode state
//! machine and rendering pipeline, the divider/timer counters, and the joypad
//! matrix. The CPU itself is an external collaborator: it drives the bus
//! through `bus::Memory` and observes the interrupt registers.

use vstd::prelude::*;

pub mod bus;
pub mod gpu;
pub mod texture;

verus! {

/// VBlank interrupt bit in the IF/IE registers.
pub const VBLANK: u8 = 0x01;

/// LCD STAT interrupt bit in the IF/IE registers.
pub const LCDSTAT: u8 = 0x02;

/// Timer overflow interrupt bit in the IF/IE registers.
pub const TIMER: u8 = 0x04;

/// Serial transfer interrupt bit in the IF/IE registers.
pub const SERIAL: u8 = 0x08;

/// Joypad press interrupt bit in the IF/IE registers.
pub const JOYPAD: u8 = 0x10;

/// Machine cycles per displayed frame: 4,194,304 Hz master clock at 60 frames
/// per second, rounded down.
pub const CYCLES_PER_FRAME: usize = 69905;

/// A zero-filled byte vector of the requested length.
pub fn zeroed_bytes(n: usize) -> (v: Vec<u8>)
    ensures
        v@ == Seq::new(n as nat, |i: int| 0u8),
{
    let mut v: Vec<u8> = Vec::new();
    let mut k: usize = 0;
    while k < n
        invariant
            k <= n,
            v@.len() == k,
            forall|i: int| 0 <= i < k ==> v@[i] == 0u8,
        decreases n - k,
    {
        v.push(0u8);
        k = k + 1;
    }
    proof {
        assert(v@ =~= Seq::new(n as nat, |i: int| 0u8));
    }
    v
}

/// A zero-filled vector of 16-bit words of the requested length.
pub fn zeroed_words(n: usize) -> (v: Vec<u16>)
    ensures
        v@ == Seq::new(n as nat, |i: int| 0u16),
{
    let mut v: Vec<u16> = Vec::new();
    let mut k: usize = 0;
    while k < n
        invariant
            k <= n,
            v@.len() == k,
            forall|i: int| 0 <= i < k ==> v@[i] == 0u16,
        decreases n - k,
    {
        v.push(0u16);
        k = k + 1;
    }
    proof {
        assert(v@ =~= Seq::new(n as nat, |i: int| 0u16));
    }
    v
}

} // verus!
