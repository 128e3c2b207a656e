//! Co-processor configuration: the clock divisor and the shift settings.
//!
//! The micro-program spends CYCLES_PER_BIT co-processor cycles per protocol
//! bit, so the co-processor must be clocked at CYCLES_PER_BIT times the
//! target bit rate. The hardware divides the system clock by a 16.8
//! fixed-point divisor; the library computes the divisor that realizes the
//! bit rate as exactly as that register allows.

use vstd::prelude::*;

use vstd::arithmetic::div_mod::{
    lemma_fundamental_div_mod, lemma_fundamental_div_mod_converse, lemma_mod_pos_bound,
};

use crate::program::CYCLES_PER_BIT;

verus! {

/// The protocol's nominal bit rate, in bits per second.
pub const TARGET_BIT_RATE: u32 = 800_000;

/// The co-processor clock the divisor aims for, in Hz.
pub const PIO_CLOCK_HZ: u32 = CYCLES_PER_BIT * TARGET_BIT_RATE;

/// Bits a pull refills at once: one 24-bit pixel word per refill.
pub const PULL_THRESHOLD: u8 = 24;

/// A clock divisor as the hardware takes it: a 16.8 fixed-point number,
/// `int_part + frac_part / 256`.
#[derive(Copy, Clone, PartialEq, Eq, Structural)]
pub struct ClockDivisor {
    pub int_part: u16,
    pub frac_part: u8,
}

/// A divisor's value in units of 1/256.
pub open spec fn divisor_fp(d: ClockDivisor) -> int {
    d.int_part * 256 + d.frac_part
}

/// The divisor `clk_freq_hz / (CYCLES_PER_BIT * TARGET_BIT_RATE)`, rounded
/// down to the 1/256 step of the divisor register.
pub fn clock_divisor(clk_freq_hz: u32) -> (d: ClockDivisor)
    ensures
        divisor_fp(d) == (clk_freq_hz as int) * 256 / (PIO_CLOCK_HZ as int),
{
    let int_part: u32 = clk_freq_hz / PIO_CLOCK_HZ;
    let rem: u32 = clk_freq_hz % PIO_CLOCK_HZ;
    proof {
        lemma_fundamental_div_mod(clk_freq_hz as int, PIO_CLOCK_HZ as int);
        lemma_mod_pos_bound(clk_freq_hz as int, PIO_CLOCK_HZ as int);
        assert(rem < PIO_CLOCK_HZ);
        assert(int_part < 65536);
    }
    let frac: u32 = rem * 256 / PIO_CLOCK_HZ;
    proof {
        lemma_fundamental_div_mod(rem as int * 256, PIO_CLOCK_HZ as int);
        lemma_mod_pos_bound(rem as int * 256, PIO_CLOCK_HZ as int);
        assert(frac < 256);
        lemma_fundamental_div_mod_converse(
            clk_freq_hz as int * 256,
            PIO_CLOCK_HZ as int,
            int_part as int * 256 + frac as int,
            (rem as int * 256) % (PIO_CLOCK_HZ as int),
        );
    }
    ClockDivisor { int_part: int_part as u16, frac_part: frac as u8 }
}

/// Divisor accuracy law: the computed divisor, in 1/256 units, is the
/// greatest that does not overshoot the exact ratio of the system clock to
/// the target co-processor clock; the realized co-processor clock misses
/// CYCLES_PER_BIT times the target bit rate only by the rounding of the
/// divisor register's 1/256 step.
pub proof fn lemma_divisor_accuracy(clk_freq_hz: u32, d: ClockDivisor)
    requires
        divisor_fp(d) == (clk_freq_hz as int) * 256 / (PIO_CLOCK_HZ as int),
    ensures
        divisor_fp(d) * (PIO_CLOCK_HZ as int) <= (clk_freq_hz as int) * 256,
        (clk_freq_hz as int) * 256 < (divisor_fp(d) + 1) * (PIO_CLOCK_HZ as int),
{
    lemma_fundamental_div_mod(clk_freq_hz as int * 256, PIO_CLOCK_HZ as int);
    lemma_mod_pos_bound(clk_freq_hz as int * 256, PIO_CLOCK_HZ as int);
}

/// Everything the co-processor is configured with before it starts: the
/// data pin the program drives, the clock divisor, and the shift setup --
/// refill threshold of one pixel word, automatic refill, most-significant
/// bit first, and both hardware queues joined into one transmit queue.
#[derive(Copy, Clone, PartialEq, Eq, Structural)]
pub struct PioSettings {
    pub pin: u8,
    pub divisor: ClockDivisor,
    pub pull_threshold: u8,
    pub autopull: bool,
    pub shift_msb_first: bool,
    pub tx_only: bool,
}

/// The configuration for a strip on the given pin, driven from a system
/// clock of `clk_freq_hz`.
pub fn pio_settings(clk_freq_hz: u32, pin: u8) -> (s: PioSettings)
    ensures
        s.pin == pin,
        divisor_fp(s.divisor) == (clk_freq_hz as int) * 256 / (PIO_CLOCK_HZ as int),
        s.pull_threshold == PULL_THRESHOLD,
        s.autopull,
        s.shift_msb_first,
        s.tx_only,
{
    PioSettings {
        pin,
        divisor: clock_divisor(clk_freq_hz),
        pull_threshold: PULL_THRESHOLD,
        autopull: true,
        shift_msb_first: true,
        tx_only: true,
    }
}

} // verus!
