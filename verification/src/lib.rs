//! Driver core for WS2812 addressable-LED strips on a PIO co-processor.
//!
//! The library holds the verified logic: the color wire encoding, the
//! fixed-size pixel buffer and its traversal, the micro-program that the
//! co-processor executes (with its cycle-accounting law), the clock-divisor
//! and shift configuration, and the transmit state machine that decides,
//! from the FIFO's full/empty flags, when to write the next word and when
//! a transmission is complete.

pub mod assembler;
pub mod config;
pub mod ledstrip;
pub mod program;
pub mod transmit;
