//! Firmware core of a 16-probe USB logic analyzer.
//!
//! The crate verifies the three algorithmic parts of the device:
//! the SUMP/OLS byte-stream command decoder, the compiler that turns a
//! trigger specification into a program for the sampling coprocessor
//! (the RP2040 PIO, driven through the `pio` assembler crate), and the
//! acquisition engine that owns the capture buffer across arm/drain
//! cycles and reformats captured words for the wire.
//!
//! Transport and hardware bring-up (USB, DMA, clocks, pins) are outside
//! collaborators: callers hand in the bytes read from the transport and
//! the words captured by the hardware, and send back the bytes returned.

use vstd::prelude::*;

pub mod analyzer;
pub mod compiler;
pub mod pio_asm;
pub mod protocol;
pub mod sampler;
pub mod trigger;

verus! {

/// Number of digital input probes the device exposes.
pub const PROBES: u32 = 16;

/// Bytes of sample memory advertised to the host.
pub const SAMPLE_MEMORY: u32 = 200_000;

/// Sample rate in hertz advertised to the host.
pub const SAMPLE_RATE: u32 = 100_000_000;

/// Capture words held by the acquisition buffer; each 32-bit word packs
/// two consecutive 16-bit probe samples.
pub const BUFFER_WORDS: usize = 50_000;

} // verus!
