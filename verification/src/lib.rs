//! Drivers for the ATtiny85: a three-wire SPI master/slave on the USI
//! peripheral and a bit-banged WS2812B LED strip.
//!
//! The hardware itself (memory-mapped registers, cycle-timed pin toggles)
//! is reached by the caller; this crate holds the decisions: which register
//! values are written, in which order, and which bits go out on the wire.
use vstd::prelude::*;

pub mod spi;
pub mod ws2812b;

verus! {

} // verus!
