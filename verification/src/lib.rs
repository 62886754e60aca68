//! Verified decision logic of the RTICX distribution for RISC-V targets (a
//! generic SLIC, ESP32-C3 and ESP32-C6): feature selection, interrupt setup,
//! handler export names, task wrapping, dispatcher validation and the start-up
//! stack check. The code generation around these decisions lives in `app/`.
use vstd::prelude::*;

pub mod backend;
pub mod cpu_interrupts;
pub mod decimal;
pub mod dispatchers;
pub mod features;
pub mod stack;

verus! {

} // verus!
