//! LabWired: firmware-simulation building blocks with machine-checked contracts.
//!
//! * [`scanner`] — the nRF52840 OBD-II scanner firmware logic: request frames,
//!   Mode 01/03/04 decoders, ISO-TP VIN reassembly, the scanner state, the
//!   poll-cycle decisions, the BLE telemetry payload, the OLED status view and
//!   frame, and the MCP2515 driver's SPI transfers.
//! * [`bldc`] — the six-step BLDC controller's control-loop decisions.
//! * [`peripherals`] — simulated devices: the MCP2515 register shell, the
//!   IO-Link master, the ESP32-C3 BLE baseband window and access-point DNS,
//!   and the seeded noise sources.
//! * [`physics`] — the digital parts of the motor models.
//! * [`inspect`] and [`bus`] — side-effect-free register inspection and the
//!   join of found external devices to their declarations.
//! * [`debug_probe`] and [`validation`] — the debug probe's address syntax and
//!   model-validation tallies.
//! * [`bits`] — bit-field facts shared by the decoders.
use vstd::prelude::*;

pub mod bits;
pub mod bldc;
pub mod bus;
pub mod debug_probe;
pub mod pad_routes;
pub mod inspect;
pub mod jit;
pub mod peripherals;
pub mod physics;
pub mod scanner;
pub mod validation;

verus! {

} // verus!
