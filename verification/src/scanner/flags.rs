//! Bits of [`super::state::ScannerState::status_flags`]; they double as the
//! on-wire flag bits of the BLE telemetry payload.
use vstd::prelude::*;

verus! {

/// The last live-data request was answered.
pub const CONNECTED: u16 = 0x01;

/// The displayed values are not from the latest request.
pub const STALE: u16 = 0x02;

/// At least one stored trouble code was reported.
pub const DTC_PRESENT: u16 = 0x04;

/// The last live-data request went unanswered.
pub const TIMEOUT: u16 = 0x08;

/// A response was refused by a decoder.
pub const MALFORMED: u16 = 0x10;

/// The CAN controller reported a receive-buffer overflow.
pub const RX_OVERFLOW: u16 = 0x20;

/// A peripheral failed to initialise.
pub const CAN_CONFIG_ERROR: u16 = 0x40;

/// The error bits that [`super::state::ScannerState::set_error`] may raise.
pub const ERROR_MASK: u16 = 0x70;

} // verus!
