//! The decisions of the scanner's poll cycle: which live PID to ask for, and
//! how each answer (or its absence) changes the scanner state.
//!
//! The cycle itself (sending requests, waiting for frames, publishing the
//! state, driving the radio and display) runs around these in the firmware.
use vstd::prelude::*;

use super::flags::{CONNECTED, DTC_PRESENT, MALFORMED, RX_OVERFLOW, STALE, TIMEOUT};
use super::isotp::IsoTpEvent;
use super::obd2::{
    clear_dtcs_result, coolant_of, decode_clear_dtcs, decode_coolant, decode_dtcs, decode_rpm,
    decode_speed, dtc_payload_len, nonzero_raws, rpm_of, speed_of, CanFrame, Error,
};
use super::state::ScannerState;

verus! {

/// The error flags this cycle raises pass the error mask unchanged.
proof fn lemma_error_bits()
    by (bit_vector)
    ensures
        MALFORMED & 0x70u16 == MALFORMED,
        RX_OVERFLOW & 0x70u16 == RX_OVERFLOW,
{
}

/// The live PIDs, polled round-robin: engine speed, vehicle speed, coolant.
pub open spec fn live_pid_of(slot: u8) -> u8 {
    if slot == 0 {
        0x0c
    } else if slot == 1 {
        0x0d
    } else {
        0x05
    }
}

/// The PID polled in `slot` (0, 1 or 2).
pub fn live_pid(slot: u8) -> (r: u8)
    requires
        slot < 3,
    ensures
        r == live_pid_of(slot),
{
    let pids: [u8; 3] = [0x0c, 0x0d, 0x05];
    pids[slot as usize]
}

/// The slot after `slot`.
pub fn next_live_slot(slot: u8) -> (r: u8)
    requires
        slot < 3,
    ensures
        r == (slot + 1) % 3,
{
    (slot + 1) % 3
}

/// Whether PID `pid` is marked supported in the Mode 01 PID 00 bitmap
/// (PID `n` is bit `32 - n`); nothing is supported without a bitmap.
pub fn pid_supported(supported: Option<u32>, pid: u8) -> (r: bool)
    requires
        1 <= pid <= 32,
    ensures
        r == (match supported {
            Some(map) => (map >> (32 - pid) as u32) % 2 == 1,
            None => false,
        }),
{
    match supported {
        Some(map) => {
            let shift: u32 = (32 - pid) as u32;
            let bit = map & (1u32 << shift);
            assert((bit != 0) == ((map >> shift) % 2 == 1)) by (bit_vector)
                requires
                    shift < 32,
                    bit == map & (1u32 << shift),
            ;
            bit != 0
        },
        None => false,
    }
}

/// Applies the answer to a live-PID request: no answer times out; a decoded
/// value is stored and marks the state fresh; a refused frame raises
/// `MALFORMED` and changes nothing else.
pub fn apply_live_response(state: &mut ScannerState, pid: u8, response: Option<CanFrame>)
    requires
        pid == 0x0c || pid == 0x0d || pid == 0x05,
    ensures
        match response {
            None => *final(state) == (ScannerState {
                status_flags: (old(state).status_flags | (TIMEOUT | STALE)) & !CONNECTED,
                ..*old(state)
            }),
            Some(f) => {
                let ok = if pid == 0x0c {
                    rpm_of(f) is Ok
                } else if pid == 0x0d {
                    speed_of(f) is Ok
                } else {
                    coolant_of(f) is Ok
                };
                if ok {
                    &&& final(state).rpm == (if pid == 0x0c {
                        rpm_of(f)->Ok_0
                    } else {
                        old(state).rpm
                    })
                    &&& final(state).speed_kph == (if pid == 0x0d {
                        speed_of(f)->Ok_0
                    } else {
                        old(state).speed_kph
                    })
                    &&& final(state).coolant_c == (if pid == 0x05 {
                        coolant_of(f)->Ok_0
                    } else {
                        old(state).coolant_c
                    })
                    &&& final(state).status_flags == (old(state).status_flags | CONNECTED)
                        & !(STALE | TIMEOUT)
                    &&& final(state).sample_age == 0
                    &&& final(state).generation == old(state).generation.wrapping_add(1)
                    &&& final(state).dtc_count == old(state).dtc_count
                    &&& final(state).vin_valid == old(state).vin_valid
                    &&& final(state).vin == old(state).vin
                } else {
                    *final(state) == (ScannerState {
                        status_flags: old(state).status_flags | MALFORMED,
                        ..*old(state)
                    })
                }
            },
        },
{
    match response {
        None => state.mark_timeout(),
        Some(frame) => {
            let ok = if pid == 0x0c {
                match decode_rpm(&frame) {
                    Ok(v) => {
                        state.rpm = v;
                        true
                    },
                    Err(_) => false,
                }
            } else if pid == 0x0d {
                match decode_speed(&frame) {
                    Ok(v) => {
                        state.speed_kph = v;
                        true
                    },
                    Err(_) => false,
                }
            } else {
                match decode_coolant(&frame) {
                    Ok(v) => {
                        state.coolant_c = v;
                        true
                    },
                    Err(_) => false,
                }
            };
            if ok {
                state.mark_fresh();
            } else {
                state.set_error(MALFORMED);
                proof {
                    lemma_error_bits();
                }
            }
        },
    }
}

/// When a request could not be made because the ECU never reported its
/// supported PIDs, the cycle counts as a timeout; an unsupported PID with a
/// known bitmap changes nothing.
pub fn apply_unpolled(state: &mut ScannerState, supported: Option<u32>)
    ensures
        supported is None ==> *final(state) == (ScannerState {
            status_flags: (old(state).status_flags | (TIMEOUT | STALE)) & !CONNECTED,
            ..*old(state)
        }),
        supported is Some ==> *final(state) == *old(state),
{
    if supported.is_none() {
        state.mark_timeout();
    }
}

/// Applies the answer to the Mode 03 request: the DTC count on success,
/// `MALFORMED` on a refused frame, nothing without an answer.
pub fn apply_dtc_response(state: &mut ScannerState, response: Option<CanFrame>)
    ensures
        response is None ==> *final(state) == *old(state),
        response matches Some(f) ==> match dtc_payload_len(f) {
            Err(_) => *final(state) == (ScannerState {
                status_flags: old(state).status_flags | MALFORMED,
                ..*old(state)
            }),
            Ok(pl) => {
                let n = nonzero_raws(f, (pl - 1) / 2).len();
                *final(state) == (ScannerState {
                    dtc_count: n as u8,
                    status_flags: if n == 0 {
                        old(state).status_flags & !DTC_PRESENT
                    } else {
                        old(state).status_flags | DTC_PRESENT
                    },
                    ..*old(state)
                })
            },
        },
{
    if let Some(frame) = response {
        match decode_dtcs(&frame) {
            Ok(dtcs) => state.update_dtc_count(dtcs.count),
            Err(_) => {
                state.set_error(MALFORMED);
                proof {
                    lemma_error_bits();
                }
            },
        }
    }
}

/// Outcome code of a Mode 04 (clear DTCs) request: 2 for a positive answer,
/// 3 for no answer or a refused frame.
pub fn clear_dtc_outcome(response: Option<CanFrame>) -> (r: u8)
    ensures
        r == (match response {
            Some(f) => if clear_dtcs_result(f) is Ok {
                2u8
            } else {
                3u8
            },
            None => 3u8,
        }),
{
    match response {
        Some(frame) => match decode_clear_dtcs(&frame) {
            Ok(()) => 2,
            Err(_) => 3,
        },
        None => 3,
    }
}

/// What the VIN retrieval does after pushing one received frame.
#[derive(Clone, Copy, Debug, PartialEq, Eq)]
pub enum VinStep {
    /// Send this flow-control frame and keep receiving.
    SendFlowControl(CanFrame),
    /// Keep receiving.
    Wait,
    /// Retrieval is over.
    Done,
}

/// Applies the reassembler's verdict on one frame: a complete VIN is stored,
/// a refusal raises `MALFORMED`; both end the retrieval.
pub fn apply_vin_event(state: &mut ScannerState, event: Result<IsoTpEvent, Error>) -> (r: VinStep)
    ensures
        match event {
            Ok(IsoTpEvent::FlowControl(fc)) => r == VinStep::SendFlowControl(fc) && *final(state)
                == *old(state),
            Ok(IsoTpEvent::Pending) => r == VinStep::Wait && *final(state) == *old(state),
            Ok(IsoTpEvent::Complete(vin)) => r == VinStep::Done && *final(state) == (ScannerState {
                vin,
                vin_valid: true,
                ..*old(state)
            }),
            Err(_) => r == VinStep::Done && *final(state) == (ScannerState {
                status_flags: old(state).status_flags | MALFORMED,
                ..*old(state)
            }),
        },
{
    match event {
        Ok(IsoTpEvent::FlowControl(fc)) => VinStep::SendFlowControl(fc),
        Ok(IsoTpEvent::Pending) => VinStep::Wait,
        Ok(IsoTpEvent::Complete(vin)) => {
            state.set_vin(vin);
            VinStep::Done
        },
        Err(_) => {
            state.set_error(MALFORMED);
            proof {
                lemma_error_bits();
            }
            VinStep::Done
        },
    }
}

/// Applies the controller's `EFLG` value: either receive-overflow bit raises
/// `RX_OVERFLOW`; the result says whether the overflow must be cleared.
pub fn apply_overflow_check(state: &mut ScannerState, eflg: u8) -> (r: bool)
    ensures
        r == (eflg >= 0x40),
        r ==> *final(state) == (ScannerState {
            status_flags: old(state).status_flags | RX_OVERFLOW,
            ..*old(state)
        }),
        !r ==> *final(state) == *old(state),
{
    let bits = eflg & 0xc0;
    assert((bits != 0) == (eflg >= 0x40)) by (bit_vector)
        requires
            bits == eflg & 0xc0,
    ;
    if bits != 0 {
        state.set_error(RX_OVERFLOW);
        proof {
            lemma_error_bits();
        }
        true
    } else {
        false
    }
}

} // verus!
