//! The scanner's published telemetry state and its status-flag transitions.
use vstd::prelude::*;

use super::flags::{CONNECTED, DTC_PRESENT, ERROR_MASK, STALE, TIMEOUT};

verus! {

/// Latest decoded vehicle data plus link status.
#[derive(Clone, Copy, Debug, PartialEq, Eq)]
pub struct ScannerState {
    pub rpm: u16,
    pub speed_kph: u8,
    pub coolant_c: i16,
    pub dtc_count: u8,
    pub status_flags: u16,
    pub generation: u32,
    pub sample_age: u16,
    pub vin_valid: bool,
    pub vin: [u8; 17],
}

/// `status_flags` has a bit of `mask` set.
pub open spec fn has_flag(flags: u16, mask: u16) -> bool {
    flags & mask != 0
}

impl Default for ScannerState {
    /// The power-on state, as [`ScannerState::new`].
    fn default() -> (s: Self)
        ensures
            s.rpm == 0,
            s.speed_kph == 0,
            s.coolant_c == 0,
            s.dtc_count == 0,
            s.status_flags == STALE,
            s.generation == 0,
            s.sample_age == 0,
            !s.vin_valid,
            s.vin@ == Seq::new(17, |i: int| 0u8),
    {
        Self::new()
    }
}

impl ScannerState {
    /// Power-on state: everything zero, marked stale, no VIN.
    pub fn new() -> (s: Self)
        ensures
            s.rpm == 0,
            s.speed_kph == 0,
            s.coolant_c == 0,
            s.dtc_count == 0,
            s.status_flags == STALE,
            s.generation == 0,
            s.sample_age == 0,
            !s.vin_valid,
            s.vin@ == Seq::new(17, |i: int| 0u8),
    {
        let s = Self {
            rpm: 0,
            speed_kph: 0,
            coolant_c: 0,
            dtc_count: 0,
            status_flags: STALE,
            generation: 0,
            sample_age: 0,
            vin_valid: false,
            vin: [0; 17],
        };
        assert(s.vin@ =~= Seq::new(17, |i: int| 0u8));
        s
    }

    /// Whether any bit of `mask` is set.
    pub fn has(&self, mask: u16) -> (r: bool)
        ensures
            r == has_flag(self.status_flags, mask),
    {
        self.status_flags & mask != 0
    }

    /// A live value was just decoded: connected, not stale, no timeout, age 0,
    /// one more generation (wrapping).
    pub fn mark_fresh(&mut self)
        ensures
            *final(self) == (ScannerState {
                status_flags: (old(self).status_flags | CONNECTED) & !(STALE | TIMEOUT),
                sample_age: 0,
                generation: old(self).generation.wrapping_add(1),
                ..*old(self)
            }),
            has_flag(final(self).status_flags, CONNECTED),
            !has_flag(final(self).status_flags, STALE | TIMEOUT),
    {
        let f = self.status_flags;
        assert(((f | 1) & !(2u16 | 8)) & 1 != 0) by (bit_vector);
        assert(((f | 1) & !(2u16 | 8)) & (2u16 | 8) == 0) by (bit_vector);
        self.status_flags |= CONNECTED;
        self.status_flags &= !(STALE | TIMEOUT);
        self.sample_age = 0;
        self.generation = self.generation.wrapping_add(1);
    }

    /// A request went unanswered: timed out and stale, no longer connected.
    /// The last decoded values are kept.
    pub fn mark_timeout(&mut self)
        ensures
            *final(self) == (ScannerState {
                status_flags: (old(self).status_flags | (TIMEOUT | STALE)) & !CONNECTED,
                ..*old(self)
            }),
            has_flag(final(self).status_flags, TIMEOUT),
            has_flag(final(self).status_flags, STALE),
            !has_flag(final(self).status_flags, CONNECTED),
    {
        let f = self.status_flags;
        assert(((f | (8u16 | 2)) & !1u16) & 8 != 0) by (bit_vector);
        assert(((f | (8u16 | 2)) & !1u16) & 2 != 0) by (bit_vector);
        assert(((f | (8u16 | 2)) & !1u16) & 1 == 0) by (bit_vector);
        self.status_flags |= TIMEOUT | STALE;
        self.status_flags &= !CONNECTED;
    }

    /// One more poll cycle since the last fresh sample (saturating).
    pub fn increment_age(&mut self)
        ensures
            *final(self) == (ScannerState {
                sample_age: old(self).sample_age.saturating_add(1),
                ..*old(self)
            }),
    {
        self.sample_age = self.sample_age.saturating_add(1);
    }

    /// Records the number of stored trouble codes; `DTC_PRESENT` is set exactly
    /// when it is non-zero, and no other flag changes.
    pub fn update_dtc_count(&mut self, count: u8)
        ensures
            *final(self) == (ScannerState {
                dtc_count: count,
                status_flags: if count == 0 {
                    old(self).status_flags & !DTC_PRESENT
                } else {
                    old(self).status_flags | DTC_PRESENT
                },
                ..*old(self)
            }),
            has_flag(final(self).status_flags, DTC_PRESENT) == (count != 0),
    {
        let f = self.status_flags;
        assert((f & !4u16) & 4 == 0) by (bit_vector);
        assert((f | 4u16) & 4 != 0) by (bit_vector);
        self.dtc_count = count;
        if count == 0 {
            self.status_flags &= !DTC_PRESENT;
        } else {
            self.status_flags |= DTC_PRESENT;
        }
    }

    /// Stores a complete VIN and marks it valid.
    pub fn set_vin(&mut self, vin: [u8; 17])
        ensures
            *final(self) == (ScannerState { vin, vin_valid: true, ..*old(self) }),
    {
        self.vin = vin;
        self.vin_valid = true;
    }

    /// Forgets the VIN: all zero and not valid.
    pub fn invalidate_vin(&mut self)
        ensures
            final(self).vin@ == Seq::new(17, |i: int| 0u8),
            *final(self) == (ScannerState { vin: final(self).vin, vin_valid: false, ..*old(self) }),
    {
        self.vin = [0; 17];
        self.vin_valid = false;
        assert(self.vin@ =~= Seq::new(17, |i: int| 0u8));
    }

    /// Raises the error bits of `error_flag` that are error flags
    /// (`MALFORMED`, `RX_OVERFLOW`, `CAN_CONFIG_ERROR`); other bits are ignored
    /// and no bit is ever cleared.
    pub fn set_error(&mut self, error_flag: u16)
        ensures
            *final(self) == (ScannerState {
                status_flags: old(self).status_flags | (error_flag & ERROR_MASK),
                ..*old(self)
            }),
            final(self).status_flags & old(self).status_flags == old(self).status_flags,
            final(self).status_flags & !ERROR_MASK == old(
                self,
            ).status_flags & !ERROR_MASK,
    {
        let f = self.status_flags;
        let e = error_flag;
        assert((f | (e & 0x70u16)) & f == f) by (bit_vector);
        assert((f | (e & 0x70u16)) & !0x70u16 == f & !0x70u16) by (bit_vector);
        self.status_flags |= error_flag & ERROR_MASK;
    }
}

} // verus!
