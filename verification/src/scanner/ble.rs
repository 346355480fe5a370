//! The fixed BLE telemetry payload and the raw radio packet that carries it
//! (a BLE-1M-shaped raw packet, not a standards-compliant advertising PDU).
use vstd::prelude::*;

use super::flags::{
    CAN_CONFIG_ERROR, CONNECTED, DTC_PRESENT, MALFORMED, RX_OVERFLOW, STALE, TIMEOUT,
};
use super::state::ScannerState;

verus! {

/// Payload length in bytes.
pub const PAYLOAD_LEN: usize = 9;

/// Payload layout version.
pub const VERSION: u8 = 1;

/// Every meaningful state flag, with identical on-wire bits.
pub const WIRE_FLAGS: u16 = CONNECTED | STALE | DTC_PRESENT | TIMEOUT | MALFORMED | RX_OVERFLOW
    | CAN_CONFIG_ERROR;

/// First byte of the raw radio packet (the S0 field).
pub const PACKET_HEADER: u8 = 0xab;

/// Coolant temperature on the wire: offset by 40 and clamped to `0..=255`.
pub open spec fn coolant_wire(coolant_c: i16) -> u8 {
    if coolant_c + 40 < 0 {
        0
    } else if coolant_c + 40 > 255 {
        255
    } else {
        (coolant_c + 40) as u8
    }
}

/// The payload of `s`: version, flags, RPM (little-endian), speed, coolant
/// plus 40, DTC count, and the low 16 bits of the generation (little-endian).
pub open spec fn payload_of(s: ScannerState) -> Seq<u8> {
    seq![
        VERSION,
        (s.status_flags & WIRE_FLAGS) as u8,
        (s.rpm % 256) as u8,
        (s.rpm / 256) as u8,
        s.speed_kph,
        coolant_wire(s.coolant_c),
        s.dtc_count,
        (s.generation % 256) as u8,
        ((s.generation / 256) % 256) as u8,
    ]
}

/// The payload decodes back to the state: byte 0 is the version, RPM is
/// bytes 2 and 3 little-endian, speed byte 4, coolant byte 5 minus 40 while
/// it is within `-40..=215` °C, DTC count byte 6, and bytes 7 and 8 are the
/// generation modulo 65536, little-endian.
pub proof fn lemma_payload_decodes(s: ScannerState)
    ensures
        payload_of(s).len() == 9,
        payload_of(s)[0] == VERSION,
        payload_of(s)[2] + 256 * payload_of(s)[3] == s.rpm,
        payload_of(s)[4] == s.speed_kph,
        -40 <= s.coolant_c <= 215 ==> payload_of(s)[5] - 40 == s.coolant_c,
        s.coolant_c < -40 ==> payload_of(s)[5] == 0,
        s.coolant_c > 215 ==> payload_of(s)[5] == 255,
        payload_of(s)[6] == s.dtc_count,
        payload_of(s)[7] + 256 * payload_of(s)[8] == s.generation % 65536,
{
}

/// Encodes the telemetry payload. Coolant values below -40 C encode as 0 and
/// above 215 C as 255.
pub fn encode_manufacturer_payload(state: &ScannerState) -> (r: [u8; PAYLOAD_LEN])
    ensures
        r@ == payload_of(*state),
        r@[5] == 0 <==> state.coolant_c <= -40,
        r@[5] == 255 <==> state.coolant_c >= 215,
{
    let shifted: i32 = state.coolant_c as i32 + 40;
    let coolant: u8 = if shifted < 0 {
        0
    } else if shifted > 255 {
        255
    } else {
        shifted as u8
    };
    let generation: u16 = (state.generation % 65536) as u16;
    let r = [
        VERSION,
        (state.status_flags & WIRE_FLAGS) as u8,
        (state.rpm % 256) as u8,
        (state.rpm / 256) as u8,
        state.speed_kph,
        coolant,
        state.dtc_count,
        (generation % 256) as u8,
        (generation / 256) as u8,
    ];
    assert(r@ =~= payload_of(*state));
    r
}

/// The raw radio packet: header, payload length, payload.
pub struct Radio {
    packet: [u8; 11],
}

impl Radio {
    /// The packet bytes the radio transmits.
    pub closed spec fn packet_view(&self) -> Seq<u8> {
        self.packet@
    }

    /// An all-zero packet buffer.
    pub fn new() -> (r: Self)
        ensures
            r.packet_view() == Seq::new(11, |i: int| 0u8),
    {
        let r = Self { packet: [0; 11] };
        assert(r.packet_view() =~= Seq::new(11, |i: int| 0u8));
        r
    }

    /// Writes the packet header: S0 and the payload length.
    pub fn prepare(&mut self)
        ensures
            final(self).packet_view() == seq![PACKET_HEADER, PAYLOAD_LEN as u8] + old(
                self,
            ).packet_view().subrange(2, 11),
    {
        self.packet[0] = PACKET_HEADER;
        self.packet[1] = PAYLOAD_LEN as u8;
        assert(self.packet_view() =~= seq![PACKET_HEADER, PAYLOAD_LEN as u8] + old(
            self,
        ).packet_view().subrange(2, 11));
    }

    /// Copies the payload behind the header.
    pub fn load_payload(&mut self, payload: &[u8; PAYLOAD_LEN])
        ensures
            final(self).packet_view() == old(self).packet_view().subrange(0, 2) + payload@,
    {
        let mut i: usize = 0;
        while i < PAYLOAD_LEN
            invariant
                0 <= i <= PAYLOAD_LEN,
                self.packet@ == old(self).packet_view().subrange(0, 2) + payload@.subrange(
                    0,
                    i as int,
                ) + old(self).packet_view().subrange(2 + i, 11),
            decreases PAYLOAD_LEN - i,
        {
            self.packet[2 + i] = payload[i];
            assert(self.packet@ =~= old(self).packet_view().subrange(0, 2) + payload@.subrange(
                0,
                i + 1,
            ) + old(self).packet_view().subrange(2 + i + 1, 11));
            i = i + 1;
        }
        assert(self.packet_view() =~= old(self).packet_view().subrange(0, 2) + payload@);
    }

    /// The packet to hand to the radio's DMA.
    pub fn packet(&self) -> (r: [u8; 11])
        ensures
            r@ == self.packet_view(),
    {
        self.packet
    }
}

} // verus!
