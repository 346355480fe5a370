//! OBD-II (SAE J1979) request frames and single-frame response decoders.
use vstd::prelude::*;

verus! {

/// Functional (broadcast) request identifier.
pub const REQUEST_ID: u16 = 0x7df;

/// Identifier the tester answers an ECU's first frame on.
pub const FLOW_CONTROL_ID: u16 = 0x7e0;

/// Identifier of the engine ECU's responses.
pub const RESPONSE_ID: u16 = 0x7e8;

/// One classic CAN frame with an 11-bit identifier.
#[derive(Clone, Copy, Debug, PartialEq, Eq)]
pub struct CanFrame {
    pub id: u16,
    pub len: u8,
    pub data: [u8; 8],
}

/// Why a response frame was refused.
#[derive(Clone, Copy, Debug, PartialEq, Eq)]
pub enum Error {
    InvalidLength,
    WrongId,
    Malformed,
    ShortPayload,
    NegativeResponse { service: u8, nrc: u8 },
    UnsupportedService,
    UnsupportedPid,
    Sequence,
    UnexpectedFrame,
    Oversize,
    Incomplete,
}

/// `frame` is a functional request whose eight data bytes are `data`.
pub open spec fn is_request(frame: CanFrame, data: Seq<u8>) -> bool {
    &&& frame.id == REQUEST_ID
    &&& frame.len == 8
    &&& frame.data@ == data
}

fn request(data: [u8; 8]) -> (frame: CanFrame)
    ensures
        is_request(frame, data@),
{
    CanFrame { id: REQUEST_ID, len: 8, data }
}

/// Mode 01 request for one PID.
pub fn mode01_request(pid: u8) -> (frame: CanFrame)
    ensures
        is_request(frame, seq![2u8, 1, pid, 0, 0, 0, 0, 0]),
{
    let f = request([2, 1, pid, 0, 0, 0, 0, 0]);
    assert(f.data@ =~= seq![2u8, 1, pid, 0, 0, 0, 0, 0]);
    f
}

/// Mode 03 (read stored DTCs) request.
pub fn read_dtcs_request() -> (frame: CanFrame)
    ensures
        is_request(frame, seq![1u8, 3, 0, 0, 0, 0, 0, 0]),
{
    let f = request([1, 3, 0, 0, 0, 0, 0, 0]);
    assert(f.data@ =~= seq![1u8, 3, 0, 0, 0, 0, 0, 0]);
    f
}

/// Mode 04 (clear DTCs) request.
pub fn clear_dtcs_request() -> (frame: CanFrame)
    ensures
        is_request(frame, seq![1u8, 4, 0, 0, 0, 0, 0, 0]),
{
    let f = request([1, 4, 0, 0, 0, 0, 0, 0]);
    assert(f.data@ =~= seq![1u8, 4, 0, 0, 0, 0, 0, 0]);
    f
}

/// Mode 09 PID 02 (VIN) request.
pub fn vin_request() -> (frame: CanFrame)
    ensures
        is_request(frame, seq![2u8, 9, 2, 0, 0, 0, 0, 0]),
{
    let f = request([2, 9, 2, 0, 0, 0, 0, 0]);
    assert(f.data@ =~= seq![2u8, 9, 2, 0, 0, 0, 0, 0]);
    f
}

/// Byte `i` of a frame's data field.
pub open spec fn byte(f: CanFrame, i: int) -> u8 {
    f.data@[i]
}

/// Payload length of an ISO-TP single frame from the engine ECU, or why the
/// frame is not one. Payload byte `k` is data byte `k + 1`.
pub open spec fn single_frame_len(f: CanFrame) -> Result<u8, Error> {
    if f.len > 8 {
        Err(Error::InvalidLength)
    } else if f.id != RESPONSE_ID {
        Err(Error::WrongId)
    } else if f.len == 0 || byte(f, 0) & 0xf0 != 0 {
        Err(Error::Malformed)
    } else if byte(f, 0) & 0x0f == 0 || (byte(f, 0) & 0x0f) + 1 > f.len {
        Err(Error::ShortPayload)
    } else {
        Ok(byte(f, 0) & 0x0f)
    }
}

/// A payload of length `pl` that starts with the negative-response service id
/// `0x7f` is refused; otherwise it passes.
pub open spec fn negative_check(f: CanFrame, pl: u8, service: u8) -> Result<(), Error> {
    if byte(f, 1) == 0x7f {
        if pl < 3 {
            Err(Error::ShortPayload)
        } else if byte(f, 2) != service {
            Err(Error::UnsupportedService)
        } else {
            Err(Error::NegativeResponse { service, nrc: byte(f, 3) })
        }
    } else {
        Ok(())
    }
}

/// Positive-response service id of `service` (`service + 0x40`, wrapping).
pub open spec fn positive_service(service: u8) -> u8 {
    ((service + 0x40) % 256) as u8
}

/// Payload length of a positive `service`/`pid` response whose payload must
/// hold exactly `needed` bytes, or why the frame is refused.
pub open spec fn pid_payload_len(f: CanFrame, service: u8, pid: u8, needed: u8) -> Result<u8, Error> {
    match single_frame_len(f) {
        Err(e) => Err(e),
        Ok(pl) => match negative_check(f, pl, service) {
            Err(e) => Err(e),
            Ok(_) => if byte(f, 1) != positive_service(service) {
                Err(Error::UnsupportedService)
            } else if pl < 2 {
                Err(Error::ShortPayload)
            } else if byte(f, 2) != pid {
                Err(Error::UnsupportedPid)
            } else if pl < needed {
                Err(Error::ShortPayload)
            } else if pl > needed {
                Err(Error::InvalidLength)
            } else {
                Ok(pl)
            },
        },
    }
}

fn single_frame_payload(frame: &CanFrame) -> (r: Result<u8, Error>)
    ensures
        r == single_frame_len(*frame),
        r matches Ok(pl) ==> 1 <= pl <= 7,
{
    if frame.len > 8 {
        return Err(Error::InvalidLength);
    }
    if frame.id != RESPONSE_ID {
        return Err(Error::WrongId);
    }
    if frame.len == 0 || frame.data[0] & 0xf0 != 0 {
        return Err(Error::Malformed);
    }
    let payload_len = frame.data[0] & 0x0f;
    proof {
        crate::bits::lemma_u8_nibbles(frame.data[0]);
    }
    if payload_len == 0 || payload_len + 1 > frame.len {
        return Err(Error::ShortPayload);
    }
    Ok(payload_len)
}

fn check_negative(frame: &CanFrame, payload_len: u8, requested_service: u8) -> (r: Result<(), Error>)
    requires
        1 <= payload_len <= 7,
    ensures
        r == negative_check(*frame, payload_len, requested_service),
{
    if frame.data[1] == 0x7f {
        if payload_len < 3 {
            return Err(Error::ShortPayload);
        }
        if frame.data[2] != requested_service {
            return Err(Error::UnsupportedService);
        }
        return Err(Error::NegativeResponse { service: requested_service, nrc: frame.data[3] });
    }
    Ok(())
}

fn positive_pid_payload(frame: &CanFrame, service: u8, pid: u8, needed: u8) -> (r: Result<
    u8,
    Error,
>)
    requires
        2 <= needed <= 7,
    ensures
        r == pid_payload_len(*frame, service, pid, needed),
        r matches Ok(pl) ==> pl == needed,
{
    let payload_len = match single_frame_payload(frame) {
        Ok(n) => n,
        Err(e) => return Err(e),
    };
    match check_negative(frame, payload_len, service) {
        Ok(()) => {},
        Err(e) => return Err(e),
    }
    if frame.data[1] != service.wrapping_add(0x40) {
        return Err(Error::UnsupportedService);
    }
    if payload_len < 2 {
        return Err(Error::ShortPayload);
    }
    if frame.data[2] != pid {
        return Err(Error::UnsupportedPid);
    }
    if payload_len < needed {
        return Err(Error::ShortPayload);
    }
    if payload_len > needed {
        return Err(Error::InvalidLength);
    }
    Ok(payload_len)
}

/// Keeps the error of `r`, or replaces its success value by `v`.
pub open spec fn with_value<T, U>(r: Result<T, Error>, v: U) -> Result<U, Error> {
    match r {
        Ok(_) => Ok(v),
        Err(e) => Err(e),
    }
}

/// Big-endian value of four bytes.
pub open spec fn be_u32(b0: u8, b1: u8, b2: u8, b3: u8) -> int {
    b0 * 0x100_0000 + b1 * 0x1_0000 + b2 * 0x100 + b3
}

/// The Mode 01 PID 00 bitmap carried by `f`.
pub open spec fn supported_pids_of(f: CanFrame) -> Result<u32, Error> {
    with_value(
        pid_payload_len(f, 1, 0, 6),
        be_u32(byte(f, 3), byte(f, 4), byte(f, 5), byte(f, 6)) as u32,
    )
}

/// Engine speed (rpm) carried by a PID 0C response: `(256 A + B) / 4`.
pub open spec fn rpm_of(f: CanFrame) -> Result<u16, Error> {
    with_value(pid_payload_len(f, 1, 0x0c, 4), ((byte(f, 3) * 256 + byte(f, 4)) / 4) as u16)
}

/// Vehicle speed (km/h) carried by a PID 0D response.
pub open spec fn speed_of(f: CanFrame) -> Result<u8, Error> {
    with_value(pid_payload_len(f, 1, 0x0d, 3), byte(f, 3))
}

/// Coolant temperature (°C) carried by a PID 05 response: `A - 40`.
pub open spec fn coolant_of(f: CanFrame) -> Result<i16, Error> {
    with_value(pid_payload_len(f, 1, 5, 3), (byte(f, 3) - 40) as i16)
}

/// Mode 01 responses from the engine ECU (`0x7E8`, a single frame of `N`
/// payload bytes, service `0x41`, then the PID and its data bytes `A B C D`):
/// PID `0C` is `(256 A + B) / 4` rpm, PID `0D` is `A` km/h, PID `05` is
/// `A - 40` °C, and PID `00` is the bitmap `A B C D` big-endian; a negative
/// response `7F 01 nrc` is refused with its code, and a frame from any other
/// identifier is refused as the wrong sender.
pub proof fn lemma_mode01_decoding(f: CanFrame)
    requires
        f.len == 8,
    ensures
        f.id == 0x7e8 && f.data@[0] == 4 && f.data@[1] == 0x41 && f.data@[2] == 0x0c ==> rpm_of(f)
            == Ok::<u16, Error>(((f.data@[3] as int * 256 + f.data@[4] as int) / 4) as u16),
        f.id == 0x7e8 && f.data@[0] == 3 && f.data@[1] == 0x41 && f.data@[2] == 0x0d ==> speed_of(f)
            == Ok::<u8, Error>(f.data@[3]),
        f.id == 0x7e8 && f.data@[0] == 3 && f.data@[1] == 0x41 && f.data@[2] == 0x05 ==> coolant_of(
            f,
        ) == Ok::<i16, Error>((f.data@[3] as int - 40) as i16),
        f.id == 0x7e8 && f.data@[0] == 6 && f.data@[1] == 0x41 && f.data@[2] == 0x00
            ==> supported_pids_of(f) == Ok::<u32, Error>(
            (f.data@[3] as int * 0x100_0000 + f.data@[4] as int * 0x1_0000 + f.data@[5] as int * 0x100
                + f.data@[6] as int) as u32,
        ),
        f.id == 0x7e8 && f.data@[0] == 3 && f.data@[1] == 0x7f && f.data@[2] == 0x01 ==> rpm_of(f)
            == Err::<u16, Error>(Error::NegativeResponse { service: 1, nrc: f.data@[3] }),
        f.id != 0x7e8 ==> rpm_of(f) == Err::<u16, Error>(Error::WrongId) && speed_of(f) == Err::<
            u8,
            Error,
        >(Error::WrongId),
{
    assert(4u8 & 0xf0 == 0 && 4u8 & 0x0f == 4 && 3u8 & 0xf0 == 0 && 3u8 & 0x0f == 3 && 6u8 & 0xf0 == 0
        && 6u8 & 0x0f == 6) by (bit_vector);
}

/// Decodes the Mode 01 PID 00 supported-PID bitmap (PID `n` is bit `32 - n`).
pub fn decode_supported_pids(frame: &CanFrame) -> (r: Result<u32, Error>)
    ensures
        r == supported_pids_of(*frame),
{
    match positive_pid_payload(frame, 1, 0, 6) {
        Ok(_) => {
            let v = (frame.data[3] as u32) * 0x100_0000 + (frame.data[4] as u32) * 0x1_0000
                + (frame.data[5] as u32) * 0x100 + (frame.data[6] as u32);
            Ok(v)
        },
        Err(e) => Err(e),
    }
}

/// Decodes engine speed from a Mode 01 PID 0C response.
pub fn decode_rpm(frame: &CanFrame) -> (r: Result<u16, Error>)
    ensures
        r == rpm_of(*frame),
{
    match positive_pid_payload(frame, 1, 0x0c, 4) {
        Ok(_) => Ok(((frame.data[3] as u16) * 256 + (frame.data[4] as u16)) / 4),
        Err(e) => Err(e),
    }
}

/// Decodes vehicle speed from a Mode 01 PID 0D response.
pub fn decode_speed(frame: &CanFrame) -> (r: Result<u8, Error>)
    ensures
        r == speed_of(*frame),
{
    match positive_pid_payload(frame, 1, 0x0d, 3) {
        Ok(_) => Ok(frame.data[3]),
        Err(e) => Err(e),
    }
}

/// Decodes coolant temperature from a Mode 01 PID 05 response.
pub fn decode_coolant(frame: &CanFrame) -> (r: Result<i16, Error>)
    ensures
        r == coolant_of(*frame),
{
    match positive_pid_payload(frame, 1, 5, 3) {
        Ok(_) => Ok((frame.data[3] as i16) - 40),
        Err(e) => Err(e),
    }
}

/// The system a trouble code belongs to (first letter of its ASCII form).
#[derive(Clone, Copy, Debug, PartialEq, Eq)]
pub enum DtcSystem {
    Powertrain,
    Chassis,
    Body,
    Network,
}

/// One diagnostic trouble code: a system and four digits.
#[derive(Clone, Copy, Debug, PartialEq, Eq)]
pub struct Dtc {
    pub system: DtcSystem,
    pub digits: [u8; 4],
}

/// ASCII letter of a system: `P`, `C`, `B` or `U`.
pub open spec fn system_letter(s: DtcSystem) -> u8 {
    match s {
        DtcSystem::Powertrain => 0x50,
        DtcSystem::Chassis => 0x43,
        DtcSystem::Body => 0x42,
        DtcSystem::Network => 0x55,
    }
}

/// System encoded in the top two bits of a raw SAE J2012 code.
pub open spec fn system_of_raw(raw: u16) -> DtcSystem {
    if raw / 0x4000 == 0 {
        DtcSystem::Powertrain
    } else if raw / 0x4000 == 1 {
        DtcSystem::Chassis
    } else if raw / 0x4000 == 2 {
        DtcSystem::Body
    } else {
        DtcSystem::Network
    }
}

/// The four digits of a raw code: two bits, then three nibbles.
pub open spec fn digits_of_raw(raw: u16) -> Seq<u8> {
    seq![
        ((raw / 0x1000) % 4) as u8,
        ((raw / 0x100) % 16) as u8,
        ((raw / 0x10) % 16) as u8,
        (raw % 16) as u8,
    ]
}

/// `d` is the trouble code that the raw two-byte value `raw` encodes.
pub open spec fn is_dtc_of(d: Dtc, raw: u16) -> bool {
    d.system == system_of_raw(raw) && d.digits@ == digits_of_raw(raw)
}

/// `d` is the padding entry of a [`DtcList`] (`P0000`).
pub open spec fn is_empty_dtc(d: Dtc) -> bool {
    d.system == DtcSystem::Powertrain && d.digits@ == seq![0u8, 0, 0, 0]
}

impl Dtc {
    /// The five-character ASCII form, such as `P0133`.
    pub fn ascii(self) -> (r: [u8; 5])
        requires
            forall|i: int| 0 <= i < 4 ==> self.digits@[i] <= 0xff - 0x30,
        ensures
            r@ == seq![
                system_letter(self.system),
                (0x30 + self.digits@[0]) as u8,
                (0x30 + self.digits@[1]) as u8,
                (0x30 + self.digits@[2]) as u8,
                (0x30 + self.digits@[3]) as u8,
            ],
    {
        let system = match self.system {
            DtcSystem::Powertrain => 0x50u8,
            DtcSystem::Chassis => 0x43u8,
            DtcSystem::Body => 0x42u8,
            DtcSystem::Network => 0x55u8,
        };
        let r = [
            system,
            0x30u8 + self.digits[0],
            0x30u8 + self.digits[1],
            0x30u8 + self.digits[2],
            0x30u8 + self.digits[3],
        ];
        assert(r@ =~= seq![
            system_letter(self.system),
            (0x30 + self.digits@[0]) as u8,
            (0x30 + self.digits@[1]) as u8,
            (0x30 + self.digits@[2]) as u8,
            (0x30 + self.digits@[3]) as u8,
        ]);
        r
    }

    fn from_raw(raw: u16) -> (d: Dtc)
        ensures
            is_dtc_of(d, raw),
            forall|i: int| 0 <= i < 4 ==> d.digits@[i] <= 15,
    {
        proof {
            crate::bits::lemma_u16_dtc_fields(raw);
        }
        let top = raw >> 14;
        let system = if top == 0 {
            DtcSystem::Powertrain
        } else if top == 1 {
            DtcSystem::Chassis
        } else if top == 2 {
            DtcSystem::Body
        } else {
            DtcSystem::Network
        };
        let digits = [
            ((raw >> 12) & 3) as u8,
            ((raw >> 8) & 0x0f) as u8,
            ((raw >> 4) & 0x0f) as u8,
            (raw & 0x0f) as u8,
        ];
        assert(digits@ =~= digits_of_raw(raw));
        Dtc { system, digits }
    }
}

/// SAE J2012: a raw two-byte code decodes to the letter `P`, `C`, `B` or `U`
/// chosen by its top two bits (00 powertrain, 01 chassis, 10 body, 11
/// network), and its four digits give the raw value back: two bits, then
/// three nibbles.
pub proof fn lemma_dtc_decodes_raw(d: Dtc, raw: u16)
    requires
        is_dtc_of(d, raw),
    ensures
        system_letter(d.system) == seq![0x50u8, 0x43u8, 0x42u8, 0x55u8][(raw / 0x4000) as int],
        raw as int == (raw / 0x4000) * 0x4000 + d.digits@[0] * 0x1000 + d.digits@[1] * 0x100
            + d.digits@[2] * 0x10 + d.digits@[3],
        d.digits@[0] < 4 && d.digits@[1] < 16 && d.digits@[2] < 16 && d.digits@[3] < 16,
{
    assert(raw / 0x4000 < 4 && raw == (raw / 0x4000) * 0x4000 + ((raw / 0x1000) % 4) * 0x1000 + ((
    raw / 0x100) % 16) * 0x100 + ((raw / 0x10) % 16) * 0x10 + raw % 16) by (bit_vector);
}

fn empty_dtc() -> (d: Dtc)
    ensures
        is_empty_dtc(d),
{
    let d = Dtc { system: DtcSystem::Powertrain, digits: [0; 4] };
    assert(d.digits@ =~= seq![0u8, 0, 0, 0]);
    d
}

/// Up to three decoded trouble codes; entries at and past `count` are `P0000`.
#[derive(Clone, Copy, Debug, PartialEq, Eq)]
pub struct DtcList {
    pub dtcs: [Dtc; 3],
    pub count: u8,
}

/// Raw value of the `k`-th two-byte code of a Mode 03 response.
pub open spec fn dtc_raw(f: CanFrame, k: int) -> u16 {
    (byte(f, 2 + 2 * k) * 256 + byte(f, 3 + 2 * k)) as u16
}

/// The non-zero raw codes among the first `n` pairs, in order (zero pairs are padding).
pub open spec fn nonzero_raws(f: CanFrame, n: int) -> Seq<u16>
    decreases n,
{
    if n <= 0 {
        Seq::empty()
    } else if dtc_raw(f, n - 1) != 0 {
        nonzero_raws(f, n - 1).push(dtc_raw(f, n - 1))
    } else {
        nonzero_raws(f, n - 1)
    }
}

/// Payload length of a well-formed positive Mode 03 response, or why it is refused.
pub open spec fn dtc_payload_len(f: CanFrame) -> Result<u8, Error> {
    match single_frame_len(f) {
        Err(e) => Err(e),
        Ok(pl) => match negative_check(f, pl, 3) {
            Err(e) => Err(e),
            Ok(_) => if byte(f, 1) != 0x43 {
                Err(Error::UnsupportedService)
            } else if (pl - 1) % 2 != 0 {
                Err(Error::Malformed)
            } else {
                Ok(pl)
            },
        },
    }
}

/// `list` holds exactly the codes `raws`, in order, padded with `P0000`.
pub open spec fn list_holds(list: DtcList, raws: Seq<u16>) -> bool {
    &&& list.count == raws.len()
    &&& forall|i: int| 0 <= i < raws.len() ==> is_dtc_of(#[trigger] list.dtcs@[i], raws[i])
    &&& forall|i: int| raws.len() <= i < 3 ==> is_empty_dtc(#[trigger] list.dtcs@[i])
}

proof fn lemma_nonzero_raws_len(f: CanFrame, n: int)
    ensures
        nonzero_raws(f, n).len() <= if n < 0 { 0 } else { n },
    decreases n,
{
    if n > 0 {
        lemma_nonzero_raws_len(f, n - 1);
    }
}

/// Decodes a Mode 03 response into its stored trouble codes.
pub fn decode_dtcs(frame: &CanFrame) -> (r: Result<DtcList, Error>)
    ensures
        match dtc_payload_len(*frame) {
            Err(e) => r == Err::<DtcList, Error>(e),
            Ok(pl) => r matches Ok(list) && list_holds(list, nonzero_raws(*frame, (pl - 1) / 2)),
        },
{
    let payload_len = match single_frame_payload(frame) {
        Ok(n) => n,
        Err(e) => return Err(e),
    };
    match check_negative(frame, payload_len, 3) {
        Ok(()) => {},
        Err(e) => return Err(e),
    }
    if frame.data[1] != 0x43 {
        return Err(Error::UnsupportedService);
    }
    if (payload_len - 1) % 2 != 0 {
        return Err(Error::Malformed);
    }
    let pairs = ((payload_len - 1) / 2) as usize;
    let e = empty_dtc();
    let mut result = DtcList { dtcs: [e, e, e], count: 0 };
    let mut k: usize = 0;
    while k < pairs
        invariant
            pairs == (payload_len - 1) / 2,
            1 <= payload_len <= 7,
            k <= pairs,
            list_holds(result, nonzero_raws(*frame, k as int)),
        decreases pairs - k,
    {
        proof {
            lemma_nonzero_raws_len(*frame, k as int);
        }
        let raw = (frame.data[2 + 2 * k] as u16) * 256 + (frame.data[3 + 2 * k] as u16);
        if raw != 0 {
            let idx = result.count as usize;
            result.dtcs[idx] = Dtc::from_raw(raw);
            result.count = result.count + 1;
        }
        k = k + 1;
        assert(list_holds(result, nonzero_raws(*frame, k as int)));
    }
    Ok(result)
}

/// Payload check of a Mode 04 response: refused unless it is exactly `[0x44]`.
pub open spec fn clear_dtcs_result(f: CanFrame) -> Result<(), Error> {
    match single_frame_len(f) {
        Err(e) => Err(e),
        Ok(pl) => match negative_check(f, pl, 4) {
            Err(e) => Err(e),
            Ok(_) => if byte(f, 1) != 0x44 {
                Err(Error::UnsupportedService)
            } else if pl != 1 {
                Err(Error::Malformed)
            } else {
                Ok(())
            },
        },
    }
}

/// Checks a Mode 04 (clear DTCs) response.
pub fn decode_clear_dtcs(frame: &CanFrame) -> (r: Result<(), Error>)
    ensures
        r == clear_dtcs_result(*frame),
{
    let payload_len = match single_frame_payload(frame) {
        Ok(n) => n,
        Err(e) => return Err(e),
    };
    match check_negative(frame, payload_len, 4) {
        Ok(()) => {},
        Err(e) => return Err(e),
    }
    if frame.data[1] != 0x44 {
        return Err(Error::UnsupportedService);
    }
    if payload_len != 1 {
        return Err(Error::Malformed);
    }
    Ok(())
}

} // verus!
