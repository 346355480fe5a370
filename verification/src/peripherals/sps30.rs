//! The SPS30 particulate-matter sensor's I2C protocol.
//!
//! Commands are 16-bit big-endian words; responses are 16-bit words, each
//! followed by its CRC-8 (polynomial 0x31, initial value 0xFF):
//! `0x0010` start measurement (a parameter word follows: `0x0300` float,
//! `0x0500` 16-bit integers), `0x0104` stop, `0x0202` data ready (one word,
//! ready when it is 1), `0x0300` measured values, `0xD033` serial number (16
//! words). Any command clears the previous response.
//!
//! The measured values come from the particle model: [`Sps30::measurement_due`]
//! says when a write completes a measured-values command, in which output
//! format, and the model's words are framed with their CRCs.
use vstd::prelude::*;

verus! {

/// The default 7-bit I2C address.
pub const SPS30_ADDR: u8 = 0x69;

pub const CMD_START_MEASUREMENT: u16 = 0x0010;
pub const CMD_STOP_MEASUREMENT: u16 = 0x0104;
pub const CMD_READ_DATA_READY: u16 = 0x0202;
pub const CMD_READ_MEASURED_VALUES: u16 = 0x0300;
pub const CMD_GET_SERIAL: u16 = 0xD033;

/// The output format of measured values.
#[derive(Clone, Copy, Debug, PartialEq, Eq)]
pub enum Mode {
    /// Each value an IEEE-754 float: two words.
    Float,
    /// Each value a 16-bit integer: one word.
    Uint16,
}

/// One CRC step over the bits of `crc`, `k` of them.
pub open spec fn crc_bits(crc: u8, k: nat) -> u8
    decreases k,
{
    if k == 0 {
        crc
    } else {
        let c = crc_bits(crc, (k - 1) as nat);
        if c & 0x80 != 0 {
            ((c << 1u8) ^ 0x31) as u8
        } else {
            (c << 1u8) as u8
        }
    }
}

/// The Sensirion CRC-8 of `data`: polynomial 0x31, initial value 0xFF, MSB
/// first, no final XOR.
pub open spec fn crc8_spec(data: Seq<u8>) -> u8
    decreases data.len(),
{
    if data.len() == 0 {
        0xFF
    } else {
        crc_bits(crc8_spec(data.drop_last()) ^ data.last(), 8)
    }
}

/// The Sensirion CRC-8 of `data`.
pub fn crc8(data: &[u8]) -> (r: u8)
    ensures
        r == crc8_spec(data@),
{
    let mut crc: u8 = 0xFF;
    let mut i: usize = 0;
    while i < data.len()
        invariant
            0 <= i <= data@.len(),
            crc == crc8_spec(data@.take(i as int)),
        decreases data@.len() - i,
    {
        assert(data@.take(i + 1).drop_last() =~= data@.take(i as int));
        let start = crc ^ data[i];
        crc = start;
        let mut k: u8 = 0;
        while k < 8
            invariant
                k <= 8,
                crc == crc_bits(start, k as nat),
            decreases 8 - k,
        {
            crc = if crc & 0x80 != 0 {
                (crc << 1u8) ^ 0x31
            } else {
                crc << 1u8
            };
            k = k + 1;
        }
        i = i + 1;
    }
    assert(data@.take(data@.len() as int) =~= data@);
    crc
}

/// A word on the wire: high byte, low byte, and their CRC.
pub open spec fn framed_word(w: u16) -> Seq<u8> {
    let hi = (w / 256) as u8;
    let lo = (w % 256) as u8;
    seq![hi, lo, crc8_spec(seq![hi, lo])]
}

/// Words on the wire, in order.
pub open spec fn framed(words: Seq<u16>) -> Seq<u8>
    decreases words.len(),
{
    if words.len() == 0 {
        Seq::empty()
    } else {
        framed(words.drop_last()) + framed_word(words.last())
    }
}

/// Frames `words` for the wire, each followed by its CRC.
pub fn encode_words(words: &[u16]) -> (r: Vec<u8>)
    ensures
        r@ == framed(words@),
{
    let mut out: Vec<u8> = Vec::new();
    let mut i: usize = 0;
    while i < words.len()
        invariant
            0 <= i <= words@.len(),
            out@ == framed(words@.take(i as int)),
        decreases words@.len() - i,
    {
        assert(words@.take(i + 1).drop_last() =~= words@.take(i as int));
        let w = words[i];
        let hi = (w >> 8u16) as u8;
        let lo = (w & 0xFF) as u8;
        assert(hi == (w / 256) as u8 && lo == (w % 256) as u8) by (bit_vector)
            requires
                hi == (w >> 8u16) as u8,
                lo == (w & 0xFF) as u8,
        ;
        let pair = [hi, lo];
        let c = crc8(&pair);
        assert(pair@ =~= seq![hi, lo]);
        let ghost before = out@;
        out.push(hi);
        out.push(lo);
        out.push(c);
        assert(out@ =~= before + framed_word(w));
        i = i + 1;
    }
    assert(words@.take(words@.len() as int) =~= words@);
    out
}

/// Every framed response is whole words, each followed by the CRC of its two
/// bytes, and reads back as the words it framed.
pub proof fn lemma_framed_words(words: Seq<u16>, k: int)
    requires
        0 <= k < words.len(),
    ensures
        framed(words).len() == 3 * words.len(),
        framed(words)[3 * k + 2] == crc8_spec(seq![framed(words)[3 * k], framed(words)[3 * k + 1]]),
        framed(words)[3 * k] * 256 + framed(words)[3 * k + 1] == words[k],
    decreases words.len(),
{
    let rest = words.drop_last();
    if k < rest.len() {
        lemma_framed_words(rest, k);
    } else if rest.len() > 0 {
        lemma_framed_words(rest, 0);
    }
    if rest.len() == 0 {
        assert(framed(rest).len() == 0);
    }
    let w = words.last();
    assert(framed_word(w).len() == 3);
    assert((w / 256) as u8 * 256 + (w % 256) as u8 == w);
}

/// The serial number's words: "LEO01", zero-padded to 16 words.
pub open spec fn serial_words() -> Seq<u16> {
    seq![0x4C45u16, 0x4F30u16, 0x3100u16] + Seq::new(13, |i: int| 0u16)
}

/// The protocol's state.
pub ghost struct SpsState {
    pub mode: Mode,
    pub running: bool,
    /// Bytes written in this transaction, counted up to 5.
    pub written: u8,
    /// The first byte of the command.
    pub hi: u8,
    /// The command word, once two bytes were written.
    pub cmd: u16,
    /// The first byte of the parameter word.
    pub param: u8,
    /// The response being read.
    pub response: Seq<u8>,
    /// Bytes of it read, counted up to its length.
    pub read: nat,
}

/// The state after command `cmd` with `measured` the model's words: the
/// response is cleared and replaced as the command says.
pub open spec fn dispatch(s: SpsState, cmd: u16, measured: Seq<u16>) -> SpsState {
    let s = SpsState { response: Seq::empty(), read: 0, ..s };
    if cmd == CMD_START_MEASUREMENT {
        SpsState { running: true, mode: Mode::Float, ..s }
    } else if cmd == CMD_STOP_MEASUREMENT {
        SpsState { running: false, ..s }
    } else if cmd == CMD_READ_DATA_READY {
        SpsState { response: framed(seq![1u16]), ..s }
    } else if cmd == CMD_READ_MEASURED_VALUES {
        SpsState { response: framed(measured), ..s }
    } else if cmd == CMD_GET_SERIAL {
        SpsState { response: framed(serial_words()), ..s }
    } else {
        s
    }
}

/// The state after the master writes `data`: the second byte completes the
/// command, and the fourth completes a start-measurement parameter, choosing
/// integers for `0x05` and floats otherwise.
pub open spec fn after_write(s: SpsState, data: u8, measured: Seq<u16>) -> SpsState {
    let n = if s.written < 5 { (s.written + 1) as u8 } else { 5u8 };
    let s1 = SpsState { written: n, ..s };
    if n == 1 {
        SpsState { hi: data, ..s1 }
    } else if n == 2 {
        let cmd = (s.hi * 256 + data) as u16;
        dispatch(SpsState { cmd, ..s1 }, cmd, measured)
    } else if n == 3 {
        SpsState { param: data, ..s1 }
    } else if n == 4 && s.cmd == CMD_START_MEASUREMENT {
        SpsState { mode: if s.param == 0x05 { Mode::Uint16 } else { Mode::Float }, ..s1 }
    } else {
        s1
    }
}

/// Whether writing `data` completes a measured-values command.
pub open spec fn completes_measurement(s: SpsState, data: u8) -> bool {
    s.written == 1 && s.hi * 256 + data == CMD_READ_MEASURED_VALUES
}

/// The next byte of the response, `0xFF` past its end.
pub open spec fn after_read(s: SpsState) -> (SpsState, u8) {
    if s.read < s.response.len() {
        (SpsState { read: s.read + 1, ..s }, s.response[s.read as int])
    } else {
        (s, 0xFF)
    }
}

/// An SPS30 on an I2C bus.
pub struct Sps30 {
    address: u8,
    mode: Mode,
    running: bool,
    written: u8,
    hi: u8,
    cmd: u16,
    param: u8,
    response: Vec<u8>,
    read: usize,
}

impl Sps30 {
    /// The state of the protocol.
    pub closed spec fn state(&self) -> SpsState {
        SpsState {
            mode: self.mode,
            running: self.running,
            written: self.written,
            hi: self.hi,
            cmd: self.cmd,
            param: self.param,
            response: self.response@,
            read: self.read as nat,
        }
    }

    /// The I2C address it answers to.
    pub closed spec fn address_view(&self) -> u8 {
        self.address
    }

    /// A sensor at `address` (0 for the default 0x69), idle, floats selected.
    pub fn new(address: u8) -> (r: Self)
        ensures
            r.address_view() == if address == 0 {
                SPS30_ADDR
            } else {
                address
            },
            r.state() == (SpsState {
                mode: Mode::Float,
                running: false,
                written: 0,
                hi: 0,
                cmd: 0,
                param: 0,
                response: Seq::empty(),
                read: 0,
            }),
    {
        Sps30 {
            address: if address == 0 {
                SPS30_ADDR
            } else {
                address
            },
            mode: Mode::Float,
            running: false,
            written: 0,
            hi: 0,
            cmd: 0,
            param: 0,
            response: Vec::new(),
            read: 0,
        }
    }

    /// The I2C address it answers to.
    pub fn address(&self) -> (r: u8)
        ensures
            r == self.address_view(),
    {
        self.address
    }

    /// The output format measured values are in.
    pub fn mode(&self) -> (r: Mode)
        ensures
            r == self.state().mode,
    {
        self.mode
    }

    /// Whether a measurement was started and not stopped.
    pub fn running(&self) -> (r: bool)
        ensures
            r == self.state().running,
    {
        self.running
    }

    /// A START: a new command, the response read from its start.
    pub fn start(&mut self)
        ensures
            final(self).state() == (SpsState { written: 0, read: 0, ..old(self).state() }),
            final(self).address_view() == old(self).address_view(),
    {
        self.written = 0;
        self.read = 0;
    }

    /// A STOP: the written bytes are forgotten.
    pub fn stop(&mut self)
        ensures
            final(self).state() == (SpsState { written: 0, ..old(self).state() }),
            final(self).address_view() == old(self).address_view(),
    {
        self.written = 0;
    }

    /// Whether writing `data` completes a measured-values command, and in
    /// which format the model must then supply its words.
    pub fn measurement_due(&self, data: u8) -> (r: Option<Mode>)
        ensures
            r == if completes_measurement(self.state(), data) {
                Some(self.state().mode)
            } else {
                None
            },
    {
        if self.written == 1 && (self.hi as u16) * 256 + data as u16 == CMD_READ_MEASURED_VALUES {
            Some(self.mode)
        } else {
            None
        }
    }

    /// The master writes `data` (see [`after_write`]); `measured` are the
    /// model's words when [`Self::measurement_due`] said so, unused
    /// otherwise.
    pub fn write(&mut self, data: u8, measured: &[u16])
        ensures
            final(self).state() == after_write(old(self).state(), data, measured@),
            final(self).address_view() == old(self).address_view(),
    {
        self.written = if self.written < 5 {
            self.written + 1
        } else {
            5
        };
        if self.written == 1 {
            self.hi = data;
        } else if self.written == 2 {
            let cmd: u16 = (self.hi as u16) * 256 + data as u16;
            self.cmd = cmd;
            self.response = if cmd == CMD_READ_DATA_READY {
                let ready = [1u16];
                assert(ready@ =~= seq![1u16]);
                encode_words(&ready)
            } else if cmd == CMD_READ_MEASURED_VALUES {
                encode_words(measured)
            } else if cmd == CMD_GET_SERIAL {
                let mut serial: Vec<u16> = Vec::new();
                serial.push(0x4C45);
                serial.push(0x4F30);
                serial.push(0x3100);
                let mut k: usize = 0;
                while k < 13
                    invariant
                        k <= 13,
                        serial@ == seq![0x4C45u16, 0x4F30u16, 0x3100u16] + Seq::new(
                            k as nat,
                            |i: int| 0u16,
                        ),
                    decreases 13 - k,
                {
                    serial.push(0);
                    assert(seq![0x4C45u16, 0x4F30u16, 0x3100u16] + Seq::new((k + 1) as nat, |i: int| 0u16)
                        =~= (seq![0x4C45u16, 0x4F30u16, 0x3100u16] + Seq::new(k as nat, |i: int| 0u16)).push(0));
                    k = k + 1;
                }
                encode_words(serial.as_slice())
            } else {
                Vec::new()
            };
            self.read = 0;
            if cmd == CMD_START_MEASUREMENT {
                self.running = true;
                self.mode = Mode::Float;
            } else if cmd == CMD_STOP_MEASUREMENT {
                self.running = false;
            }
        } else if self.written == 3 {
            self.param = data;
        } else if self.written == 4 && self.cmd == CMD_START_MEASUREMENT {
            self.mode = if self.param == 0x05 {
                Mode::Uint16
            } else {
                Mode::Float
            };
        }
    }

    /// The master reads a byte (see [`after_read`]).
    pub fn read(&mut self) -> (r: u8)
        ensures
            (final(self).state(), r) == after_read(old(self).state()),
            final(self).address_view() == old(self).address_view(),
    {
        if self.read < self.response.len() {
            let b = self.response[self.read];
            self.read = self.read + 1;
            b
        } else {
            0xFF
        }
    }
}

} // verus!
