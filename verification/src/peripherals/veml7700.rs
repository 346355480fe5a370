//! The VEML7700 ambient-light sensor's I2C register interface.
//!
//! The master writes a one-byte register pointer, then reads or writes a
//! 16-bit little-endian word, low byte first. `ALS_CONF`, the two window
//! thresholds and `PSM` (pointers 0 to 3) are echoed back as written; `ALS`
//! (0x04) and `WHITE` (0x05) return light counts, which the light model
//! supplies: a read latches its word on its first byte, once per read phase,
//! and [`Veml7700::pending_light`] says which channel that latch will take.
use vstd::prelude::*;

verus! {

/// The default 7-bit I2C address.
pub const VEML7700_ADDR: u8 = 0x10;

/// The ambient-light output register.
pub const REG_ALS: u8 = 0x04;

/// The white-channel output register.
pub const REG_WHITE: u8 = 0x05;

/// A light-count output the model supplies.
#[derive(Clone, Copy, Debug, PartialEq, Eq)]
pub enum LightChannel {
    Als,
    White,
}

/// The register interface's state.
pub ghost struct VemlState {
    /// The register pointer of the current transaction.
    pub pointer: u8,
    /// `ALS_CONF`, `ALS_WH`, `ALS_WL`, `PSM`.
    pub conf: Seq<u16>,
    /// Bytes written in this phase, counted up to 4.
    pub written: u8,
    /// The low byte of a word being written.
    pub low: u8,
    /// The word the current read streams.
    pub read_word: u16,
    /// Bytes read in this phase, counted up to 2.
    pub read: u8,
    /// Whether this read phase has latched its word.
    pub latched: bool,
}

/// The state after the master writes `data`: the first byte of a phase sets
/// the pointer, the second is a low byte, and the third completes a word
/// written to a configuration register.
pub open spec fn after_write(s: VemlState, data: u8) -> VemlState {
    let n = if s.written < 4 { (s.written + 1) as u8 } else { 4u8 };
    if n == 1 {
        VemlState { written: n, pointer: data, ..s }
    } else if n == 2 {
        VemlState { written: n, low: data, ..s }
    } else if n == 3 && s.pointer < 4 {
        VemlState { written: n, conf: s.conf.update(s.pointer as int, ((data as u16) * 256 + s.low) as u16), ..s }
    } else {
        VemlState { written: n, ..s }
    }
}

/// The word a read latches: the supplied light count for `ALS` and `WHITE`,
/// a configuration register as written, zero elsewhere.
pub open spec fn latched_word(s: VemlState, light: u16) -> u16 {
    if s.pointer == REG_ALS || s.pointer == REG_WHITE {
        light
    } else if s.pointer < 4 {
        s.conf[s.pointer as int]
    } else {
        0
    }
}

/// The light channel the next read byte latches, if any.
pub open spec fn pending_channel(s: VemlState) -> Option<LightChannel> {
    if s.latched {
        None
    } else if s.pointer == REG_ALS {
        Some(LightChannel::Als)
    } else if s.pointer == REG_WHITE {
        Some(LightChannel::White)
    } else {
        None
    }
}

/// The state and byte after the master reads one byte, `light` being the
/// count the model supplies should the read latch a light channel: the word
/// streams low byte, high byte, then `0xFF`.
pub open spec fn after_read(s: VemlState, light: u16) -> (VemlState, u8) {
    let word = if s.latched {
        s.read_word
    } else {
        latched_word(s, light)
    };
    let byte = if s.read == 0 {
        (word % 256) as u8
    } else if s.read == 1 {
        (word / 256) as u8
    } else {
        0xFFu8
    };
    (
        VemlState {
            read_word: word,
            latched: true,
            read: if s.read < 2 {
                (s.read + 1) as u8
            } else {
                2u8
            },
            ..s
        },
        byte,
    )
}

/// A VEML7700 on an I2C bus.
pub struct Veml7700 {
    address: u8,
    conf: [u16; 4],
    pointer: u8,
    written: u8,
    low: u8,
    read_word: u16,
    read: u8,
    latched: bool,
}

impl Veml7700 {
    /// The state of the register interface.
    pub closed spec fn state(&self) -> VemlState {
        VemlState {
            pointer: self.pointer,
            conf: self.conf@,
            written: self.written,
            low: self.low,
            read_word: self.read_word,
            read: self.read,
            latched: self.latched,
        }
    }

    /// The I2C address it answers to.
    pub closed spec fn address_view(&self) -> u8 {
        self.address
    }

    /// The configuration registers always number four.
    pub proof fn lemma_conf_len(&self)
        ensures
            self.state().conf.len() == 4,
    {
    }

    /// A sensor at `address` (0 for the default 0x10), its registers zero.
    pub fn new(address: u8) -> (r: Self)
        ensures
            r.address_view() == if address == 0 {
                VEML7700_ADDR
            } else {
                address
            },
            r.state() == (VemlState {
                pointer: 0,
                conf: seq![0u16, 0u16, 0u16, 0u16],
                written: 0,
                low: 0,
                read_word: 0,
                read: 0,
                latched: false,
            }),
    {
        let r = Veml7700 {
            address: if address == 0 {
                VEML7700_ADDR
            } else {
                address
            },
            conf: [0; 4],
            pointer: 0,
            written: 0,
            low: 0,
            read_word: 0,
            read: 0,
            latched: false,
        };
        assert(r.conf@ =~= seq![0u16, 0u16, 0u16, 0u16]);
        r
    }

    /// The I2C address it answers to.
    pub fn address(&self) -> (r: u8)
        ensures
            r == self.address_view(),
    {
        self.address
    }

    /// A START or repeated START: a new phase, the pointer kept.
    pub fn start(&mut self)
        ensures
            final(self).state() == (VemlState {
                written: 0,
                read: 0,
                latched: false,
                ..old(self).state()
            }),
            final(self).address_view() == old(self).address_view(),
    {
        self.written = 0;
        self.read = 0;
        self.latched = false;
    }

    /// A STOP: the written bytes are forgotten.
    pub fn stop(&mut self)
        ensures
            final(self).state() == (VemlState { written: 0, ..old(self).state() }),
            final(self).address_view() == old(self).address_view(),
    {
        self.written = 0;
    }

    /// The master writes `data` (see [`after_write`]).
    pub fn write(&mut self, data: u8)
        ensures
            final(self).state() == after_write(old(self).state(), data),
            final(self).address_view() == old(self).address_view(),
    {
        self.written = if self.written < 4 {
            self.written + 1
        } else {
            4
        };
        if self.written == 1 {
            self.pointer = data;
        } else if self.written == 2 {
            self.low = data;
        } else if self.written == 3 && self.pointer < 4 {
            let low = self.low;
            let word = ((data as u16) << 8u16) | (low as u16);
            assert(word == (data as u16) * 256 + low) by (bit_vector)
                requires
                    word == ((data as u16) << 8u16) | (low as u16),
            ;
            self.conf[self.pointer as usize] = word;
            assert(self.conf@ =~= old(self).conf@.update(
                old(self).pointer as int,
                ((data as u16) * 256 + old(self).low) as u16,
            ));
        }
    }

    /// The light channel the next read latches, if any: the model advances
    /// its light level only when this is `Some`.
    pub fn pending_light(&self) -> (r: Option<LightChannel>)
        ensures
            r == pending_channel(self.state()),
    {
        if self.latched {
            None
        } else if self.pointer == REG_ALS {
            Some(LightChannel::Als)
        } else if self.pointer == REG_WHITE {
            Some(LightChannel::White)
        } else {
            None
        }
    }

    /// The master reads a byte (see [`after_read`]); `light` is the count of
    /// the channel [`Self::pending_light`] named, and is unused otherwise.
    pub fn read(&mut self, light: u16) -> (r: u8)
        ensures
            (final(self).state(), r) == after_read(old(self).state(), light),
            final(self).address_view() == old(self).address_view(),
    {
        if !self.latched {
            self.read_word = if self.pointer == REG_ALS || self.pointer == REG_WHITE {
                light
            } else if self.pointer < 4 {
                self.conf[self.pointer as usize]
            } else {
                0
            };
            self.latched = true;
        }
        let word = self.read_word;
        let byte = if self.read == 0 {
            (word & 0xFF) as u8
        } else if self.read == 1 {
            (word >> 8u16) as u8
        } else {
            0xFF
        };
        assert((word & 0xFF) as u8 == (word % 256) as u8 && (word >> 8u16) as u8 == (word / 256) as u8)
            by (bit_vector);
        self.read = if self.read < 2 {
            self.read + 1
        } else {
            2
        };
        byte
    }
}

/// A configuration word written in one transaction (pointer, low byte, high
/// byte) reads back unchanged after a repeated START.
pub proof fn lemma_config_round_trip(s: VemlState, reg: u8, value: u16)
    requires
        s.conf.len() == 4,
        reg < 4,
    ensures
        ({
            let start = VemlState { written: 0, read: 0, latched: false, ..s };
            let w = after_write(
                after_write(after_write(start, reg), (value % 256) as u8),
                (value / 256) as u8,
            );
            let again = VemlState { written: 0, read: 0, latched: false, ..w };
            let p = after_write(again, reg);
            let rd = VemlState { written: 0, read: 0, latched: false, ..p };
            let (t, lo) = after_read(rd, 0);
            let (_, hi) = after_read(t, 0);
            (hi as int) * 256 + lo == value
        }),
{
}

} // verus!
