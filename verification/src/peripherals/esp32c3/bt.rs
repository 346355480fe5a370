//! ESP32-C3 Bluetooth LE link-layer / baseband block (`0x6003_1000`, 4 KiB):
//! a behavioural model of a RivieraWaves RW-BLE core.
//!
//! The window is plain register storage with a zero reset (what silicon reads
//! while the block is clock-gated), with three exceptions:
//!
//! * `+0x004` (`VERSION`) and `+0x008` (`RWBLECONF`) are hardwired identity
//!   words that always read their silicon values;
//! * `+0x01C` (`BASETIMECNT`, the Bluetooth native clock CLKN) reads the
//!   running 312.5 µs counter, while a write records a comparator target and
//!   its arm bit without shadowing the clock;
//! * `+0x020` (`FINETIMECNT`) reads a half-µs counter that wraps once per
//!   CLKN tick.
//!
//! Both counters run from the first write to the block (the controller
//! un-gating it), measured on the bus cycle clock that the bus publishes.
use vstd::prelude::*;

verus! {

/// Block size in bytes.
pub const BT_SIZE: u64 = 0x1000;

/// Base address of the block.
pub const BT_BASE: u64 = 0x6003_1000;

/// Number of 32-bit words in the window.
pub const BT_WORDS: usize = 1024;

/// `BASETIMECNT`: read = the native clock, write = comparator control.
pub const CLKN: u64 = 0x01C;

/// `FINETIMECNT`: the sub-CLKN fine counter.
pub const CLKN_FINE: u64 = 0x020;

/// Top bit of a `CLKN` write: the arm bit.
pub const CLKN_TARGET_ARM: u32 = 0x8000_0000;

/// Offset of the hardwired `VERSION` word.
pub const VERSION_OFFSET: u64 = 0x004;

/// Silicon value of `VERSION`.
pub const VERSION_VALUE: u32 = 0x0900_1b00;

/// Offset of the hardwired `RWBLECONF` word.
pub const RWBLECONF_OFFSET: u64 = 0x008;

/// Silicon value of `RWBLECONF`.
pub const RWBLECONF_VALUE: u32 = 0x0f22_d0b0;

/// CPU cycles per CLKN tick (312.5 µs at 160 MHz).
pub const CYCLES_PER_CLKN_TICK: u64 = 50_000;

/// Fine-counter ticks per CLKN tick (312.5 µs at 2 MHz).
pub const FINE_TICKS_PER_CLKN: u64 = 625;

/// CPU cycles per fine tick.
pub const CYCLES_PER_FINE_TICK: u64 = 80;

/// The abstract state of the block.
pub ghost struct BtView {
    /// The 1024 storage words.
    pub regs: Seq<u32>,
    /// Low 31 bits of the last `CLKN` write.
    pub event_target: u32,
    /// Whether the last `CLKN` write had the arm bit set.
    pub event_armed: bool,
    /// Cycle of the first write to the block.
    pub clock_base: Option<u64>,
    /// Last cycle count published by the bus.
    pub clock: Option<u64>,
}

/// Cycles since the block was un-gated, or 0 while it is gated or unclocked.
pub open spec fn elapsed(s: BtView) -> nat {
    match (s.clock, s.clock_base) {
        (Some(now), Some(base)) => if now >= base {
            (now - base) as nat
        } else {
            0
        },
        _ => 0,
    }
}

/// The native clock: 31 bits of elapsed CLKN ticks.
pub open spec fn clkn_of(s: BtView) -> u32 {
    ((elapsed(s) / (CYCLES_PER_CLKN_TICK as nat)) % 0x8000_0000) as u32
}

/// The fine counter: elapsed half-µs ticks modulo one CLKN tick.
pub open spec fn clkn_fine_of(s: BtView) -> u32 {
    ((elapsed(s) / (CYCLES_PER_FINE_TICK as nat)) % (FINE_TICKS_PER_CLKN as nat)) as u32
}

/// The storage word at byte offset `offset` (0 outside the window).
pub open spec fn stored_word(s: BtView, offset: u64) -> u32 {
    if offset / 4 < s.regs.len() {
        s.regs[(offset / 4) as int]
    } else {
        0
    }
}

/// What a 32-bit read at `offset` returns.
pub open spec fn read_word(s: BtView, offset: u64) -> u32 {
    if offset == VERSION_OFFSET {
        VERSION_VALUE
    } else if offset == RWBLECONF_OFFSET {
        RWBLECONF_VALUE
    } else if offset == CLKN {
        clkn_of(s)
    } else if offset == CLKN_FINE {
        clkn_fine_of(s)
    } else {
        stored_word(s, offset)
    }
}

/// The state after a 32-bit write of `value` at `offset`.
pub open spec fn write_word(s: BtView, offset: u64, value: u32) -> BtView {
    let base = match s.clock_base {
        Some(b) => Some(b),
        None => match s.clock {
            Some(now) => Some(now),
            None => Some(0u64),
        },
    };
    if offset == CLKN {
        BtView {
            event_armed: value & CLKN_TARGET_ARM != 0,
            event_target: value & !CLKN_TARGET_ARM,
            clock_base: base,
            ..s
        }
    } else if offset / 4 < s.regs.len() {
        BtView { regs: s.regs.update((offset / 4) as int, value), clock_base: base, ..s }
    } else {
        BtView { clock_base: base, ..s }
    }
}

/// Byte `lane` (0 = least significant) of `w`.
pub open spec fn byte_lane(w: u32, lane: u64) -> u8 {
    (w >> (8 * lane) as u32) as u8
}

/// `w` with byte `lane` replaced by `b`.
pub open spec fn with_byte_lane(w: u32, lane: u64, b: u8) -> u32 {
    (w & !(0xFFu32 << (8 * lane) as u32)) | ((b as u32) << (8 * lane) as u32)
}

/// What an 8-bit read at `offset` returns: a lane of the aligned word.
pub open spec fn read_byte(s: BtView, offset: u64) -> u8 {
    byte_lane(read_word(s, (offset - offset % 4) as u64), offset % 4)
}

/// The state after an 8-bit write at `offset`: a read-modify-write of the
/// aligned storage word.
pub open spec fn write_byte(s: BtView, offset: u64, b: u8) -> BtView {
    let aligned = (offset - offset % 4) as u64;
    write_word(s, aligned, with_byte_lane(stored_word(s, aligned), offset % 4, b))
}

/// The hardwired identity word at `offset`, if any.
fn hw_identity(offset: u64) -> (r: Option<u32>)
    ensures
        offset == VERSION_OFFSET ==> r == Some(VERSION_VALUE),
        offset == RWBLECONF_OFFSET ==> r == Some(RWBLECONF_VALUE),
        offset != VERSION_OFFSET && offset != RWBLECONF_OFFSET ==> r is None,
{
    if offset == VERSION_OFFSET {
        Some(VERSION_VALUE)
    } else if offset == RWBLECONF_OFFSET {
        Some(RWBLECONF_VALUE)
    } else {
        None
    }
}

/// The ESP32-C3 BLE baseband window.
#[derive(Debug)]
pub struct Esp32c3Bt {
    regs: Vec<u32>,
    event_target: u32,
    event_armed: bool,
    clock_base: Option<u64>,
    clock: Option<u64>,
}

impl View for Esp32c3Bt {
    type V = BtView;

    closed spec fn view(&self) -> BtView {
        BtView {
            regs: self.regs@,
            event_target: self.event_target,
            event_armed: self.event_armed,
            clock_base: self.clock_base,
            clock: self.clock,
        }
    }
}

impl Esp32c3Bt {
    #[verifier::type_invariant]
    spec fn inv(self) -> bool {
        self.regs.len() == BT_WORDS
    }

    /// A gated block: all storage zero, nothing armed, no clock.
    pub fn new() -> (r: Self)
        ensures
            r@.regs == Seq::new(BT_WORDS as nat, |i: int| 0u32),
            r@.event_target == 0,
            !r@.event_armed,
            r@.clock_base is None,
            r@.clock is None,
    {
        let r = Self {
            regs: vec![0u32; BT_WORDS],
            event_target: 0,
            event_armed: false,
            clock_base: None,
            clock: None,
        };
        assert(r@.regs =~= Seq::new(BT_WORDS as nat, |i: int| 0u32));
        r
    }

    /// Publishes the bus cycle count that drives CLKN and the fine counter.
    pub fn publish_cycle(&mut self, now: u64)
        ensures
            final(self)@ == (BtView { clock: Some(now), ..old(self)@ }),
    {
        proof {
            use_type_invariant(&*self);
        }
        self.clock = Some(now);
    }

    /// Cycles elapsed since the controller un-gated the block.
    fn elapsed_cycles(&self) -> (r: u64)
        ensures
            r == elapsed(self@),
    {
        match (self.clock, self.clock_base) {
            (Some(now), Some(base)) => now.saturating_sub(base),
            _ => 0,
        }
    }

    /// The Bluetooth native clock.
    fn clkn(&self) -> (r: u32)
        ensures
            r == clkn_of(self@),
    {
        let ticks = self.elapsed_cycles() / CYCLES_PER_CLKN_TICK;
        assert(ticks & 0x7FFF_FFFFu64 == ticks % 0x8000_0000u64) by (bit_vector);
        (ticks & 0x7FFF_FFFF) as u32
    }

    /// The sub-CLKN fine counter.
    fn clkn_fine(&self) -> (r: u32)
        ensures
            r == clkn_fine_of(self@),
    {
        ((self.elapsed_cycles() / CYCLES_PER_FINE_TICK) % FINE_TICKS_PER_CLKN) as u32
    }

    /// The comparator target last armed through a `CLKN` write, if armed.
    pub fn armed_event_target(&self) -> (r: Option<u32>)
        ensures
            r == (if self@.event_armed {
                Some(self@.event_target)
            } else {
                None
            }),
    {
        if self.event_armed {
            Some(self.event_target)
        } else {
            None
        }
    }

    /// 32-bit read at byte offset `offset`.
    pub fn read_u32(&self, offset: u64) -> (r: u32)
        ensures
            r == read_word(self@, offset),
    {
        proof {
            use_type_invariant(self);
        }
        if let Some(v) = hw_identity(offset) {
            return v;
        }
        if offset == CLKN {
            self.clkn()
        } else if offset == CLKN_FINE {
            self.clkn_fine()
        } else {
            let idx = offset / 4;
            if idx < self.regs.len() as u64 {
                self.regs[idx as usize]
            } else {
                0
            }
        }
    }

    /// Overwrites storage word `idx`.
    fn store_word(&mut self, idx: usize, value: u32)
        requires
            idx < old(self)@.regs.len(),
        ensures
            final(self)@ == (BtView { regs: old(self)@.regs.update(idx as int, value), ..old(self)@ }),
        no_unwind
    {
        proof {
            use_type_invariant(&*self);
        }
        self.regs[idx] = value;
    }

    /// 32-bit write at byte offset `offset`.
    pub fn write_u32(&mut self, offset: u64, value: u32)
        ensures
            final(self)@ == write_word(old(self)@, offset, value),
    {
        proof {
            use_type_invariant(&*self);
        }
        if self.clock_base.is_none() {
            self.clock_base = Some(
                match self.clock {
                    Some(now) => now,
                    None => 0,
                },
            );
        }
        if offset == CLKN {
            self.event_armed = value & CLKN_TARGET_ARM != 0;
            self.event_target = value & !CLKN_TARGET_ARM;
        } else {
            let idx = offset / 4;
            if idx < self.regs.len() as u64 {
                self.store_word(idx as usize, value);
            }
        }
    }

    /// 8-bit read: one lane of the aligned word.
    pub fn read(&self, offset: u64) -> (r: u8)
        ensures
            r == read_byte(self@, offset),
    {
        let aligned = offset & !3u64;
        let lane = offset & 3;
        assert(aligned == offset - offset % 4 && lane == offset % 4) by (bit_vector)
            requires
                aligned == offset & !3u64,
                lane == offset & 3,
        ;
        let w = self.read_u32(aligned);
        (w >> (lane * 8)) as u8
    }

    /// 8-bit write: read-modify-write of the aligned storage word.
    pub fn write(&mut self, offset: u64, value: u8)
        ensures
            final(self)@ == write_byte(old(self)@, offset, value),
    {
        proof {
            use_type_invariant(&*self);
        }
        let aligned = offset & !3u64;
        let lane = offset & 3;
        assert(aligned == offset - offset % 4 && lane == offset % 4) by (bit_vector)
            requires
                aligned == offset & !3u64,
                lane == offset & 3,
        ;
        let sh = lane * 8;
        let idx = aligned / 4;
        let cur = if idx < self.regs.len() as u64 {
            self.regs[idx as usize]
        } else {
            0
        };
        self.write_u32(aligned, (cur & !(0xFFu32 << sh)) | ((value as u32) << sh));
    }
}

/// A written storage word reads straight back: everywhere in the window but
/// the identity words and the two counters.
pub proof fn lemma_storage_write_reads_back(s: BtView, offset: u64, value: u32)
    requires
        s.regs.len() == BT_WORDS,
        offset < BT_SIZE,
        offset != VERSION_OFFSET,
        offset != RWBLECONF_OFFSET,
        offset != CLKN,
        offset != CLKN_FINE,
    ensures
        read_word(write_word(s, offset, value), offset) == value,
{
}

/// A byte written to storage reads straight back.
pub proof fn lemma_storage_byte_write_reads_back(s: BtView, offset: u64, b: u8)
    requires
        s.regs.len() == BT_WORDS,
        offset < BT_SIZE,
        offset - offset % 4 != VERSION_OFFSET,
        offset - offset % 4 != RWBLECONF_OFFSET,
        offset - offset % 4 != CLKN,
        offset - offset % 4 != CLKN_FINE,
    ensures
        read_byte(write_byte(s, offset, b), offset) == b,
{
    let aligned = (offset - offset % 4) as u64;
    let lane = offset % 4;
    let w = stored_word(s, aligned);
    assert(aligned % 4 == 0);
    assert(aligned - aligned % 4 == aligned);
    assert((aligned as int - aligned as int % 4) == aligned);
    assert(byte_lane(with_byte_lane(w, lane, b), lane) == b) by (bit_vector)
        requires
            lane < 4,
    ;
}

/// The identity words read their silicon values in every state.
pub proof fn lemma_identity_words_fixed(s: BtView)
    ensures
        read_word(s, VERSION_OFFSET) == VERSION_VALUE,
        read_word(s, RWBLECONF_OFFSET) == RWBLECONF_VALUE,
{
}

/// A write never changes what CLKN reads once the block is un-gated: the
/// comparator control does not shadow the clock.
pub proof fn lemma_clkn_write_keeps_clock(s: BtView, offset: u64, value: u32)
    requires
        s.clock_base is Some,
    ensures
        read_word(write_word(s, offset, value), CLKN) == read_word(s, CLKN),
        read_word(write_word(s, offset, value), CLKN_FINE) == read_word(s, CLKN_FINE),
{
}

/// The fine counter stays below one CLKN tick's worth of half-µs ticks.
pub proof fn lemma_fine_counter_bounded(s: BtView)
    ensures
        read_word(s, CLKN_FINE) < FINE_TICKS_PER_CLKN,
{
}

/// CLKN never runs backwards while the bus clock advances, until its 31 bits
/// wrap.
pub proof fn lemma_clkn_monotonic(s: BtView, now1: u64, now2: u64)
    requires
        now1 <= now2,
        elapsed(BtView { clock: Some(now2), ..s }) / (CYCLES_PER_CLKN_TICK as nat) < 0x8000_0000,
    ensures
        read_word(BtView { clock: Some(now1), ..s }, CLKN) <= read_word(
            BtView { clock: Some(now2), ..s },
            CLKN,
        ),
{
    let s1 = BtView { clock: Some(now1), ..s };
    let s2 = BtView { clock: Some(now2), ..s };
    assert(elapsed(s1) <= elapsed(s2));
    vstd::arithmetic::div_mod::lemma_div_is_ordered(
        elapsed(s1) as int,
        elapsed(s2) as int,
        CYCLES_PER_CLKN_TICK as int,
    );
}

} // verus!
