//! MCP2515 CAN controller SPI register shell — no CAN bus frames required.
//!
//! Supports RESET, READ, WRITE, READ_STATUS, RX_STATUS, BIT_MODIFY, the
//! LOAD TX BUFFER / READ RX BUFFER shortcuts and RTS for the register file
//! used by common Arduino MCP_CAN libraries. The SPI transaction is a state
//! machine advanced one MOSI byte at a time; [`spi_step`] is its model.
use vstd::prelude::*;

use crate::scanner::obd2::CanFrame;

verus! {

pub const INST_WRITE: u8 = 0x02;
pub const INST_READ: u8 = 0x03;
pub const INST_BITMOD: u8 = 0x05;
pub const INST_READ_STATUS: u8 = 0xA0;
pub const INST_RX_STATUS: u8 = 0xB0;
pub const INST_RESET: u8 = 0xC0;

pub const REG_CANSTAT: u8 = 0x0E;
pub const REG_CANCTRL: u8 = 0x0F;
pub const REG_CNF3: u8 = 0x28;
pub const REG_CNF2: u8 = 0x29;
pub const REG_CNF1: u8 = 0x2A;
pub const REG_CANINTF: u8 = 0x2C;
pub const REG_EFLG: u8 = 0x2D;
pub const REG_TXB0CTRL: u8 = 0x30;
pub const REG_TXB0SIDH: u8 = 0x31;
pub const REG_TXB0D0: u8 = 0x36;
pub const REG_TXB1CTRL: u8 = 0x40;
pub const REG_TXB1SIDH: u8 = 0x41;
pub const REG_TXB1D0: u8 = 0x46;
pub const REG_TXB2CTRL: u8 = 0x50;
pub const REG_TXB2SIDH: u8 = 0x51;
pub const REG_TXB2D0: u8 = 0x56;
pub const REG_RXB0SIDH: u8 = 0x61;
pub const REG_RXB1SIDH: u8 = 0x71;

pub const TXREQ: u8 = 0x08;
pub const CANINTF_RX0IF: u8 = 0x01;
pub const CANINTF_RX1IF: u8 = 0x02;
pub const CANINTF_TX0IF: u8 = 0x04;
pub const CANINTF_MERRF: u8 = 0x80;

/// Requested operation mode (REQOP / OPMOD field, bits 7..5).
#[derive(Debug, Clone, Copy, PartialEq, Eq, Structural)]
pub enum OpMode {
    Normal,
    Sleep,
    Loopback,
    ListenOnly,
    Config,
}

pub open spec fn mode_bits(m: OpMode) -> u8 {
    match m {
        OpMode::Normal => 0x00,
        OpMode::Sleep => 0x20,
        OpMode::Loopback => 0x40,
        OpMode::ListenOnly => 0x60,
        OpMode::Config => 0x80,
    }
}

/// The mode field is bits 7..5: normal 000, sleep 001, loopback 010,
/// listen-only 011, configuration 100; a request reads only those bits,
/// reads back the mode it names, and 101, 110 and 111 name no mode.
pub proof fn lemma_mode_field(m: OpMode, v: u8)
    ensures
        mode_bits(m) == seq![0x00u8, 0x20, 0x40, 0x60, 0x80][match m {
            OpMode::Normal => 0int,
            OpMode::Sleep => 1int,
            OpMode::Loopback => 2int,
            OpMode::ListenOnly => 3int,
            OpMode::Config => 4int,
        }],
        mode_of_request(mode_bits(m)) == Some(m),
        mode_of_request(v) == mode_of_request(v & 0xE0),
        v / 32 >= 5 ==> mode_of_request(v) is None,
        v / 32 < 5 ==> mode_of_request(v) is Some && mode_bits(mode_of_request(v).unwrap()) == (v / 32)
            * 32,
{
    assert(0x00u8 & 0xE0 == 0x00 && 0x20u8 & 0xE0 == 0x20 && 0x40u8 & 0xE0 == 0x40 && 0x60u8 & 0xE0
        == 0x60 && 0x80u8 & 0xE0 == 0x80 && (v & 0xE0) & 0xE0 == v & 0xE0 && v & 0xE0 == (v / 32) * 32)
        by (bit_vector);
}

pub open spec fn mode_of_request(bits: u8) -> Option<OpMode> {
    let b = bits & 0xE0;
    if b == 0x00 {
        Some(OpMode::Normal)
    } else if b == 0x20 {
        Some(OpMode::Sleep)
    } else if b == 0x40 {
        Some(OpMode::Loopback)
    } else if b == 0x60 {
        Some(OpMode::ListenOnly)
    } else if b == 0x80 {
        Some(OpMode::Config)
    } else {
        None
    }
}

impl OpMode {
    /// The mode's OPMOD bit pattern.
    pub fn bits(self) -> (r: u8)
        ensures
            r == mode_bits(self),
    {
        match self {
            OpMode::Normal => 0x00,
            OpMode::Sleep => 0x20,
            OpMode::Loopback => 0x40,
            OpMode::ListenOnly => 0x60,
            OpMode::Config => 0x80,
        }
    }

    /// The mode requested by the REQOP bits of a CANCTRL value (`None` for
    /// the reserved patterns).
    pub fn from_request(bits: u8) -> (r: Option<OpMode>)
        ensures
            r == mode_of_request(bits),
    {
        let b = bits & 0xE0;
        if b == 0x00 {
            Some(OpMode::Normal)
        } else if b == 0x20 {
            Some(OpMode::Sleep)
        } else if b == 0x40 {
            Some(OpMode::Loopback)
        } else if b == 0x60 {
            Some(OpMode::ListenOnly)
        } else if b == 0x80 {
            Some(OpMode::Config)
        } else {
            None
        }
    }
}

/// The four SIDH/SIDL/EID8/EID0 bytes of a standard (11-bit) identifier.
pub open spec fn standard_id_bytes(id: u32) -> Seq<u8> {
    seq![(id / 8) as u8, ((id % 8) * 32) as u8, 0u8, 0u8]
}

/// Identifier bytes to `SIDH, SIDL, EID8, EID0`; `None` above `0x7FF`.
pub fn encode_standard_id(id: u32) -> (r: Option<[u8; 4]>)
    ensures
        id <= 0x7FF ==> (r matches Some(b) && b@ == standard_id_bytes(id)),
        id > 0x7FF ==> r is None,
{
    if id <= 0x7FF {
        assert((id >> 3) == id / 8 && ((id & 7) << 5) == (id % 8) * 32) by (bit_vector)
            requires
                id <= 0x7FF,
        ;
        let b = [(id >> 3) as u8, ((id & 7) << 5) as u8, 0, 0];
        assert(b@ =~= standard_id_bytes(id));
        Some(b)
    } else {
        None
    }
}

/// The standard identifier held by `SIDH, SIDL, EID8, EID0`, or `None` when
/// the bytes mark an extended frame (EXIDE set) or carry extended-id bits.
pub open spec fn standard_id_of(b: Seq<u8>) -> Option<u32> {
    if b[1] & 0x08 != 0 || b[2] != 0 || b[3] != 0 {
        None
    } else {
        Some((b[0] * 8 + b[1] / 32) as u32)
    }
}

/// Inverse of [`encode_standard_id`] for standard frames.
pub fn decode_standard_id(bytes: [u8; 4]) -> (r: Option<u32>)
    ensures
        r == standard_id_of(bytes@),
{
    if bytes[1] & 0x08 != 0 || bytes[2] != 0 || bytes[3] != 0 {
        return None;
    }
    let hi = bytes[0] as u32;
    let lo = bytes[1] as u32;
    assert((hi << 3) | (lo >> 5) == hi * 8 + lo / 32) by (bit_vector)
        requires
            hi < 256,
            lo < 256,
    ;
    Some((hi << 3) | (lo >> 5))
}

/// Encoding then decoding a standard identifier gives it back.
pub proof fn lemma_standard_id_round_trip(id: u32)
    requires
        id <= 0x7FF,
    ensures
        standard_id_of(standard_id_bytes(id)) == Some(id),
{
    let b = standard_id_bytes(id);
    let lo = ((id % 8) * 32) as u8;
    assert(lo & 0x08 == 0) by (bit_vector)
        requires
            lo % 32 == 0,
    ;
}

/// Position in an SPI transaction.
#[derive(Clone, Copy, Debug, PartialEq, Eq, Structural)]
pub enum Phase {
    Instruction,
    Address,
    Data,
    BitModMask,
    BitModData,
    Status,
    Ignore,
}

/// Everything the SPI state machine acts on.
pub ghost struct McpState {
    pub regs: Seq<u8>,
    pub phase: Phase,
    pub inst: u8,
    pub addr: u8,
    pub bitmod_mask: u8,
}

/// Register file at power-on and after RESET: all zero, configuration mode
/// requested (CANCTRL = 0x87) and reported (CANSTAT = 0x80).
pub open spec fn power_on_regs() -> Seq<u8> {
    Seq::new(128, |i: int| if i == 0x0F { 0x87u8 } else if i == 0x0E { 0x80u8 } else { 0u8 })
}

/// Bit timing programmed in CNF1..CNF3 gives 500 kbit/s (±5 kbit/s) from the
/// 16 MHz oscillator (BTLMODE set; phase segment 2 from CNF3).
pub open spec fn timing_is_500k(regs: Seq<u8>) -> bool {
    let cnf1 = regs[0x2A];
    let cnf2 = regs[0x29];
    let cnf3 = regs[0x28];
    if cnf2 & 0x80 == 0 {
        false
    } else {
        let brp: int = (cnf1 & 0x3F) + 1;
        let prop: int = (cnf2 & 0x07) + 1;
        let phase1: int = ((cnf2 >> 3) & 0x07) + 1;
        let phase2: int = (cnf3 & 0x07) + 1;
        let tq: int = 1 + prop + phase1 + phase2;
        let bitrate: int = 16_000_000int / (2 * brp * tq);
        -5_000 <= bitrate - 500_000 <= 5_000
    }
}

/// The mode a CANCTRL write of `value` switches to: configuration and sleep
/// are always accepted, the active modes only with 500 kbit/s timing.
pub open spec fn accepted_mode(regs: Seq<u8>, value: u8) -> Option<OpMode> {
    match mode_of_request(value) {
        Some(m) => if m == OpMode::Config || m == OpMode::Sleep || timing_is_500k(regs) {
            Some(m)
        } else {
            None
        },
        None => None,
    }
}

/// Register file after the firmware writes `value` to `address` (the top
/// address bit is ignored). CANSTAT is read-only; a CANCTRL write requests a
/// mode: accepted, CANSTAT.OPMOD follows and MERRF clears; refused, MERRF sets.
pub open spec fn write_reg(regs: Seq<u8>, address: u8, value: u8) -> Seq<u8> {
    let a = (address % 128) as int;
    if a == 0x0E {
        regs
    } else {
        let r1 = regs.update(a, value);
        if a != 0x0F {
            r1
        } else {
            match accepted_mode(r1, value) {
                Some(m) => r1.update(0x0E, ((r1[0x0E] & 0x1F) | mode_bits(m)) as u8).update(
                    0x2C,
                    (r1[0x2C] & !0x80u8) as u8,
                ),
                None => r1.update(0x2C, (r1[0x2C] | 0x80) as u8),
            }
        }
    }
}

/// READ STATUS: RX0IF, RX1IF, then per TX buffer its TXREQ and TXnIF bits.
pub open spec fn read_status_of(regs: Seq<u8>) -> u8 {
    let intf = regs[0x2C];
    ((intf & 0x03) | (if regs[0x30] & 0x08 != 0 { 0x04u8 } else { 0u8 }) | (if intf & 0x04 != 0 {
        0x08u8
    } else {
        0u8
    }) | (if regs[0x40] & 0x08 != 0 { 0x10u8 } else { 0u8 }) | (if intf & 0x08 != 0 {
        0x20u8
    } else {
        0u8
    }) | (if regs[0x50] & 0x08 != 0 { 0x40u8 } else { 0u8 }) | (if intf & 0x10 != 0 {
        0x80u8
    } else {
        0u8
    })) as u8
}

/// RX STATUS: which receive buffers are full, and for the first full one its
/// remote-frame bit and filter hit; zero when both are empty.
pub open spec fn rx_status_of(regs: Seq<u8>) -> u8 {
    let intf = regs[0x2C];
    let rx0 = intf & 0x01 != 0;
    let rx1 = intf & 0x02 != 0;
    if !rx0 && !rx1 {
        0
    } else {
        let full = (if rx0 { 0x40u8 } else { 0u8 }) | (if rx1 { 0x80u8 } else { 0u8 });
        let sidh: int = if rx0 { 0x61 } else { 0x71 };
        let filter_hit = regs[sidh - 1] & 0x07;
        let remote = if regs[sidh + 4] & 0x40 != 0 { 0x08u8 } else { 0u8 };
        (full | remote | filter_hit) as u8
    }
}

/// SIDH address of TX buffer `index`.
pub open spec fn tx_sidh(index: int) -> u8 {
    if index == 0 { 0x31 } else if index == 1 { 0x41 } else { 0x51 }
}

/// Start address of a LOAD TX BUFFER instruction (`0x40..=0x45`).
pub open spec fn load_tx_addr(inst: u8) -> u8 {
    (tx_sidh(((inst - 0x40) / 2) as int) + (if inst % 2 == 1 { 5int } else { 0 })) as u8
}

/// Start address of a READ RX BUFFER instruction (`0x90..=0x97`).
pub open spec fn read_rx_addr(inst: u8) -> u8 {
    ((if (inst - 0x90) / 4 == 0 { 0x61int } else { 0x71 }) + (if (inst / 2) % 2 == 1 {
        5int
    } else {
        0
    })) as u8
}

pub open spec fn is_load_tx(inst: u8) -> bool {
    0x40 <= inst <= 0x45
}

pub open spec fn is_read_rx(inst: u8) -> bool {
    0x90 <= inst <= 0x97
}

/// One MOSI byte clocked in: the next state and the MISO byte clocked out.
pub open spec fn spi_step(s: McpState, mosi: u8) -> (McpState, u8) {
    match s.phase {
        Phase::Instruction => {
            let s = McpState { inst: mosi, ..s };
            if mosi == INST_RESET {
                (McpState { regs: power_on_regs(), phase: Phase::Ignore, ..s }, 0)
            } else if mosi == INST_READ || mosi == INST_WRITE || mosi == INST_BITMOD {
                (McpState { phase: Phase::Address, ..s }, 0)
            } else if mosi == INST_READ_STATUS || mosi == INST_RX_STATUS {
                (McpState { phase: Phase::Status, ..s }, 0)
            } else if mosi == 0x81 || mosi == 0x82 || mosi == 0x84 {
                let ctrl: u8 = if mosi == 0x81 { 0x30 } else if mosi == 0x82 { 0x40 } else { 0x50 };
                (
                    McpState {
                        regs: write_reg(s.regs, ctrl, (s.regs[ctrl as int] | 0x08) as u8),
                        phase: Phase::Ignore,
                        ..s
                    },
                    0,
                )
            } else if is_load_tx(mosi) {
                (McpState { addr: load_tx_addr(mosi), phase: Phase::Data, ..s }, 0)
            } else if is_read_rx(mosi) {
                (McpState { addr: read_rx_addr(mosi), phase: Phase::Data, ..s }, 0)
            } else {
                (McpState { phase: Phase::Ignore, ..s }, 0)
            }
        },
        Phase::Address => (
            McpState {
                addr: mosi,
                phase: if s.inst == INST_BITMOD { Phase::BitModMask } else { Phase::Data },
                ..s
            },
            0,
        ),
        Phase::BitModMask => (McpState { bitmod_mask: mosi, phase: Phase::BitModData, ..s }, 0),
        Phase::BitModData => {
            let cur = s.regs[(s.addr % 128) as int];
            (
                McpState {
                    regs: write_reg(
                        s.regs,
                        s.addr,
                        ((cur & !s.bitmod_mask) | (mosi & s.bitmod_mask)) as u8,
                    ),
                    phase: Phase::Ignore,
                    ..s
                },
                0,
            )
        },
        Phase::Data => {
            let miso = if s.inst == INST_READ || is_read_rx(s.inst) {
                s.regs[(s.addr % 128) as int]
            } else {
                0
            };
            let regs = if s.inst == INST_WRITE || is_load_tx(s.inst) {
                write_reg(s.regs, s.addr, mosi)
            } else {
                s.regs
            };
            (McpState { regs, addr: ((s.addr + 1) % 256) as u8, ..s }, miso)
        },
        Phase::Status => (s, if s.inst == INST_READ_STATUS {
            read_status_of(s.regs)
        } else {
            rx_status_of(s.regs)
        }),
        Phase::Ignore => (s, 0),
    }
}

/// State after chip select is released: a READ RX BUFFER transaction clears
/// the interrupt flag of the buffer it read; the next byte is an instruction.
pub open spec fn release_state(s: McpState) -> McpState {
    let regs = if is_read_rx(s.inst) {
        let buffer = (s.inst - 0x90) / 4;
        let bit: u8 = if buffer == 0 { 0x01 } else { 0x02 };
        write_reg(s.regs, 0x2C, (s.regs[0x2C] & !bit) as u8)
    } else {
        s.regs
    };
    McpState { regs, phase: Phase::Instruction, ..s }
}

/// Clocks `mosi` through the SPI state machine: the final state and the MISO
/// bytes clocked out, in order.
pub open spec fn run_spi(s: McpState, mosi: Seq<u8>) -> (McpState, Seq<u8>)
    decreases mosi.len(),
{
    if mosi.len() == 0 {
        (s, Seq::empty())
    } else {
        let (prev, out) = run_spi(s, mosi.drop_last());
        let (next, miso) = spi_step(prev, mosi.last());
        (next, out.push(miso))
    }
}

/// A chip-select-framed transaction from the start of an instruction.
pub open spec fn transaction(s: McpState, mosi: Seq<u8>) -> (McpState, Seq<u8>) {
    let (t, out) = run_spi(McpState { phase: Phase::Instruction, ..s }, mosi);
    (release_state(t), out)
}

/// Three bytes clocked from a state, step by step.
proof fn lemma_run_three(s: McpState, x: u8, y: u8, z: u8)
    ensures
        run_spi(s, seq![x, y, z]) == ({
            let (s1, m1) = spi_step(s, x);
            let (s2, m2) = spi_step(s1, y);
            let (s3, m3) = spi_step(s2, z);
            (s3, seq![m1, m2, m3])
        }),
{
    let w = seq![x, y, z];
    assert(w.drop_last() =~= seq![x, y]);
    assert(seq![x, y].drop_last() =~= seq![x]);
    assert(seq![x].drop_last() =~= Seq::<u8>::empty());
    let (s1, m1) = spi_step(s, x);
    let (s2, m2) = spi_step(s1, y);
    let (s3, m3) = spi_step(s2, z);
    assert(run_spi(s, Seq::<u8>::empty()) == (s, Seq::<u8>::empty()));
    assert(run_spi(s, seq![x]) == (s1, Seq::<u8>::empty().push(m1)));
    assert(Seq::<u8>::empty().push(m1) =~= seq![m1]);
    assert(run_spi(s, seq![x, y]) == (s2, seq![m1].push(m2)));
    assert(seq![m1].push(m2) =~= seq![m1, m2]);
    assert(seq![m1, m2].push(m3) =~= seq![m1, m2, m3]);
}

/// A register written with `WRITE` reads back with `READ`, except the
/// read-only `CANSTAT` and the mode-request register `CANCTRL`.
pub proof fn lemma_write_then_read(s: McpState, address: u8, value: u8)
    requires
        s.regs.len() == 128,
        address < 128,
        address != REG_CANSTAT,
        address != REG_CANCTRL,
    ensures
        ({
            let (t, _) = transaction(s, seq![INST_WRITE, address, value]);
            let (_, out) = transaction(t, seq![INST_READ, address, 0u8]);
            out[2] == value
        }),
{
    let s0 = McpState { phase: Phase::Instruction, ..s };
    lemma_run_three(s0, INST_WRITE, address, value);
    let (t0, _) = run_spi(s0, seq![INST_WRITE, address, value]);
    assert(t0.regs == s.regs.update(address as int, value));
    let t = release_state(t0);
    assert(t.regs == t0.regs);
    let u0 = McpState { phase: Phase::Instruction, ..t };
    lemma_run_three(u0, INST_READ, address, 0u8);
}

/// A `CANCTRL` write that is refused (an active mode without 500 kbit/s
/// timing, or an undefined mode) leaves `CANSTAT` as it was and raises
/// `MERRF`; an accepted one reports the mode in `CANSTAT.OPMOD` and clears
/// `MERRF`.
pub proof fn lemma_canctrl_write(regs: Seq<u8>, value: u8)
    requires
        regs.len() == 128,
    ensures
        accepted_mode(regs.update(0x0F, value), value) is None ==> {
            &&& write_reg(regs, REG_CANCTRL, value)[0x0E] == regs[0x0E]
            &&& write_reg(regs, REG_CANCTRL, value)[0x2C] == regs[0x2C] | CANINTF_MERRF
        },
        accepted_mode(regs.update(0x0F, value), value) matches Some(m) ==> {
            &&& write_reg(regs, REG_CANCTRL, value)[0x0E] == (regs[0x0E] & 0x1F) | mode_bits(m)
            &&& write_reg(regs, REG_CANCTRL, value)[0x2C] == regs[0x2C] & !CANINTF_MERRF
        },
        write_reg(regs, REG_CANCTRL, value)[0x0F] == value,
{
}

/// A `WRITE` transaction to `CANCTRL` stores the request and applies the
/// mode law of [`lemma_canctrl_write`] to `CANSTAT` and `CANINTF.MERRF`.
pub proof fn lemma_canctrl_transaction(s: McpState, value: u8)
    requires
        s.regs.len() == 128,
    ensures
        ({
            let (t, _) = transaction(s, seq![INST_WRITE, REG_CANCTRL, value]);
            &&& t.regs.len() == 128
            &&& t.regs[0x0F] == value
            &&& accepted_mode(s.regs.update(0x0F, value), value) is None ==> {
                &&& t.regs[0x0E] == s.regs[0x0E]
                &&& t.regs[0x2C] == s.regs[0x2C] | CANINTF_MERRF
            }
            &&& accepted_mode(s.regs.update(0x0F, value), value) matches Some(m) ==> {
                &&& t.regs[0x0E] == (s.regs[0x0E] & 0x1F) | mode_bits(m)
                &&& t.regs[0x2C] == s.regs[0x2C] & !CANINTF_MERRF
            }
        }),
{
    let s0 = McpState { phase: Phase::Instruction, ..s };
    lemma_run_three(s0, INST_WRITE, REG_CANCTRL, value);
    lemma_canctrl_write(s.regs, value);
}

/// Configuration and sleep requests are always accepted.
pub proof fn lemma_config_always_accepted(regs: Seq<u8>, value: u8)
    requires
        mode_of_request(value) == Some(OpMode::Config) || mode_of_request(value) == Some(
            OpMode::Sleep,
        ),
    ensures
        accepted_mode(regs, value) == mode_of_request(value),
{
}

/// Running two byte strings is running their concatenation.
pub proof fn lemma_run_spi_append(s: McpState, a: Seq<u8>, b: Seq<u8>)
    ensures
        run_spi(s, a + b) == ({
            let (t, out_a) = run_spi(s, a);
            let (u, out_b) = run_spi(t, b);
            (u, out_a + out_b)
        }),
    decreases b.len(),
{
    if b.len() == 0 {
        assert(a + b =~= a);
        let (t, out_a) = run_spi(s, a);
        assert(out_a + Seq::<u8>::empty() =~= out_a);
    } else {
        assert((a + b).drop_last() =~= a + b.drop_last());
        assert((a + b).last() == b.last());
        lemma_run_spi_append(s, a, b.drop_last());
        let (t, out_a) = run_spi(s, a);
        let (u1, out_b1) = run_spi(t, b.drop_last());
        let (u, miso) = spi_step(u1, b.last());
        assert((out_a + out_b1).push(miso) =~= out_a + out_b1.push(miso));
    }
}

/// The data bytes of a `LOAD TX BUFFER` land in consecutive registers from
/// the buffer's start address; nothing else changes.
pub proof fn lemma_load_tx_data(s: McpState, bytes: Seq<u8>)
    requires
        s.phase == Phase::Data,
        is_load_tx(s.inst),
        s.regs.len() == 128,
        0x10 <= s.addr,
        s.addr + bytes.len() <= 128,
    ensures
        ({
            let (t, _) = run_spi(s, bytes);
            &&& t.regs.len() == 128
            &&& t.phase == Phase::Data
            &&& t.inst == s.inst
            &&& t.addr == s.addr + bytes.len()
            &&& forall|i: int| 0 <= i < bytes.len() ==> #[trigger] t.regs[s.addr + i] == bytes[i]
            &&& forall|j: int|
                0 <= j < 128 && !(s.addr <= j < s.addr + bytes.len()) ==> #[trigger] t.regs[j]
                    == s.regs[j]
        }),
    decreases bytes.len(),
{
    if bytes.len() > 0 {
        lemma_load_tx_data(s, bytes.drop_last());
        let (t1, _) = run_spi(s, bytes.drop_last());
        let (t, _) = run_spi(s, bytes);
        assert(t1.addr < 128);
        assert(t.regs == t1.regs.update(t1.addr as int, bytes.last()));
    }
}

/// `RTS` for TX buffer 0 sets its `TXREQ` bit and leaves the other
/// registers but the interrupt flags alone.
pub proof fn lemma_rts_tx0(s: McpState)
    requires
        s.regs.len() == 128,
    ensures
        ({
            let (t, _) = transaction(s, seq![0x81u8]);
            &&& t.regs[0x30] == s.regs[0x30] | TXREQ
            &&& forall|j: int| 0x31 <= j < 0x3E ==> #[trigger] t.regs[j] == s.regs[j]
        }),
{
    reveal_with_fuel(run_spi, 2);
    assert(seq![0x81u8].drop_last() =~= Seq::<u8>::empty());
}

/// Why attaching the controller to a CAN bus was refused.
#[derive(Debug, Clone, Copy, PartialEq, Eq)]
pub enum AttachError {
    /// The controller is already attached to a bus.
    AlreadyAttached,
}

#[verifier::external_type_specification]
#[verifier::external_body]
#[verifier::reject_recursive_types(T)]
pub struct ExSender<T>(std::sync::mpsc::Sender<T>);

#[verifier::external_type_specification]
#[verifier::external_body]
#[verifier::reject_recursive_types(T)]
pub struct ExReceiver<T>(std::sync::mpsc::Receiver<T>);

/// The MCP2515 register shell, an SPI device selected by `cs_pin`.
pub struct Mcp2515 {
    cs_pin: String,
    regs: [u8; 128],
    phase: Phase,
    inst: u8,
    addr: u8,
    bitmod_mask: u8,
    component_id: Option<String>,
    bus_tx: Option<std::sync::mpsc::Sender<CanFrame>>,
    bus_rx: Option<std::sync::mpsc::Receiver<CanFrame>>,
}

impl Mcp2515 {
    /// The state the SPI state machine acts on.
    pub closed spec fn state(&self) -> McpState {
        McpState {
            regs: self.regs@,
            phase: self.phase,
            inst: self.inst,
            addr: self.addr,
            bitmod_mask: self.bitmod_mask,
        }
    }

    /// The register file always holds the chip's 128 registers.
    pub proof fn lemma_regs_len(&self)
        ensures
            self.state().regs.len() == 128,
    {
    }

    /// The chip-select pin label.
    pub closed spec fn cs_pin_view(&self) -> Seq<char> {
        self.cs_pin@
    }

    /// The component id stamped at attach time.
    pub closed spec fn component_id_view(&self) -> Option<Seq<char>> {
        match self.component_id {
            Some(s) => Some(s@),
            None => None,
        }
    }

    /// Attached to a CAN bus.
    pub closed spec fn bus_attached(&self) -> bool {
        self.bus_tx is Some || self.bus_rx is Some
    }

    /// Receives from a CAN bus (the bus must poll it).
    pub closed spec fn bus_receiving(&self) -> bool {
        self.bus_rx is Some
    }

    /// Power-on device in configuration mode, waiting for an instruction.
    pub fn new(cs_pin: &str) -> (r: Self)
        ensures
            r.state() == (McpState {
                regs: power_on_regs(),
                phase: Phase::Instruction,
                inst: 0,
                addr: 0,
                bitmod_mask: 0,
            }),
            r.cs_pin_view() == cs_pin@,
            r.component_id_view() is None,
            !r.bus_attached(),
    {
        let mut regs = [0u8; 128];
        regs[REG_CANCTRL as usize] = 0x87;
        regs[REG_CANSTAT as usize] = 0x80;
        assert(regs@ =~= power_on_regs());
        Self {
            cs_pin: String::from_str(cs_pin),
            regs,
            phase: Phase::Instruction,
            inst: 0,
            addr: 0,
            bitmod_mask: 0,
            component_id: None,
            bus_tx: None,
            bus_rx: None,
        }
    }

    /// Stamps the manifest id of this device.
    pub fn set_component_id(&mut self, id: &str)
        ensures
            final(self).state() == old(self).state(),
            final(self).cs_pin_view() == old(self).cs_pin_view(),
            final(self).component_id_view() == Some(id@),
            final(self).bus_attached() == old(self).bus_attached(),
            final(self).bus_receiving() == old(self).bus_receiving(),
    {
        self.component_id = Some(String::from_str(id));
    }

    fn reset(&mut self)
        ensures
            final(self).state() == (McpState { regs: power_on_regs(), ..old(self).state() }),
            final(self).cs_pin_view() == old(self).cs_pin_view(),
            final(self).component_id_view() == old(self).component_id_view(),
            final(self).bus_attached() == old(self).bus_attached(),
            final(self).bus_receiving() == old(self).bus_receiving(),
    {
        self.regs = [0; 128];
        self.regs[REG_CANCTRL as usize] = 0x87;
        self.regs[REG_CANSTAT as usize] = OpMode::Config.bits();
        assert(self.regs@ =~= power_on_regs());
    }

    fn timing_is_500k(&self) -> (r: bool)
        ensures
            r == timing_is_500k(self.regs@),
    {
        let cnf1 = self.regs[REG_CNF1 as usize];
        let cnf2 = self.regs[REG_CNF2 as usize];
        let cnf3 = self.regs[REG_CNF3 as usize];
        if cnf2 & 0x80 == 0 {
            return false;
        }
        assert(cnf1 & 0x3F <= 63 && cnf2 & 0x07 <= 7 && (cnf2 >> 3) & 0x07 <= 7 && cnf3 & 0x07 <= 7)
            by (bit_vector);
        let brp = (cnf1 & 0x3F) as u32 + 1;
        let prop = (cnf2 & 0x07) as u32 + 1;
        let phase1 = ((cnf2 >> 3) & 0x07) as u32 + 1;
        let phase2 = (cnf3 & 0x07) as u32 + 1;
        let tq = 1 + prop + phase1 + phase2;
        assert(2 * brp * tq <= 3200 && 2 * brp * tq >= 8) by (nonlinear_arith)
            requires
                1 <= brp <= 64,
                4 <= tq <= 25,
        ;
        let bitrate = 16_000_000 / (2 * brp * tq);
        let diff = if bitrate >= 500_000 {
            bitrate - 500_000
        } else {
            500_000 - bitrate
        };
        diff <= 5_000
    }

    fn write_register(&mut self, address: u8, value: u8)
        ensures
            final(self).state() == (McpState {
                regs: write_reg(old(self).regs@, address, value),
                ..old(self).state()
            }),
            final(self).cs_pin_view() == old(self).cs_pin_view(),
            final(self).component_id_view() == old(self).component_id_view(),
            final(self).bus_attached() == old(self).bus_attached(),
            final(self).bus_receiving() == old(self).bus_receiving(),
    {
        let masked = address & 0x7F;
        assert(masked == address % 128) by (bit_vector)
            requires
                masked == address & 0x7F,
        ;
        let address = masked;
        if address == REG_CANSTAT {
            return;
        }
        self.regs[address as usize] = value;
        if address != REG_CANCTRL {
            return;
        }
        let requested = OpMode::from_request(value);
        let accepted = match requested {
            Some(mode) => {
                if mode == OpMode::Config || mode == OpMode::Sleep || self.timing_is_500k() {
                    Some(mode)
                } else {
                    None
                }
            },
            None => None,
        };
        match accepted {
            Some(mode) => {
                self.regs[REG_CANSTAT as usize] = (self.regs[REG_CANSTAT as usize] & 0x1F)
                    | mode.bits();
                self.regs[REG_CANINTF as usize] = self.regs[REG_CANINTF as usize]
                    & !CANINTF_MERRF;
            },
            None => {
                self.regs[REG_CANINTF as usize] = self.regs[REG_CANINTF as usize]
                    | CANINTF_MERRF;
            },
        }
    }

    fn read_status(&self) -> (r: u8)
        ensures
            r == read_status_of(self.regs@),
    {
        let intf = self.regs[REG_CANINTF as usize];
        let mut status = intf & 0x03;
        if self.regs[REG_TXB0CTRL as usize] & TXREQ != 0 {
            status = status | 0x04;
        } else {
            status = status | 0;
        }
        if intf & CANINTF_TX0IF != 0 {
            status = status | 0x08;
        } else {
            status = status | 0;
        }
        if self.regs[REG_TXB1CTRL as usize] & TXREQ != 0 {
            status = status | 0x10;
        } else {
            status = status | 0;
        }
        if intf & 0x08 != 0 {
            status = status | 0x20;
        } else {
            status = status | 0;
        }
        if self.regs[REG_TXB2CTRL as usize] & TXREQ != 0 {
            status = status | 0x40;
        } else {
            status = status | 0;
        }
        if intf & 0x10 != 0 {
            status = status | 0x80;
        } else {
            status = status | 0;
        }
        status
    }

    fn rx_status(&self) -> (r: u8)
        ensures
            r == rx_status_of(self.regs@),
    {
        let intf = self.regs[REG_CANINTF as usize];
        let rx0 = intf & CANINTF_RX0IF != 0;
        let rx1 = intf & CANINTF_RX1IF != 0;
        let full = (if rx0 {
            0x40u8
        } else {
            0u8
        }) | (if rx1 {
            0x80u8
        } else {
            0u8
        });
        let sidh: usize = if rx0 {
            REG_RXB0SIDH as usize
        } else if rx1 {
            REG_RXB1SIDH as usize
        } else {
            return 0;
        };
        let filter_hit = self.regs[sidh - 1] & 0x07;
        let standard_remote = if self.regs[sidh + 4] & 0x40 != 0 {
            0x08u8
        } else {
            0u8
        };
        full | standard_remote | filter_hit
    }

    /// Whether the bus must poll this device for received frames.
    pub fn needs_external_bus_poll(&self) -> (r: bool)
        ensures
            r == self.bus_receiving(),
    {
        self.bus_rx.is_some()
    }

    /// The id stamped at attach time, if any.
    pub fn component_id(&self) -> (r: Option<&str>)
        ensures
            match self.component_id_view() {
                Some(v) => r matches Some(s) && s@ == v,
                None => r is None,
            },
    {
        match &self.component_id {
            Some(s) => Some(s.as_str()),
            None => None,
        }
    }

    /// Connects the controller to a CAN bus; refused when already connected.
    pub fn attach_can_bus(
        &mut self,
        tx: std::sync::mpsc::Sender<CanFrame>,
        rx: std::sync::mpsc::Receiver<CanFrame>,
    ) -> (r: Result<(), AttachError>)
        ensures
            old(self).bus_attached() ==> r == Err::<(), AttachError>(AttachError::AlreadyAttached)
                && final(self).bus_attached() && final(self).bus_receiving() == old(
                self,
            ).bus_receiving(),
            !old(self).bus_attached() ==> r is Ok && final(self).bus_attached()
                && final(self).bus_receiving(),
            final(self).state() == old(self).state(),
            final(self).cs_pin_view() == old(self).cs_pin_view(),
            final(self).component_id_view() == old(self).component_id_view(),
    {
        if self.bus_tx.is_some() || self.bus_rx.is_some() {
            return Err(AttachError::AlreadyAttached);
        }
        self.bus_tx = Some(tx);
        self.bus_rx = Some(rx);
        Ok(())
    }

    /// The chip-select pin label.
    pub fn cs_pin(&self) -> (r: &str)
        ensures
            r@ == self.cs_pin_view(),
    {
        self.cs_pin.as_str()
    }

    /// Chip select asserted: the next byte is an instruction.
    pub fn cs_select(&mut self)
        ensures
            final(self).state() == (McpState { phase: Phase::Instruction, ..old(self).state() }),
            final(self).cs_pin_view() == old(self).cs_pin_view(),
            final(self).component_id_view() == old(self).component_id_view(),
            final(self).bus_attached() == old(self).bus_attached(),
            final(self).bus_receiving() == old(self).bus_receiving(),
    {
        self.phase = Phase::Instruction;
    }

    /// Chip select released (see [`release_state`]).
    pub fn cs_release(&mut self)
        ensures
            final(self).state() == release_state(old(self).state()),
            final(self).cs_pin_view() == old(self).cs_pin_view(),
            final(self).component_id_view() == old(self).component_id_view(),
            final(self).bus_attached() == old(self).bus_attached(),
            final(self).bus_receiving() == old(self).bus_receiving(),
    {
        if 0x90 <= self.inst && self.inst <= 0x97 {
            let buffer = (self.inst - 0x90) / 4;
            let bit: u8 = if buffer == 0 {
                0x01
            } else {
                0x02
            };
            let intf = self.regs[REG_CANINTF as usize] & !bit;
            self.write_register(REG_CANINTF, intf);
        }
        self.phase = Phase::Instruction;
    }

    /// Clocks one byte: MOSI in, MISO out (see [`spi_step`]).
    pub fn transfer(&mut self, mosi: u8) -> (miso: u8)
        ensures
            (final(self).state(), miso) == spi_step(old(self).state(), mosi),
            final(self).cs_pin_view() == old(self).cs_pin_view(),
            final(self).component_id_view() == old(self).component_id_view(),
            final(self).bus_attached() == old(self).bus_attached(),
            final(self).bus_receiving() == old(self).bus_receiving(),
    {
        match self.phase {
            Phase::Instruction => {
                self.inst = mosi;
                if mosi == INST_RESET {
                    self.reset();
                    self.phase = Phase::Ignore;
                    0
                } else if mosi == INST_READ || mosi == INST_WRITE || mosi == INST_BITMOD {
                    self.phase = Phase::Address;
                    0
                } else if mosi == INST_READ_STATUS || mosi == INST_RX_STATUS {
                    self.phase = Phase::Status;
                    0
                } else if mosi == 0x81 || mosi == 0x82 || mosi == 0x84 {
                    let ctrl: u8 = if mosi == 0x81 {
                        REG_TXB0CTRL
                    } else if mosi == 0x82 {
                        REG_TXB1CTRL
                    } else {
                        REG_TXB2CTRL
                    };
                    let v = self.regs[ctrl as usize] | TXREQ;
                    self.write_register(ctrl, v);
                    self.phase = Phase::Ignore;
                    0
                } else if 0x40 <= mosi && mosi <= 0x45 {
                    let index = (mosi - 0x40) / 2;
                    let base: u8 = if index == 0 {
                        REG_TXB0SIDH
                    } else if index == 1 {
                        REG_TXB1SIDH
                    } else {
                        REG_TXB2SIDH
                    };
                    self.addr = base + if mosi & 1 != 0 {
                        5
                    } else {
                        0
                    };
                    assert(mosi & 1 == mosi % 2) by (bit_vector);
                    self.phase = Phase::Data;
                    0
                } else if 0x90 <= mosi && mosi <= 0x97 {
                    let index = (mosi - 0x90) / 4;
                    let base: u8 = if index == 0 {
                        REG_RXB0SIDH
                    } else {
                        REG_RXB1SIDH
                    };
                    self.addr = base + if mosi & 2 != 0 {
                        5
                    } else {
                        0
                    };
                    assert((mosi & 2 != 0) == ((mosi / 2) % 2 == 1)) by (bit_vector);
                    self.phase = Phase::Data;
                    0
                } else {
                    self.phase = Phase::Ignore;
                    0
                }
            },
            Phase::Address => {
                self.addr = mosi;
                self.phase = if self.inst == INST_BITMOD {
                    Phase::BitModMask
                } else {
                    Phase::Data
                };
                0
            },
            Phase::BitModMask => {
                self.bitmod_mask = mosi;
                self.phase = Phase::BitModData;
                0
            },
            Phase::BitModData => {
                let idx = self.addr as usize % 128;
                let cur = self.regs[idx];
                let v = (cur & !self.bitmod_mask) | (mosi & self.bitmod_mask);
                let a = self.addr;
                self.write_register(a, v);
                self.phase = Phase::Ignore;
                0
            },
            Phase::Data => {
                let idx = self.addr as usize % 128;
                let miso = if self.inst == INST_READ || (0x90 <= self.inst && self.inst <= 0x97) {
                    self.regs[idx]
                } else {
                    0
                };
                if self.inst == INST_WRITE || (0x40 <= self.inst && self.inst <= 0x45) {
                    let a = self.addr;
                    self.write_register(a, mosi);
                }
                self.addr = self.addr.wrapping_add(1);
                miso
            },
            Phase::Status => {
                if self.inst == INST_READ_STATUS {
                    self.read_status()
                } else {
                    self.rx_status()
                }
            },
            Phase::Ignore => 0,
        }
    }
}

/// The catalog entry that builds an MCP2515 from a manifest declaration.
pub struct Mcp2515Kit;

impl Mcp2515Kit {
    /// A device for a declaration with optional `cs_pin` (default `PA4`),
    /// stamped with the declaration's id.
    pub fn build(cs_pin: Option<&str>, device_id: &str) -> (r: Mcp2515)
        ensures
            r.state() == (McpState {
                regs: power_on_regs(),
                phase: Phase::Instruction,
                inst: 0,
                addr: 0,
                bitmod_mask: 0,
            }),
            match cs_pin {
                Some(p) => r.cs_pin_view() == p@,
                None => r.cs_pin_view() == "PA4"@,
            },
            r.component_id_view() == Some(device_id@),
            !r.bus_attached(),
    {
        let cs = match cs_pin {
            Some(p) => p,
            None => "PA4",
        };
        let mut dev = Mcp2515::new(cs);
        dev.set_component_id(device_id);
        dev
    }
}

} // verus!
