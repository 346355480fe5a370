//! The scanner's MCP2515 driver (16 MHz oscillator, 500 kbit/s CAN): the SPI
//! transfers each operation performs and how their replies are read.
//!
//! Clocking a transfer through the SPIM peripheral is memory-mapped I/O
//! outside this library; the caller performs each transfer built here and
//! hands the received bytes back (a transfer that times out is
//! [`Error::Timeout`]).
use vstd::prelude::*;

use super::obd2::CanFrame;
use crate::peripherals::mcp2515::{
    is_load_tx, lemma_load_tx_data, lemma_run_spi_append, run_spi, spi_step, transaction, McpState,
    Phase,
};

verus! {

/// `RESET` instruction.
pub const RESET: u8 = 0xc0;

/// `READ` instruction.
pub const READ: u8 = 0x03;

/// `WRITE` instruction.
pub const WRITE: u8 = 0x02;

/// `BIT MODIFY` instruction.
pub const BIT_MODIFY: u8 = 0x05;

/// `LOAD TX BUFFER` instruction for TXB0, starting at `TXB0SIDH`.
pub const LOAD_TX0: u8 = 0x40;

/// `RTS` instruction for TXB0.
pub const RTS_TX0: u8 = 0x81;

/// `READ RX BUFFER` instruction for RXB0, starting at `RXB0SIDH`.
pub const READ_RX0: u8 = 0x90;

/// `READ RX BUFFER` instruction for RXB1, starting at `RXB1SIDH`.
pub const READ_RX1: u8 = 0x94;

/// `CANINTF` register.
pub const CANINTF: u8 = 0x2c;

/// `EFLG` register.
pub const EFLG: u8 = 0x1d;

/// `CANSTAT` register.
pub const CANSTAT: u8 = 0x0e;

/// Why a driver operation failed.
#[derive(Clone, Copy, Debug, PartialEq, Eq)]
pub enum Error {
    /// An SPI transfer did not complete.
    Timeout,
    /// The controller did not reach normal mode after configuration.
    Configuration,
    /// A received frame claimed more than eight data bytes.
    Overflow,
    /// No receive buffer is full.
    NoFrame,
}

/// `SIDH` of an 11-bit identifier: bits 10..3 (the identifier is masked to
/// 11 bits first).
pub open spec fn sidh_of(id: u16) -> u8 {
    ((id % 2048) / 8) as u8
}

/// `SIDL` of an 11-bit identifier: bits 2..0 in bits 7..5.
pub open spec fn sidl_of(id: u16) -> u8 {
    ((id % 8) * 32) as u8
}

/// The `SIDH`/`SIDL` bytes computed with shifts of the masked identifier.
proof fn lemma_sid_bytes(id: u16)
    by (bit_vector)
    ensures
        ((id & 0x7ff) >> 3u16) as u8 == ((id % 2048) / 8) as u8,
        ((id & 0x7ff) << 5u16) as u8 == ((id % 8) * 32) as u8,
{
}

/// The frame received in an `RXBnSIDH`-first buffer image.
pub open spec fn frame_of_rx(rx: Seq<u8>) -> Result<CanFrame, Error> {
    if rx[5] % 16 > 8 {
        Err(Error::Overflow)
    } else {
        Ok(
            CanFrame {
                id: (rx[1] as int * 8 + rx[2] as int / 32) as u16,
                len: (rx[5] % 16) as u8,
                data: [rx[6], rx[7], rx[8], rx[9], rx[10], rx[11], rx[12], rx[13]],
            },
        )
    }
}

/// The `LOAD TX BUFFER` transfer [`Mcp2515::send`] builds for `frame`.
pub open spec fn tx_packet(frame: CanFrame) -> Seq<u8> {
    seq![LOAD_TX0, sidh_of(frame.id), sidl_of(frame.id), 0u8, 0u8, if frame.len < 8 {
        frame.len
    } else {
        8u8
    }] + frame.data@
}

/// The buffer image that transfer writes, read back as a received frame,
/// is the frame with its identifier cut to 11 bits and its length capped at 8.
pub proof fn lemma_tx_image_round_trip(frame: CanFrame)
    ensures
        frame_of_rx(tx_packet(frame)) == Ok::<CanFrame, Error>(
            CanFrame {
                id: (frame.id % 2048) as u16,
                len: if frame.len < 8 {
                    frame.len
                } else {
                    8u8
                },
                data: frame.data,
            },
        ),
{
    let p = tx_packet(frame);
    let dlc: u8 = if frame.len < 8 {
        frame.len
    } else {
        8u8
    };
    assert(p[1] == sidh_of(frame.id) && p[2] == sidl_of(frame.id) && p[5] == dlc);
    assert(dlc % 16 == dlc);
    let id = frame.id;
    assert(((id % 2048) / 8) as u8 as int * 8 + (((id % 8) * 32) as u8) as int / 32 == id % 2048)
        by (nonlinear_arith);
    let data: [u8; 8] = [p[6], p[7], p[8], p[9], p[10], p[11], p[12], p[13]];
    assert(data@ =~= frame.data@);
    assert(data =~= frame.data);
}

/// Clocked into the controller model, the driver's `LOAD TX BUFFER` transfer
/// leaves the identifier, DLC and data bytes in TXB0 (`0x31..0x3D`) exactly
/// as the transfer carried them.
pub proof fn lemma_send_loads_txb0(s: McpState, frame: CanFrame)
    requires
        s.regs.len() == 128,
    ensures
        ({
            let (t, _) = transaction(s, tx_packet(frame));
            forall|k: int| 0 <= k < 13 ==> #[trigger] t.regs[0x31 + k] == tx_packet(frame)[1 + k]
        }),
{
    let p = tx_packet(frame);
    let rest = p.subrange(1, 14);
    assert(p =~= seq![LOAD_TX0] + rest);
    let s0 = McpState { phase: Phase::Instruction, ..s };
    lemma_run_spi_append(s0, seq![LOAD_TX0], rest);
    assert(seq![LOAD_TX0].drop_last() =~= Seq::<u8>::empty());
    assert(run_spi(s0, Seq::<u8>::empty()) == (s0, Seq::<u8>::empty()));
    let (s1, _) = run_spi(s0, seq![LOAD_TX0]);
    assert(s1 == spi_step(s0, LOAD_TX0).0);
    assert(is_load_tx(LOAD_TX0));
    assert(s1.addr == 0x31 && s1.phase == Phase::Data && s1.inst == LOAD_TX0);
    lemma_load_tx_data(s1, rest);
}

/// The transfers that fetch one received frame.
#[derive(Clone, Copy, Debug, PartialEq, Eq)]
pub struct RxPlan {
    /// `READ RX BUFFER` of the full buffer, 14 bytes clocked.
    pub read: [u8; 14],
    /// `BIT MODIFY` clearing the buffer's `CANINTF` bit.
    pub clear: [u8; 4],
}

/// The transfers of the controller's initialisation, in order: reset; the
/// configuration-mode request and bit timing (CNF1 = 0x00, CNF2 = 0x90,
/// CNF3 = 0x02); both receive masks set to the full 11-bit identifier; all six
/// filters set to the ECU response identifier `0x7e8`; RXB0 with rollover and
/// RXB1 standard-filtered; RX interrupts enabled; the normal-mode request;
/// then a read of `CANSTAT` for [`Mcp2515::check_normal_mode`].
#[derive(Clone, Copy, Debug, PartialEq, Eq)]
pub struct InitSequence {
    pub reset: [u8; 1],
    pub timing: [[u8; 3]; 4],
    pub masks: [[u8; 6]; 2],
    pub filters: [[u8; 6]; 6],
    pub modes: [[u8; 3]; 4],
    pub canstat: [u8; 3],
}

/// The MCP2515 on the scanner's SPI bus.
#[derive(Clone, Copy, Debug, PartialEq, Eq)]
pub struct Mcp2515;

impl Mcp2515 {
    /// The driver; it holds no state of its own.
    pub fn new() -> (r: Self)
        ensures
            r == Mcp2515,
    {
        Mcp2515
    }

    /// The initialisation transfers.
    pub fn init_sequence(&self) -> (r: InitSequence)
        ensures
            r.reset@ == seq![RESET],
            r.timing@[0]@ == seq![WRITE, 0x0fu8, 0x80u8],
            r.timing@[1]@ == seq![WRITE, 0x2au8, 0x00u8],
            r.timing@[2]@ == seq![WRITE, 0x29u8, 0x90u8],
            r.timing@[3]@ == seq![WRITE, 0x28u8, 0x02u8],
            r.masks@[0]@ == seq![WRITE, 0x20u8, sidh_of(0x7ff), sidl_of(0x7ff), 0u8, 0u8],
            r.masks@[1]@ == seq![WRITE, 0x24u8, sidh_of(0x7ff), sidl_of(0x7ff), 0u8, 0u8],
            forall|k: int|
                0 <= k < 6 ==> (#[trigger] r.filters@[k])@ == seq![
                    WRITE,
                    seq![0x00u8, 0x04, 0x08, 0x10, 0x14, 0x18][k],
                    sidh_of(0x7e8),
                    sidl_of(0x7e8),
                    0u8,
                    0u8,
                ],
            r.modes@[0]@ == seq![WRITE, 0x60u8, 0x04u8],
            r.modes@[1]@ == seq![WRITE, 0x70u8, 0x00u8],
            r.modes@[2]@ == seq![WRITE, 0x2bu8, 0x03u8],
            r.modes@[3]@ == seq![WRITE, 0x0fu8, 0x00u8],
            r.canstat@ == seq![READ, CANSTAT, 0u8],
    {
        let reset = [RESET];
        assert(reset@ =~= seq![RESET]);
        let timing = [self.write(0x0f, 0x80), self.write(0x2a, 0x00), self.write(0x29, 0x90), self.write(0x28, 0x02)];
        let masks = [self.write_standard_id(0x20, 0x7ff), self.write_standard_id(0x24, 0x7ff)];
        let filters = [
            self.write_standard_id(0x00, 0x7e8),
            self.write_standard_id(0x04, 0x7e8),
            self.write_standard_id(0x08, 0x7e8),
            self.write_standard_id(0x10, 0x7e8),
            self.write_standard_id(0x14, 0x7e8),
            self.write_standard_id(0x18, 0x7e8),
        ];
        let modes = [self.write(0x60, 0x04), self.write(0x70, 0x00), self.write(0x2b, 0x03), self.write(0x0f, 0x00)];
        let canstat = self.read(CANSTAT);
        let r = InitSequence { reset, timing, masks, filters, modes, canstat };
        assert forall|k: int| 0 <= k < 6 implies (#[trigger] r.filters@[k])@ == seq![
            WRITE,
            seq![0x00u8, 0x04, 0x08, 0x10, 0x14, 0x18][k],
            sidh_of(0x7e8),
            sidl_of(0x7e8),
            0u8,
            0u8,
        ] by {
            if k == 0 {
            } else if k == 1 {
            } else if k == 2 {
            } else if k == 3 {
            } else if k == 4 {
            } else {
            }
        }
        r
    }

    /// `READ address`: three bytes clocked, the value arrives in the third.
    pub fn read(&self, address: u8) -> (r: [u8; 3])
        ensures
            r@ == seq![READ, address, 0u8],
    {
        let r = [READ, address, 0];
        assert(r@ =~= seq![READ, address, 0u8]);
        r
    }

    /// The register value in the reply to [`Self::read`].
    pub fn read_reply(rx: &[u8; 3]) -> (r: u8)
        ensures
            r == rx@[2],
    {
        rx[2]
    }

    /// `WRITE address value`.
    pub fn write(&self, address: u8, value: u8) -> (r: [u8; 3])
        ensures
            r@ == seq![WRITE, address, value],
    {
        let r = [WRITE, address, value];
        assert(r@ =~= seq![WRITE, address, value]);
        r
    }

    /// `BIT MODIFY address mask value`.
    pub fn bit_modify(&self, address: u8, mask: u8, value: u8) -> (r: [u8; 4])
        ensures
            r@ == seq![BIT_MODIFY, address, mask, value],
    {
        let r = [BIT_MODIFY, address, mask, value];
        assert(r@ =~= seq![BIT_MODIFY, address, mask, value]);
        r
    }

    /// Reads `CANINTF`.
    pub fn interrupt_flags(&self) -> (r: [u8; 3])
        ensures
            r@ == seq![READ, CANINTF, 0u8],
    {
        self.read(CANINTF)
    }

    /// Clears the two receive-overflow bits of `EFLG`.
    pub fn clear_overflow(&self) -> (r: [u8; 4])
        ensures
            r@ == seq![BIT_MODIFY, EFLG, 0xc0u8, 0u8],
    {
        self.bit_modify(EFLG, 0xc0, 0)
    }

    /// `WRITE` of a standard identifier into a `SIDH`/`SIDL` pair, with the
    /// extended-identifier bytes cleared.
    pub fn write_standard_id(&self, address: u8, id: u16) -> (r: [u8; 6])
        ensures
            r@ == seq![WRITE, address, sidh_of(id), sidl_of(id), 0u8, 0u8],
    {
        proof {
            lemma_sid_bytes(id);
        }
        let masked = id & 0x7ff;
        let r = [WRITE, address, (masked >> 3u16) as u8, (masked << 5u16) as u8, 0, 0];
        assert(r@ =~= seq![WRITE, address, sidh_of(id), sidl_of(id), 0u8, 0u8]);
        r
    }

    /// Loads `frame` into TXB0 (identifier masked to 11 bits, length capped at
    /// 8), then requests its transmission: two transfers.
    pub fn send(&self, frame: &CanFrame) -> (r: ([u8; 14], [u8; 1]))
        ensures
            r.0@ == seq![LOAD_TX0, sidh_of(frame.id), sidl_of(frame.id), 0u8, 0u8, if frame.len
                < 8 {
                frame.len
            } else {
                8u8
            }] + frame.data@,
            r.1@ == seq![RTS_TX0],
    {
        let fid = frame.id;
        proof {
            lemma_sid_bytes(fid);
        }
        let id = fid & 0x7ff;
        let len = if frame.len < 8 {
            frame.len
        } else {
            8
        };
        let d = frame.data;
        let packet = [
            LOAD_TX0,
            (id >> 3u16) as u8,
            (id << 5u16) as u8,
            0,
            0,
            len,
            d[0],
            d[1],
            d[2],
            d[3],
            d[4],
            d[5],
            d[6],
            d[7],
        ];
        assert(packet@ =~= seq![LOAD_TX0, sidh_of(frame.id), sidl_of(frame.id), 0u8, 0u8, len]
            + frame.data@);
        let rts = [RTS_TX0];
        assert(rts@ =~= seq![RTS_TX0]);
        (packet, rts)
    }

    /// Given the `CANINTF` value read, the transfers that fetch and release
    /// the frame in RXB0 (preferred) or RXB1; [`Error::NoFrame`] when neither
    /// buffer is full.
    pub fn receive(&self, flags: u8) -> (r: Result<RxPlan, Error>)
        ensures
            flags % 2 == 1 ==> (r matches Ok(p) && p.read@ == seq![READ_RX0] + Seq::new(
                13,
                |i: int| 0u8,
            ) && p.clear@ == seq![BIT_MODIFY, CANINTF, 1u8, 0u8]),
            flags % 2 == 0 && (flags / 2) % 2 == 1 ==> (r matches Ok(p) && p.read@ == seq![
                READ_RX1,
            ] + Seq::new(13, |i: int| 0u8) && p.clear@ == seq![BIT_MODIFY, CANINTF, 2u8, 0u8]),
            flags % 4 == 0 ==> r == Err::<RxPlan, Error>(Error::NoFrame),
    {
        let b0 = flags & 1;
        let b1 = flags & 2;
        assert(b0 == flags % 2 && (b1 != 0) == ((flags / 2) % 2 == 1) && (flags % 4 == 0) == (
        b0 == 0 && b1 == 0)) by (bit_vector)
            requires
                b0 == flags & 1,
                b1 == flags & 2,
        ;
        let (opcode, clear) = if b0 != 0 {
            (READ_RX0, 1u8)
        } else if b1 != 0 {
            (READ_RX1, 2u8)
        } else {
            return Err(Error::NoFrame);
        };
        let read = [opcode, 0, 0, 0, 0, 0, 0, 0, 0, 0, 0, 0, 0, 0];
        assert(read@ =~= seq![opcode] + Seq::new(13, |i: int| 0u8));
        let clear = self.bit_modify(CANINTF, clear, 0);
        Ok(RxPlan { read, clear })
    }

    /// The frame in the reply to an [`RxPlan::read`] transfer: identifier
    /// from `SIDH`/`SIDL`, length from the low nibble of `DLC`
    /// ([`Error::Overflow`] above 8), and the eight data bytes.
    pub fn decode_rx(rx: &[u8; 14]) -> (r: Result<CanFrame, Error>)
        ensures
            r == frame_of_rx(rx@),
    {
        let hi = rx[1] as u16;
        let lo = rx[2] as u16;
        let id = (hi << 3u16) | (lo >> 5u16);
        assert(id == hi * 8 + lo / 32) by (bit_vector)
            requires
                hi < 256,
                lo < 256,
                id == (hi << 3u16) | (lo >> 5u16),
        ;
        let len = rx[5] & 0x0f;
        let d5 = rx[5];
        assert(len == d5 % 16) by (bit_vector)
            requires
                len == d5 & 0x0f,
        ;
        if len > 8 {
            return Err(Error::Overflow);
        }
        let data = [rx[6], rx[7], rx[8], rx[9], rx[10], rx[11], rx[12], rx[13]];
        Ok(CanFrame { id, len, data })
    }

    /// The check after configuration: `CANSTAT`'s operating-mode bits must
    /// read normal mode.
    pub fn check_normal_mode(canstat: u8) -> (r: Result<(), Error>)
        ensures
            r is Ok <==> canstat < 0x20,
            r is Err ==> r == Err::<(), Error>(Error::Configuration),
    {
        let mode = canstat & 0xe0;
        assert((mode == 0) == (canstat < 0x20)) by (bit_vector)
            requires
                mode == canstat & 0xe0,
        ;
        if mode != 0 {
            Err(Error::Configuration)
        } else {
            Ok(())
        }
    }
}

} // verus!
