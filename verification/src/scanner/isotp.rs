//! ISO-TP (ISO 15765-2) reassembly of the Mode 09 PID 02 VIN response.
//!
//! The VIN response is always 20 bytes (`49 02 01` + 17 VIN characters): a
//! first frame carrying six of them, answered with one flow-control frame,
//! then two consecutive frames of seven bytes each. Any refused frame aborts
//! the reassembly, so no partial VIN survives an error.
use vstd::prelude::*;

use super::obd2::{byte, CanFrame, Error, FLOW_CONTROL_ID, RESPONSE_ID};

verus! {

/// Total ISO-TP message length of a VIN response.
pub const VIN_MESSAGE_LEN: u16 = 20;

/// Number of VIN characters.
pub const VIN_LEN: usize = 17;

/// What a successfully pushed frame asks of the caller.
#[derive(Clone, Copy, Debug, PartialEq, Eq)]
pub enum IsoTpEvent {
    /// Send this flow-control frame to release the consecutive frames.
    FlowControl(CanFrame),
    /// The frame was stored; more are expected.
    Pending,
    /// The whole VIN has arrived.
    Complete([u8; 17]),
}

/// Which accepted frame shape a frame is.
pub enum PushAction {
    FirstFrame,
    Consecutive,
}

/// The classification of `f` by a reassembler that is receiving (`receiving`)
/// and expects consecutive frame `next_seq`; `Err` is the refusal.
pub open spec fn push_action(receiving: bool, next_seq: u8, f: CanFrame) -> Result<PushAction, Error> {
    let b0 = byte(f, 0);
    let pci = b0 / 16;
    let low = b0 % 16;
    if f.len > 8 {
        Err(Error::InvalidLength)
    } else if f.id != RESPONSE_ID {
        Err(Error::WrongId)
    } else if f.len == 0 {
        Err(Error::Malformed)
    } else if pci == 0 {
        if low == 0 {
            Err(Error::Malformed)
        } else if low + 1 > f.len || (f.len != low + 1 && f.len != 8) {
            Err(Error::InvalidLength)
        } else if byte(f, 1) == 0x7f {
            if low != 3 {
                Err(Error::InvalidLength)
            } else if byte(f, 2) != 9 {
                Err(Error::UnsupportedService)
            } else {
                Err(Error::NegativeResponse { service: 9, nrc: byte(f, 3) })
            }
        } else {
            Err(Error::UnexpectedFrame)
        }
    } else if pci == 1 {
        if f.len != 8 {
            Err(Error::InvalidLength)
        } else if low * 256 + byte(f, 1) > VIN_MESSAGE_LEN {
            Err(Error::Oversize)
        } else if low * 256 + byte(f, 1) < VIN_MESSAGE_LEN {
            Err(Error::Malformed)
        } else if byte(f, 2) != 0x49 {
            Err(Error::UnsupportedService)
        } else if byte(f, 3) != 2 {
            Err(Error::UnsupportedPid)
        } else if byte(f, 4) != 1 {
            Err(Error::Malformed)
        } else {
            Ok(PushAction::FirstFrame)
        }
    } else if pci == 2 {
        if !receiving {
            Err(Error::UnexpectedFrame)
        } else if f.len != 8 {
            Err(Error::InvalidLength)
        } else if low != next_seq {
            Err(Error::Sequence)
        } else {
            Ok(PushAction::Consecutive)
        }
    } else if pci == 3 {
        Err(Error::UnexpectedFrame)
    } else {
        Err(Error::Malformed)
    }
}

/// `fc` is the "continue to send, no block limit, no delay" flow-control frame.
pub open spec fn is_flow_control(fc: CanFrame) -> bool {
    &&& fc.id == FLOW_CONTROL_ID
    &&& fc.len == 8
    &&& fc.data@ == seq![0x30u8, 0, 0, 0, 0, 0, 0, 0]
}

/// VIN bytes carried by a first frame (data bytes 5..8).
pub open spec fn first_frame_chars(f: CanFrame) -> Seq<u8> {
    f.data@.subrange(5, 8)
}

/// VIN bytes carried by a consecutive frame (data bytes 1..8).
pub open spec fn consecutive_chars(f: CanFrame) -> Seq<u8> {
    f.data@.subrange(1, 8)
}

/// Reassembles the multi-frame VIN response.
pub struct VinReassembler {
    receiving: bool,
    next_seq: u8,
    filled: usize,
    vin: [u8; 17],
}

impl VinReassembler {
    #[verifier::type_invariant]
    spec fn inv(self) -> bool {
        if self.receiving {
            (self.next_seq == 1 && self.filled == 3) || (self.next_seq == 2 && self.filled == 10)
        } else {
            self.filled == 0
        }
    }

    /// A first frame has been accepted and the VIN is not complete yet.
    pub closed spec fn is_receiving(self) -> bool {
        self.receiving
    }

    /// Sequence number of the consecutive frame expected next.
    pub closed spec fn expected_seq(self) -> u8 {
        self.next_seq
    }

    /// VIN characters received so far.
    pub closed spec fn received(self) -> Seq<u8> {
        self.vin@.take(self.filled as int)
    }

    /// An idle reassembler.
    pub fn new() -> (r: Self)
        ensures
            !r.is_receiving(),
            r.received() == Seq::<u8>::empty(),
    {
        let r = VinReassembler { receiving: false, next_seq: 0, filled: 0, vin: [0; 17] };
        assert(r.received() =~= Seq::<u8>::empty());
        r
    }

    /// Discards any partial VIN.
    pub fn reset(&mut self)
        ensures
            !final(self).is_receiving(),
            final(self).received() == Seq::<u8>::empty(),
    {
        *self = VinReassembler { receiving: false, next_seq: 0, filled: 0, vin: [0; 17] };
        assert(self.received() =~= Seq::<u8>::empty());
    }

    /// Ends a transfer that ran out of time: `Err(Incomplete)` (and the
    /// partial VIN discarded) when a VIN was being received, `Ok` otherwise.
    pub fn timeout(&mut self) -> (r: Result<(), Error>)
        ensures
            r == (if old(self).is_receiving() {
                Err::<(), Error>(Error::Incomplete)
            } else {
                Ok(())
            }),
            !final(self).is_receiving(),
            final(self).received() == Seq::<u8>::empty(),
    {
        let was_receiving = self.receiving;
        self.reset();
        if was_receiving {
            Err(Error::Incomplete)
        } else {
            Ok(())
        }
    }

    /// Feeds one received frame. Every refusal leaves the reassembler idle.
    pub fn push(&mut self, frame: &CanFrame) -> (r: Result<IsoTpEvent, Error>)
        ensures
            match push_action(old(self).is_receiving(), old(self).expected_seq(), *frame) {
                Err(e) => {
                    &&& r == Err::<IsoTpEvent, Error>(e)
                    &&& !final(self).is_receiving()
                    &&& final(self).received() == Seq::<u8>::empty()
                },
                Ok(PushAction::FirstFrame) => {
                    &&& r matches Ok(IsoTpEvent::FlowControl(fc)) && is_flow_control(fc)
                    &&& final(self).is_receiving()
                    &&& final(self).expected_seq() == 1
                    &&& final(self).received() == first_frame_chars(*frame)
                },
                Ok(PushAction::Consecutive) => {
                    let got = old(self).received() + consecutive_chars(*frame);
                    if got.len() == VIN_LEN {
                        &&& r matches Ok(IsoTpEvent::Complete(vin)) && vin@ == got
                        &&& !final(self).is_receiving()
                        &&& final(self).received() == Seq::<u8>::empty()
                    } else {
                        &&& r == Ok::<IsoTpEvent, Error>(IsoTpEvent::Pending)
                        &&& final(self).is_receiving()
                        &&& final(self).expected_seq() == old(self).expected_seq() + 1
                        &&& final(self).received() == got
                    }
                },
            },
    {
        proof {
            use_type_invariant(&*self);
            crate::bits::lemma_u8_nibbles(frame.data[0]);
        }
        if frame.len > 8 {
            self.reset();
            return Err(Error::InvalidLength);
        }
        if frame.id != RESPONSE_ID {
            self.reset();
            return Err(Error::WrongId);
        }
        if frame.len == 0 {
            self.reset();
            return Err(Error::Malformed);
        }
        let pci = frame.data[0] >> 4;
        let low = frame.data[0] & 0x0f;
        if pci == 0 {
            self.reset();
            if low == 0 {
                return Err(Error::Malformed);
            }
            if low + 1 > frame.len || (frame.len != low + 1 && frame.len != 8) {
                return Err(Error::InvalidLength);
            }
            if frame.data[1] == 0x7f {
                if low != 3 {
                    return Err(Error::InvalidLength);
                }
                if frame.data[2] != 9 {
                    return Err(Error::UnsupportedService);
                }
                return Err(Error::NegativeResponse { service: 9, nrc: frame.data[3] });
            }
            return Err(Error::UnexpectedFrame);
        }
        if pci == 1 {
            self.reset();
            if frame.len != 8 {
                return Err(Error::InvalidLength);
            }
            let total = (low as u16) * 256 + (frame.data[1] as u16);
            if total > VIN_MESSAGE_LEN {
                return Err(Error::Oversize);
            }
            if total < VIN_MESSAGE_LEN {
                return Err(Error::Malformed);
            }
            if frame.data[2] != 0x49 {
                return Err(Error::UnsupportedService);
            }
            if frame.data[3] != 2 {
                return Err(Error::UnsupportedPid);
            }
            if frame.data[4] != 1 {
                return Err(Error::Malformed);
            }
            let mut vin = [0u8; 17];
            vin[0] = frame.data[5];
            vin[1] = frame.data[6];
            vin[2] = frame.data[7];
            *self = VinReassembler { receiving: true, next_seq: 1, filled: 3, vin };
            assert(self.received() =~= first_frame_chars(*frame));
            let fc = CanFrame { id: FLOW_CONTROL_ID, len: 8, data: [0x30, 0, 0, 0, 0, 0, 0, 0] };
            assert(fc.data@ =~= seq![0x30u8, 0, 0, 0, 0, 0, 0, 0]);
            return Ok(IsoTpEvent::FlowControl(fc));
        }
        if pci == 2 {
            if !self.receiving {
                self.reset();
                return Err(Error::UnexpectedFrame);
            }
            if frame.len != 8 {
                self.reset();
                return Err(Error::InvalidLength);
            }
            if low != self.next_seq {
                self.reset();
                return Err(Error::Sequence);
            }
            let ghost before = self.received();
            let start = self.filled;
            let seq = self.next_seq;
            let mut vin = self.vin;
            let mut k: usize = 0;
            while k < 7
                invariant
                    k <= 7,
                    start == 3 || start == 10,
                    vin@.take(start as int) == before,
                    forall|j: int| 0 <= j < k ==> #[trigger] vin@[start + j] == frame.data@[1 + j],
                decreases 7 - k,
            {
                vin[start + k] = frame.data[1 + k];
                k = k + 1;
            }
            assert(before.len() == start);
            assert forall|i: int| 0 <= i < start implies vin@[i] == before[i] by {
                assert(vin@.take(start as int)[i] == vin@[i]);
            }
            assert forall|i: int| start <= i < start + 7 implies vin@[i] == consecutive_chars(
                *frame,
            )[i - start] by {
                assert(vin@[start + (i - start)] == frame.data@[1 + (i - start)]);
            }
            assert(vin@.take(start as int + 7) =~= before + consecutive_chars(*frame));
            if start + 7 == VIN_LEN {
                self.reset();
                return Ok(IsoTpEvent::Complete(vin));
            }
            *self = VinReassembler { receiving: true, next_seq: seq + 1, filled: start + 7, vin };
            return Ok(IsoTpEvent::Pending);
        }
        self.reset();
        if pci == 3 {
            return Err(Error::UnexpectedFrame);
        }
        Err(Error::Malformed)
    }
}

} // verus!
