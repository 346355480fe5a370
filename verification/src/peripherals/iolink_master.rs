//! Native IO-Link master peer: frame codecs and the tick-paced startup schedule.
//!
//! The master attaches to a firmware UART: [`IolinkMaster::poll`] drives the
//! master's request bytes onto the firmware RX path, and
//! [`IolinkMaster::on_tx_byte`] receives the device's response bytes. The
//! schedule is deterministic: a wake-up pulse (once), [`IDLE_FRAMES`] Type 0
//! IDLE frames, the OPERATE transition, then cyclic Type 1 requests forever.
use vstd::prelude::*;

use std::collections::VecDeque;

verus! {

/// One shift of the CRC6 register: `crc << 1`, xor-ed with the polynomial
/// `0x1D << 2` when the top bit falls out.
pub open spec fn crc_shift(crc: u8) -> u8 {
    if crc & 0x80 != 0 {
        ((crc << 1) ^ 0x74) as u8
    } else {
        (crc << 1) as u8
    }
}

/// `n` shifts of the CRC register.
pub open spec fn crc_shifts(crc: u8, n: nat) -> u8
    decreases n,
{
    if n == 0 {
        crc
    } else {
        crc_shift(crc_shifts(crc, (n - 1) as nat))
    }
}

/// CRC register after `data`, from the initial value `0x15`.
pub open spec fn crc_register(data: Seq<u8>) -> u8
    decreases data.len(),
{
    if data.len() == 0 {
        0x15
    } else {
        crc_shifts(crc_register(data.drop_last()) ^ data.last(), 8)
    }
}

/// The IO-Link 6-bit checksum of `data`.
pub open spec fn crc6_of(data: Seq<u8>) -> u8 {
    (crc_register(data) >> 2) & 0x3F
}

/// IO-Link 6-bit checksum (CRC6), polynomial `0x1D << 2`, initial value `0x15`.
pub fn crc6(data: &[u8]) -> (r: u8)
    ensures
        r == crc6_of(data@),
        r < 64,
{
    let mut crc: u8 = 0x15;
    let mut i: usize = 0;
    while i < data.len()
        invariant
            i <= data.len(),
            crc == crc_register(data@.take(i as int)),
        decreases data.len() - i,
    {
        assert(data@.take(i as int + 1).drop_last() =~= data@.take(i as int));
        let ghost start = crc ^ data[i as int];
        crc = crc ^ data[i];
        let mut k: u32 = 0;
        while k < 8
            invariant
                k <= 8,
                crc == crc_shifts(start, k as nat),
            decreases 8 - k,
        {
            if crc & 0x80 != 0 {
                crc = (crc << 1) ^ 0x74;
            } else {
                crc = crc << 1;
            }
            k = k + 1;
        }
        i = i + 1;
    }
    assert(data@.take(data.len() as int) =~= data@);
    let r = (crc >> 2) & 0x3F;
    assert((crc >> 2) & 0x3F < 64) by (bit_vector);
    r
}

/// Type 0 master frame: `[MC, CK]` with `CK = crc6([MC, 0x00])`.
pub fn encode_type0(mc: u8) -> (r: Vec<u8>)
    ensures
        r@ == seq![mc, crc6_of(seq![mc, 0x00u8])],
{
    let ck = crc6(&[mc, 0x00]);
    let mut r = Vec::new();
    r.push(mc);
    r.push(ck);
    proof {
        assert([mc, 0x00u8]@ =~= seq![mc, 0x00u8]);
    }
    assert(r@ =~= seq![mc, crc6_of(seq![mc, 0x00u8])]);
    r
}

/// The body of a Type 1 cyclic request: `MC = 0, CKT = 0, PD_out..., OD = 0`.
pub open spec fn type1_body(pd_out: Seq<u8>) -> Seq<u8> {
    seq![0x00u8, 0x00u8] + pd_out + seq![0x00u8]
}

/// Type 1 cyclic request: [`type1_body`] followed by its CRC6.
pub fn encode_type1_cycle(pd_out: &[u8]) -> (r: Vec<u8>)
    requires
        pd_out@.len() + 4 <= usize::MAX,
    ensures
        r@ == type1_body(pd_out@).push(crc6_of(type1_body(pd_out@))),
{
    let mut frame: Vec<u8> = Vec::new();
    frame.push(0x00);
    frame.push(0x00);
    let mut i: usize = 0;
    while i < pd_out.len()
        invariant
            i <= pd_out@.len(),
            frame@ == seq![0x00u8, 0x00u8] + pd_out@.take(i as int),
        decreases pd_out@.len() - i,
    {
        frame.push(pd_out[i]);
        i = i + 1;
        assert(frame@ =~= seq![0x00u8, 0x00u8] + pd_out@.take(i as int));
    }
    assert(pd_out@.take(pd_out@.len() as int) =~= pd_out@);
    frame.push(0x00);
    assert(frame@ =~= type1_body(pd_out@));
    let ck = crc6(frame.as_slice());
    frame.push(ck);
    frame
}

/// A parsed device OPERATE response.
#[derive(Debug, Clone)]
pub struct OperateResponse {
    pub pd: Vec<u8>,
    pub pd_valid: bool,
    pub checksum_ok: bool,
}

/// Decodes `[status, PD_in..., OD..., CK]`. Frames shorter than
/// `2 + pd_in_len + od_len` yield no data, a bad checksum and invalid data;
/// otherwise the process data is everything between the status byte and the
/// `od_len` on-request bytes before the checksum.
pub fn decode_operate(data: &[u8], pd_in_len: usize, od_len: usize) -> (r: OperateResponse)
    requires
        2 + pd_in_len + od_len <= usize::MAX,
    ensures
        data@.len() < 2 + pd_in_len + od_len ==> r.pd@ == Seq::<u8>::empty() && !r.pd_valid
            && !r.checksum_ok,
        data@.len() >= 2 + pd_in_len + od_len ==> {
            &&& r.pd@ == data@.subrange(1, data@.len() - od_len - 1)
            &&& r.checksum_ok == (crc6_of(data@.drop_last()) == data@.last())
            &&& r.pd_valid == (data@[0] & 0x20 != 0)
        },
{
    if data.len() < 2 + pd_in_len + od_len {
        return OperateResponse { pd: Vec::new(), pd_valid: false, checksum_ok: false };
    }
    let status = data[0];
    let pd_end = data.len() - od_len - 1;
    let pd = vstd::slice::slice_to_vec(vstd::slice::slice_subrange(data, 1, pd_end));
    let ck = data[data.len() - 1];
    let body = vstd::slice::slice_subrange(data, 0, data.len() - 1);
    assert(body@ =~= data@.drop_last());
    let checksum_ok = crc6(body) == ck;
    let pd_valid = status & 0x20 != 0;
    OperateResponse { pd, pd_valid, checksum_ok }
}

/// IO-Link COM speed (display/config only in this model).
#[derive(Debug, Clone, Copy, PartialEq, Eq)]
pub enum IolinkComSpeed {
    Com1,
    Com2,
    Com3,
}

/// Link state exposed to the inspector panel.
#[derive(Debug, Clone, Copy, PartialEq, Eq, Structural)]
pub enum IolinkLinkState {
    Startup,
    Operate,
}

/// Ticks the master waits (one `poll` per UART tick) between frames.
pub const FRAME_GAP_TICKS: u32 = 6000;

/// Number of IDLE frames sent before the OPERATE transition.
pub const IDLE_FRAMES: u32 = 4;

/// Longest device reply kept while waiting for a complete response.
pub const RX_ACCUM_LIMIT: usize = 64;

/// The frame queued at schedule position `step`: the wake-up pulse, IDLE
/// frames, the OPERATE transition (MC = 0x0F), then cyclic Type 1 requests.
pub open spec fn frame_at_step(step: u32) -> Seq<u8> {
    if step == 0 {
        seq![0x55u8]
    } else if step < 1 + IDLE_FRAMES {
        seq![0x00u8, crc6_of(seq![0x00u8, 0x00u8])]
    } else if step == 1 + IDLE_FRAMES {
        seq![0x0Fu8, crc6_of(seq![0x0Fu8, 0x00u8])]
    } else {
        type1_body(Seq::empty()).push(crc6_of(type1_body(Seq::empty())))
    }
}

/// Schedule position after queueing the frame of `step`: it stops at the
/// first cyclic position so Type 1 repeats forever.
pub open spec fn next_step(step: u32) -> u32 {
    if step <= 1 + IDLE_FRAMES {
        (step + 1) as u32
    } else {
        step
    }
}

/// Native IO-Link master peer.
#[derive(Debug)]
pub struct IolinkMaster {
    pd_in_len: usize,
    od_len: usize,
    com: IolinkComSpeed,
    pub link_state: IolinkLinkState,
    tx_queue: VecDeque<u8>,
    rx_accum: Vec<u8>,
    step: u32,
    gap_ticks: u32,
    latest_pd: Vec<u8>,
    /// Latches true on the first valid cyclic frame and is intentionally sticky.
    pub pd_valid: bool,
}

impl IolinkMaster {
    /// The internal invariant: the response length is representable, the
    /// schedule position is at most the first cyclic position, and the
    /// reply accumulator is bounded.
    pub closed spec fn wf(&self) -> bool {
        &&& 2 + self.pd_in_len + self.od_len <= usize::MAX
        &&& self.step <= 2 + IDLE_FRAMES
        &&& self.rx_accum@.len() <= RX_ACCUM_LIMIT
    }

    pub closed spec fn pd_in_len_view(&self) -> nat {
        self.pd_in_len as nat
    }

    pub closed spec fn od_len_view(&self) -> nat {
        self.od_len as nat
    }

    pub closed spec fn com_view(&self) -> IolinkComSpeed {
        self.com
    }

    /// Link state exposed to the inspector panel.
    pub closed spec fn link_state_view(&self) -> IolinkLinkState {
        self.link_state
    }

    /// The sticky process-data-valid latch.
    pub closed spec fn pd_valid_view(&self) -> bool {
        self.pd_valid
    }

    /// Bytes still to send onto the firmware RX path.
    pub closed spec fn pending_tx(&self) -> Seq<u8> {
        self.tx_queue@
    }

    /// Device-response bytes accumulated since the current frame was queued.
    pub closed spec fn accumulated(&self) -> Seq<u8> {
        self.rx_accum@
    }

    /// Schedule position.
    pub closed spec fn step_view(&self) -> u32 {
        self.step
    }

    /// Ticks elapsed since the current frame finished sending.
    pub closed spec fn gap_view(&self) -> u32 {
        self.gap_ticks
    }

    /// Latest valid process-data input bytes.
    pub closed spec fn latest_pd_view(&self) -> Seq<u8> {
        self.latest_pd@
    }

    /// Length of a complete OPERATE response: status, PD, OD, checksum.
    pub open spec fn response_len(&self) -> nat {
        1 + self.pd_in_len_view() + self.od_len_view() + 1
    }

    /// A master for a device with `pd_in_len` process-data and `od_len`
    /// on-request bytes per cycle; the wake-up pulse is queued at once.
    pub fn new(pd_in_len: usize, od_len: usize, com: IolinkComSpeed) -> (r: Self)
        requires
            2 + pd_in_len + od_len <= usize::MAX,
        ensures
            r.wf(),
            r.pd_in_len_view() == pd_in_len,
            r.od_len_view() == od_len,
            r.com_view() == com,
            r.link_state_view() == IolinkLinkState::Startup,
            r.pending_tx() == seq![0x55u8],
            r.accumulated() == Seq::<u8>::empty(),
            r.step_view() == 1,
            r.gap_view() == 0,
            r.latest_pd_view() == Seq::new(
                if pd_in_len > 1 { pd_in_len as nat } else { 1 },
                |i: int| 0u8,
            ),
            !r.pd_valid_view(),
    {
        let n = if pd_in_len > 1 {
            pd_in_len
        } else {
            1
        };
        let mut m = Self {
            pd_in_len,
            od_len,
            com,
            link_state: IolinkLinkState::Startup,
            tx_queue: VecDeque::new(),
            rx_accum: Vec::new(),
            step: 0,
            gap_ticks: 0,
            latest_pd: vec![0u8; n],
            pd_valid: false,
        };
        m.queue_next_frame();
        assert(m.tx_queue@ =~= seq![0x55u8]);
        m
    }

    /// First process-data input byte (channel bitmap for a DI hub), or 0.
    pub fn input_byte(&self) -> (r: u8)
        ensures
            self.latest_pd_view().len() > 0 ==> r == self.latest_pd_view()[0],
            self.latest_pd_view().len() == 0 ==> r == 0,
    {
        if self.latest_pd.len() > 0 {
            self.latest_pd[0]
        } else {
            0
        }
    }

    /// The configured COM speed.
    pub fn com_speed(&self) -> (r: IolinkComSpeed)
        ensures
            r == self.com_view(),
    {
        self.com
    }

    fn operate_response_len(&self) -> (r: usize)
        requires
            self.wf(),
        ensures
            r == self.response_len(),
    {
        1 + self.pd_in_len + self.od_len + 1
    }

    /// Queues the frame of the current schedule position and advances it.
    fn queue_next_frame(&mut self)
        requires
            2 + old(self).pd_in_len + old(self).od_len <= usize::MAX,
            old(self).step <= 2 + IDLE_FRAMES,
        ensures
            final(self).wf(),
            final(self).pending_tx() == old(self).pending_tx() + frame_at_step(old(self).step),
            final(self).accumulated() == Seq::<u8>::empty(),
            final(self).step_view() == next_step(old(self).step),
            final(self).link_state_view() == (if old(self).step > 1 + IDLE_FRAMES {
                IolinkLinkState::Operate
            } else {
                old(self).link_state_view()
            }),
            final(self).pd_in_len == old(self).pd_in_len,
            final(self).od_len == old(self).od_len,
            final(self).com == old(self).com,
            final(self).gap_ticks == old(self).gap_ticks,
            final(self).latest_pd == old(self).latest_pd,
            final(self).pd_valid_view() == old(self).pd_valid_view(),
    {
        self.rx_accum.clear();
        let idle_end = 1 + IDLE_FRAMES;
        let ghost q0 = self.tx_queue@;
        let frame: Vec<u8> = if self.step == 0 {
            let mut f = Vec::new();
            f.push(0x55u8);
            assert(f@ =~= seq![0x55u8]);
            f
        } else if self.step < idle_end {
            encode_type0(0x00)
        } else if self.step == idle_end {
            encode_type0(0x0F)
        } else {
            let empty: [u8; 0] = [];
            let f = encode_type1_cycle(&empty);
            proof {
                assert(empty@ =~= Seq::<u8>::empty());
            }
            f
        };
        let mut i: usize = 0;
        while i < frame.len()
            invariant
                i <= frame@.len(),
                self.tx_queue@ == q0 + frame@.take(i as int),
                self.rx_accum@ == Seq::<u8>::empty(),
                self.step == old(self).step,
                self.link_state == old(self).link_state,
                self.pd_in_len == old(self).pd_in_len,
                self.od_len == old(self).od_len,
                self.com == old(self).com,
                self.gap_ticks == old(self).gap_ticks,
                self.latest_pd == old(self).latest_pd,
                self.pd_valid == old(self).pd_valid,
            decreases frame@.len() - i,
        {
            self.tx_queue.push_back(frame[i]);
            i = i + 1;
            assert(self.tx_queue@ =~= q0 + frame@.take(i as int));
        }
        assert(frame@.take(frame@.len() as int) =~= frame@);
        if self.step > idle_end {
            self.link_state = IolinkLinkState::Operate;
        }
        if self.step <= idle_end {
            self.step = self.step + 1;
        }
    }

    /// One UART tick: the next request byte for the firmware, if any.
    ///
    /// Queued bytes go out first; once the frame is fully sent the master
    /// waits [`FRAME_GAP_TICKS`] ticks, then queues the next scheduled frame
    /// and sends its first byte.
    pub fn poll(&mut self, elapsed_us: u32) -> (r: Option<u8>)
        requires
            old(self).wf(),
        ensures
            final(self).wf(),
            final(self).pd_in_len_view() == old(self).pd_in_len_view(),
            final(self).od_len_view() == old(self).od_len_view(),
            final(self).com_view() == old(self).com_view(),
            final(self).latest_pd_view() == old(self).latest_pd_view(),
            final(self).pd_valid_view() == old(self).pd_valid_view(),
            old(self).pending_tx().len() > 0 ==> {
                &&& r == Some(old(self).pending_tx()[0])
                &&& final(self).pending_tx() == old(self).pending_tx().drop_first()
                &&& final(self).step_view() == old(self).step_view()
                &&& final(self).gap_view() == old(self).gap_view()
                &&& final(self).accumulated() == old(self).accumulated()
                &&& final(self).link_state_view() == old(self).link_state_view()
            },
            old(self).pending_tx().len() == 0 && old(self).gap_view() + 1 < FRAME_GAP_TICKS ==> {
                &&& r is None
                &&& final(self).pending_tx() == old(self).pending_tx()
                &&& final(self).step_view() == old(self).step_view()
                &&& final(self).gap_view() == old(self).gap_view() + 1
                &&& final(self).accumulated() == old(self).accumulated()
                &&& final(self).link_state_view() == old(self).link_state_view()
            },
            old(self).pending_tx().len() == 0 && old(self).gap_view() + 1 >= FRAME_GAP_TICKS ==> {
                let frame = frame_at_step(old(self).step_view());
                &&& r == Some(frame[0])
                &&& final(self).pending_tx() == frame.drop_first()
                &&& final(self).step_view() == next_step(old(self).step_view())
                &&& final(self).gap_view() == 0
                &&& final(self).accumulated() == Seq::<u8>::empty()
                &&& final(self).link_state_view() == (if old(self).step_view() > 1 + IDLE_FRAMES {
                    IolinkLinkState::Operate
                } else {
                    old(self).link_state_view()
                })
            },
    {
        if self.tx_queue.len() > 0 {
            return self.tx_queue.pop_front();
        }
        self.gap_ticks = self.gap_ticks.saturating_add(1);
        if self.gap_ticks < FRAME_GAP_TICKS {
            return None;
        }
        self.gap_ticks = 0;
        self.queue_next_frame();
        proof {
            lemma_frames_nonempty(old(self).step);
        }
        self.tx_queue.pop_front()
    }

    /// One byte of the device's reply. Once a complete OPERATE response has
    /// accumulated in the OPERATE phase it is decoded; valid data with a good
    /// checksum becomes the latest process data and sets the sticky
    /// `pd_valid`; the accumulator then restarts.
    pub fn on_tx_byte(&mut self, byte: u8)
        requires
            old(self).wf(),
        ensures
            final(self).wf(),
            final(self).pd_in_len_view() == old(self).pd_in_len_view(),
            final(self).od_len_view() == old(self).od_len_view(),
            final(self).com_view() == old(self).com_view(),
            final(self).pending_tx() == old(self).pending_tx(),
            final(self).step_view() == old(self).step_view(),
            final(self).gap_view() == old(self).gap_view(),
            final(self).link_state_view() == old(self).link_state_view(),
            ({
                let acc = if old(self).accumulated().len() < RX_ACCUM_LIMIT {
                    old(self).accumulated().push(byte)
                } else {
                    old(self).accumulated()
                };
                if old(self).link_state_view() == IolinkLinkState::Operate && acc.len()
                    >= old(self).response_len() {
                    let resp = acc.take(old(self).response_len() as int);
                    let ok = crc6_of(resp.drop_last()) == resp.last() && resp[0] & 0x20 != 0;
                    &&& final(self).accumulated() == Seq::<u8>::empty()
                    &&& ok ==> final(self).latest_pd_view() == resp.subrange(
                        1,
                        resp.len() - old(self).od_len_view() - 1,
                    ) && final(self).pd_valid_view()
                    &&& !ok ==> final(self).latest_pd_view() == old(self).latest_pd_view()
                        && final(self).pd_valid_view() == old(self).pd_valid_view()
                } else {
                    &&& final(self).accumulated() == acc
                    &&& final(self).latest_pd_view() == old(self).latest_pd_view()
                    &&& final(self).pd_valid_view() == old(self).pd_valid_view()
                }
            }),
    {
        if self.rx_accum.len() < RX_ACCUM_LIMIT {
            self.rx_accum.push(byte);
        }
        let n = self.operate_response_len();
        if self.link_state == IolinkLinkState::Operate && self.rx_accum.len() >= n {
            let resp = decode_operate(
                vstd::slice::slice_subrange(self.rx_accum.as_slice(), 0, n),
                self.pd_in_len,
                self.od_len,
            );
            if resp.checksum_ok && resp.pd_valid {
                self.latest_pd = resp.pd;
                self.pd_valid = true;
            }
            self.rx_accum.clear();
        }
    }
}

/// Every scheduled frame has at least one byte.
proof fn lemma_frames_nonempty(step: u32)
    ensures
        frame_at_step(step).len() > 0,
{
}

/// The schedule runs wake-up, the IDLE frames and the OPERATE transition once,
/// then stays on the cyclic Type 1 request forever.
pub proof fn lemma_schedule_settles(step: u32)
    ensures
        step >= 2 + IDLE_FRAMES ==> next_step(step) == step && frame_at_step(step) == frame_at_step(
            (2 + IDLE_FRAMES) as u32,
        ),
        step < 2 + IDLE_FRAMES ==> next_step(step) == step + 1,
{
}

} // verus!
