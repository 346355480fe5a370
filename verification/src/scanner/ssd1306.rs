//! The scanner's allocation-free status view and the SSD1306 frame it renders
//! to: four value lines and a status line of at most 21 ASCII characters,
//! drawn with 5x7 glyphs on 6-pixel columns into a 128x64 page framebuffer.
//!
//! The I2C (TWIM) transfers themselves are memory-mapped I/O outside this
//! library; the bytes they carry are built here.
use vstd::prelude::*;
use vstd::slice::slice_subrange;

use super::flags::{CAN_CONFIG_ERROR, STALE, TIMEOUT};
use super::state::ScannerState;

verus! {

/// Characters per display line.
pub const LINE_CAPACITY: usize = 21;

/// Framebuffer size: 8 pages of 128 columns.
pub const FRAMEBUFFER_LEN: usize = 1024;

/// `s` cut to the line capacity.
pub open spec fn fit_line(s: Seq<u8>) -> Seq<u8> {
    if s.len() <= LINE_CAPACITY {
        s
    } else {
        s.subrange(0, LINE_CAPACITY as int)
    }
}

/// Cutting twice is cutting once.
pub proof fn lemma_fit_line_absorbs(a: Seq<u8>, c: Seq<u8>)
    ensures
        fit_line(fit_line(a) + c) == fit_line(a + c),
{
    if a.len() > LINE_CAPACITY {
        assert(fit_line(fit_line(a) + c) =~= fit_line(a + c));
    }
}

/// Decimal digits of `n`, most significant first.
pub open spec fn decimal(n: nat) -> Seq<u8>
    decreases n,
{
    if n < 10 {
        seq![(48 + n) as u8]
    } else {
        decimal(n / 10).push((48 + n % 10) as u8)
    }
}

/// Decimal rendering of `v` with a leading `-` when negative.
pub open spec fn signed_decimal(v: int) -> Seq<u8> {
    if v < 0 {
        seq![45u8] + decimal((-v) as nat)
    } else {
        decimal(v as nat)
    }
}

/// A line of at most 21 ASCII bytes; pushes beyond the capacity are dropped.
#[derive(Clone, Copy, Debug, PartialEq, Eq)]
pub struct AsciiLine {
    bytes: [u8; 21],
    len: u8,
}

impl View for AsciiLine {
    type V = Seq<u8>;

    closed spec fn view(&self) -> Seq<u8> {
        self.bytes@.subrange(0, self.len as int)
    }
}

impl AsciiLine {
    #[verifier::type_invariant]
    spec fn inv(self) -> bool {
        self.len <= LINE_CAPACITY
    }

    /// All 21 storage bytes, used or not.
    pub closed spec fn storage(&self) -> Seq<u8> {
        self.bytes@
    }

    /// An empty line with zeroed storage.
    pub fn new() -> (r: Self)
        ensures
            r@ == Seq::<u8>::empty(),
            r.storage() == Seq::new(21, |i: int| 0u8),
    {
        let r = Self { bytes: [0; 21], len: 0 };
        assert(r@ =~= Seq::<u8>::empty());
        assert(r.storage() =~= Seq::new(21, |i: int| 0u8));
        r
    }

    /// The line's bytes.
    pub fn as_bytes(&self) -> (r: &[u8])
        ensures
            r@ == self@,
            r@.len() <= LINE_CAPACITY,
    {
        proof {
            use_type_invariant(self);
        }
        slice_subrange(self.bytes.as_slice(), 0, self.len as usize)
    }

    /// Appends `byte` if there is room.
    pub fn push(&mut self, byte: u8)
        ensures
            final(self)@ == fit_line(old(self)@.push(byte)),
    {
        proof {
            use_type_invariant(&*self);
        }
        if (self.len as usize) < LINE_CAPACITY {
            let ghost before = self@;
            let mut bytes = self.bytes;
            bytes[self.len as usize] = byte;
            *self = Self { bytes, len: self.len + 1 };
            assert(self@ =~= before.push(byte));
        } else {
            assert(fit_line(old(self)@.push(byte)) =~= old(self)@);
        }
    }

    /// Appends `bytes`, keeping what fits.
    pub fn text(&mut self, bytes: &[u8])
        ensures
            final(self)@ == fit_line(old(self)@ + bytes@),
    {
        proof {
            use_type_invariant(&*self);
        }
        let mut i: usize = 0;
        while i < bytes.len()
            invariant
                0 <= i <= bytes@.len(),
                self@ == fit_line(old(self)@ + bytes@.subrange(0, i as int)),
            decreases bytes@.len() - i,
        {
            let ghost mid = old(self)@ + bytes@.subrange(0, i as int);
            self.push(bytes[i]);
            proof {
                lemma_fit_line_absorbs(mid, seq![bytes@[i as int]]);
                assert(fit_line(mid).push(bytes@[i as int]) =~= fit_line(mid) + seq![
                    bytes@[i as int],
                ]);
                assert(mid + seq![bytes@[i as int]] =~= old(self)@ + bytes@.subrange(
                    0,
                    i + 1,
                ));
            }
            i = i + 1;
        }
        assert(bytes@.subrange(0, bytes@.len() as int) =~= bytes@);
    }

    /// Appends the decimal digits of `n`.
    fn push_decimal(&mut self, n: u32)
        ensures
            final(self)@ == fit_line(old(self)@ + decimal(n as nat)),
        decreases n,
    {
        let digit = (48 + n % 10) as u8;
        if n >= 10 {
            self.push_decimal(n / 10);
            let ghost mid = old(self)@ + decimal((n / 10) as nat);
            self.push(digit);
            proof {
                lemma_fit_line_absorbs(mid, seq![digit]);
                assert(fit_line(mid).push(digit) =~= fit_line(mid) + seq![digit]);
                assert(mid + seq![digit] =~= old(self)@ + decimal(n as nat));
            }
        } else {
            self.push(digit);
            assert(old(self)@.push(digit) =~= old(self)@ + decimal(n as nat));
        }
    }

    /// Appends `value` in decimal, with a leading `-` when negative.
    pub fn number(&mut self, value: i32)
        ensures
            final(self)@ == fit_line(old(self)@ + signed_decimal(value as int)),
    {
        if value < 0 {
            self.push(45);
            let n: u32 = (-(value as i64)) as u32;
            let ghost mid = old(self)@.push(45u8);
            self.push_decimal(n);
            proof {
                lemma_fit_line_absorbs(mid, decimal(n as nat));
                assert(mid + decimal(n as nat) =~= old(self)@ + signed_decimal(value as int));
            }
        } else {
            self.push_decimal(value as u32);
        }
    }
}

/// `"RPM "`
pub open spec fn rpm_label() -> Seq<u8> {
    seq![82u8, 80, 77, 32]
}

/// `"SPD "`
pub open spec fn speed_label() -> Seq<u8> {
    seq![83u8, 80, 68, 32]
}

/// `" km/h"`
pub open spec fn speed_unit() -> Seq<u8> {
    seq![32u8, 107, 109, 47, 104]
}

/// `"TEMP "`
pub open spec fn temp_label() -> Seq<u8> {
    seq![84u8, 69, 77, 80, 32]
}

/// `" C"`
pub open spec fn temp_unit() -> Seq<u8> {
    seq![32u8, 67]
}

/// `"DTC "`
pub open spec fn dtc_label() -> Seq<u8> {
    seq![68u8, 84, 67, 32]
}

/// `"STALE"`
pub open spec fn stale_word() -> Seq<u8> {
    seq![83u8, 84, 65, 76, 69]
}

/// `"TIMEOUT"`
pub open spec fn timeout_word() -> Seq<u8> {
    seq![84u8, 73, 77, 69, 79, 85, 84]
}

/// `"CAN ERR"`
pub open spec fn can_err_word() -> Seq<u8> {
    seq![67u8, 65, 78, 32, 69, 82, 82]
}

/// `line` with `word` appended, separated by a space unless `line` is empty.
pub open spec fn append_word(line: Seq<u8>, word: Seq<u8>) -> Seq<u8> {
    if line.len() == 0 {
        fit_line(line + word)
    } else {
        fit_line(fit_line(line.push(32u8)) + word)
    }
}

/// The status line for `flags`: `STALE`, `TIMEOUT`, `CAN ERR` for the flags
/// that are set, in that order, separated by spaces.
pub open spec fn status_text(flags: u16) -> Seq<u8> {
    let s1 = if flags & STALE != 0 {
        append_word(Seq::empty(), stale_word())
    } else {
        Seq::empty()
    };
    let s2 = if flags & TIMEOUT != 0 {
        append_word(s1, timeout_word())
    } else {
        s1
    };
    if flags & CAN_CONFIG_ERROR != 0 {
        append_word(s2, can_err_word())
    } else {
        s2
    }
}

/// What the display shows: four value lines and a status line.
#[derive(Clone, Copy, Debug, PartialEq, Eq)]
pub struct DisplayView {
    pub lines: [AsciiLine; 4],
    pub status: AsciiLine,
}

/// The text of line `i` of `v` (`4` is the status line).
pub open spec fn view_line(v: DisplayView, i: int) -> Seq<u8> {
    if 0 <= i < 4 {
        v.lines@[i]@
    } else {
        v.status@
    }
}

impl DisplayView {
    /// `RPM n`, `SPD n km/h`, `TEMP n C`, `DTC n` and the status words.
    pub fn from_state(state: &ScannerState) -> (r: Self)
        ensures
            r.lines@[0]@ == fit_line(rpm_label() + signed_decimal(state.rpm as int)),
            r.lines@[1]@ == fit_line(
                speed_label() + signed_decimal(state.speed_kph as int) + speed_unit(),
            ),
            r.lines@[2]@ == fit_line(
                temp_label() + signed_decimal(state.coolant_c as int) + temp_unit(),
            ),
            r.lines@[3]@ == fit_line(dtc_label() + signed_decimal(state.dtc_count as int)),
            r.status@ == status_text(state.status_flags),
    {
        let mut l0 = AsciiLine::new();
        l0.text(&[82, 80, 77, 32]);
        l0.number(state.rpm as i32);
        proof {
            lemma_fit_line_absorbs(rpm_label(), signed_decimal(state.rpm as int));
            assert(seq![82u8, 80, 77, 32] =~= rpm_label());
        }
        let mut l1 = AsciiLine::new();
        l1.text(&[83, 80, 68, 32]);
        l1.number(state.speed_kph as i32);
        l1.text(&[32, 107, 109, 47, 104]);
        proof {
            assert(seq![83u8, 80, 68, 32] =~= speed_label());
            assert(seq![32u8, 107, 109, 47, 104] =~= speed_unit());
            lemma_fit_line_absorbs(speed_label(), signed_decimal(state.speed_kph as int));
            lemma_fit_line_absorbs(
                speed_label() + signed_decimal(state.speed_kph as int),
                speed_unit(),
            );
        }
        let mut l2 = AsciiLine::new();
        l2.text(&[84, 69, 77, 80, 32]);
        l2.number(state.coolant_c as i32);
        l2.text(&[32, 67]);
        proof {
            assert(seq![84u8, 69, 77, 80, 32] =~= temp_label());
            assert(seq![32u8, 67] =~= temp_unit());
            lemma_fit_line_absorbs(temp_label(), signed_decimal(state.coolant_c as int));
            lemma_fit_line_absorbs(
                temp_label() + signed_decimal(state.coolant_c as int),
                temp_unit(),
            );
        }
        let mut l3 = AsciiLine::new();
        l3.text(&[68, 84, 67, 32]);
        l3.number(state.dtc_count as i32);
        proof {
            assert(seq![68u8, 84, 67, 32] =~= dtc_label());
            lemma_fit_line_absorbs(dtc_label(), signed_decimal(state.dtc_count as int));
        }
        let mut status = AsciiLine::new();
        if state.status_flags & STALE != 0 {
            append_status_word(&mut status, &[83, 84, 65, 76, 69]);
            assert(seq![83u8, 84, 65, 76, 69] =~= stale_word());
        }
        if state.status_flags & TIMEOUT != 0 {
            append_status_word(&mut status, &[84, 73, 77, 69, 79, 85, 84]);
            assert(seq![84u8, 73, 77, 69, 79, 85, 84] =~= timeout_word());
        }
        if state.status_flags & CAN_CONFIG_ERROR != 0 {
            append_status_word(&mut status, &[67, 65, 78, 32, 69, 82, 82]);
            assert(seq![67u8, 65, 78, 32, 69, 82, 82] =~= can_err_word());
        }
        let r = Self { lines: [l0, l1, l2, l3], status };
        assert(r.lines@[0] == l0 && r.lines@[1] == l1 && r.lines@[2] == l2 && r.lines@[3] == l3);
        r
    }
}

/// Appends a status word, preceded by a space unless the line is empty.
fn append_status_word(status: &mut AsciiLine, word: &[u8])
    ensures
        final(status)@ == append_word(old(status)@, word@),
{
    if status.as_bytes().len() != 0 {
        status.push(32);
    }
    status.text(word);
    assert(fit_line(Seq::<u8>::empty() + word@) == fit_line(word@)) by {
        assert(Seq::<u8>::empty() + word@ =~= word@);
    }
}

/// The 5-byte column pattern of a 5x7 glyph; unknown characters are blank.
pub open spec fn glyph_of(c: u8) -> Seq<u8> {
    if c == 48 {
        seq![62u8, 81, 73, 69, 62]
    } else if c == 49 {
        seq![0u8, 66, 127, 64, 0]
    } else if c == 50 {
        seq![66u8, 97, 81, 73, 70]
    } else if c == 51 {
        seq![33u8, 65, 69, 75, 49]
    } else if c == 52 {
        seq![24u8, 20, 18, 127, 16]
    } else if c == 53 {
        seq![39u8, 69, 69, 69, 57]
    } else if c == 54 {
        seq![60u8, 74, 73, 73, 48]
    } else if c == 55 {
        seq![1u8, 113, 9, 5, 3]
    } else if c == 56 {
        seq![54u8, 73, 73, 73, 54]
    } else if c == 57 {
        seq![6u8, 73, 73, 41, 30]
    } else if c == 45 {
        seq![8u8, 8, 8, 8, 8]
    } else if c == 47 {
        seq![32u8, 16, 8, 4, 2]
    } else if c == 65 {
        seq![126u8, 17, 17, 17, 126]
    } else if c == 67 {
        seq![62u8, 65, 65, 65, 34]
    } else if c == 68 {
        seq![127u8, 65, 65, 34, 28]
    } else if c == 69 {
        seq![127u8, 73, 73, 73, 65]
    } else if c == 72 {
        seq![127u8, 8, 8, 8, 127]
    } else if c == 73 {
        seq![0u8, 65, 127, 65, 0]
    } else if c == 76 {
        seq![127u8, 64, 64, 64, 64]
    } else if c == 77 {
        seq![127u8, 2, 12, 2, 127]
    } else if c == 78 {
        seq![127u8, 4, 8, 16, 127]
    } else if c == 79 {
        seq![62u8, 65, 65, 65, 62]
    } else if c == 80 {
        seq![127u8, 9, 9, 9, 6]
    } else if c == 82 {
        seq![127u8, 9, 25, 41, 70]
    } else if c == 83 {
        seq![70u8, 73, 73, 73, 49]
    } else if c == 84 {
        seq![1u8, 1, 127, 1, 1]
    } else if c == 85 {
        seq![63u8, 64, 64, 64, 63]
    } else if c == 107 {
        seq![127u8, 8, 20, 34, 65]
    } else if c == 109 {
        seq![124u8, 4, 24, 4, 120]
    } else if c == 104 {
        seq![127u8, 8, 4, 4, 120]
    } else {
        seq![0u8, 0, 0, 0, 0]
    }
}

/// The glyph of `c`.
pub fn glyph(c: u8) -> (r: [u8; 5])
    ensures
        r@ == glyph_of(c),
{
    let r: [u8; 5] = if c == 48 {
        [62, 81, 73, 69, 62]
    } else if c == 49 {
        [0, 66, 127, 64, 0]
    } else if c == 50 {
        [66, 97, 81, 73, 70]
    } else if c == 51 {
        [33, 65, 69, 75, 49]
    } else if c == 52 {
        [24, 20, 18, 127, 16]
    } else if c == 53 {
        [39, 69, 69, 69, 57]
    } else if c == 54 {
        [60, 74, 73, 73, 48]
    } else if c == 55 {
        [1, 113, 9, 5, 3]
    } else if c == 56 {
        [54, 73, 73, 73, 54]
    } else if c == 57 {
        [6, 73, 73, 41, 30]
    } else if c == 45 {
        [8, 8, 8, 8, 8]
    } else if c == 47 {
        [32, 16, 8, 4, 2]
    } else if c == 65 {
        [126, 17, 17, 17, 126]
    } else if c == 67 {
        [62, 65, 65, 65, 34]
    } else if c == 68 {
        [127, 65, 65, 34, 28]
    } else if c == 69 {
        [127, 73, 73, 73, 65]
    } else if c == 72 {
        [127, 8, 8, 8, 127]
    } else if c == 73 {
        [0, 65, 127, 65, 0]
    } else if c == 76 {
        [127, 64, 64, 64, 64]
    } else if c == 77 {
        [127, 2, 12, 2, 127]
    } else if c == 78 {
        [127, 4, 8, 16, 127]
    } else if c == 79 {
        [62, 65, 65, 65, 62]
    } else if c == 80 {
        [127, 9, 9, 9, 6]
    } else if c == 82 {
        [127, 9, 25, 41, 70]
    } else if c == 83 {
        [70, 73, 73, 73, 49]
    } else if c == 84 {
        [1, 1, 127, 1, 1]
    } else if c == 85 {
        [63, 64, 64, 64, 63]
    } else if c == 107 {
        [127, 8, 20, 34, 65]
    } else if c == 109 {
        [124, 4, 24, 4, 120]
    } else if c == 104 {
        [127, 8, 4, 4, 120]
    } else {
        [0, 0, 0, 0, 0]
    };
    assert(r@ =~= glyph_of(c));
    r
}

/// The framebuffer byte at column `c` of page `p` when showing `v`: glyph
/// column `c % 6` of character `c / 6` of the page's line (lines are on pages
/// 0 to 3, the status line on page 5), with a blank sixth column between
/// characters and everything else dark.
pub open spec fn rendered_byte(v: DisplayView, p: int, c: int) -> u8 {
    let line = if 0 <= p < 4 {
        view_line(v, p)
    } else if p == 5 {
        view_line(v, 4)
    } else {
        Seq::<u8>::empty()
    };
    if 0 <= c && c / 6 < line.len() && c % 6 < 5 {
        glyph_of(line[c / 6])[c % 6]
    } else {
        0
    }
}

/// The SSD1306 frame: 8 pages of 128 one-byte columns.
pub struct Ssd1306 {
    framebuffer: [u8; 1024],
}

/// The bytes of one full-frame update: the address-window command, then the
/// framebuffer in 64 data transfers of 16 bytes.
pub struct FrameUpdate {
    pub window: [u8; 7],
    pub data: Vec<[u8; 17]>,
}

/// The bytes of the initialisation command transfer.
pub open spec fn init_command_bytes() -> Seq<u8> {
    seq![0x00u8, 0xae, 0x20, 0x00, 0xa8, 0x3f, 0xd3, 0x00, 0x40, 0xa1, 0xc8, 0xda, 0x12, 0x81, 0x7f, 0xaf]
}

/// The address-window command: columns 0..=127, pages 0..=7.
pub open spec fn window_command_bytes() -> Seq<u8> {
    seq![0x00u8, 0x21, 0, 127, 0x22, 0, 7]
}

impl Ssd1306 {
    /// The framebuffer.
    pub closed spec fn frame(&self) -> Seq<u8> {
        self.framebuffer@
    }

    /// A dark frame.
    pub fn new() -> (r: Self)
        ensures
            r.frame() == Seq::new(1024, |i: int| 0u8),
    {
        let r = Self { framebuffer: [0; 1024] };
        assert(r.frame() =~= Seq::new(1024, |i: int| 0u8));
        r
    }

    /// The command transfer that configures the panel (display off, horizontal
    /// addressing, 64 rows, no offset, start line 0, segment and COM remap,
    /// alternative COM pins, contrast 0x7f, display on).
    pub fn init_command() -> (r: [u8; 16])
        ensures
            r@ == init_command_bytes(),
    {
        let r = [0x00, 0xae, 0x20, 0x00, 0xa8, 0x3f, 0xd3, 0x00, 0x40, 0xa1, 0xc8, 0xda, 0x12, 0x81, 0x7f, 0xaf];
        assert(r@ =~= init_command_bytes());
        r
    }

    /// The transfers of a full-frame update: the address window, then each
    /// 16-byte chunk of the frame behind the data control byte `0x40`.
    pub fn update(&self) -> (r: FrameUpdate)
        ensures
            r.window@ == window_command_bytes(),
            r.data@.len() == 64,
            forall|k: int|
                0 <= k < 64 ==> #[trigger] r.data@[k]@ == seq![0x40u8] + self.frame().subrange(
                    16 * k,
                    16 * k + 16,
                ),
    {
        let window: [u8; 7] = [0x00, 0x21, 0, 127, 0x22, 0, 7];
        assert(window@ =~= window_command_bytes());
        let mut data: Vec<[u8; 17]> = Vec::new();
        let mut k: usize = 0;
        while k < 64
            invariant
                0 <= k <= 64,
                self.framebuffer@.len() == 1024,
                data@.len() == k,
                forall|m: int|
                    0 <= m < k ==> #[trigger] data@[m]@ == seq![0x40u8] + self.frame().subrange(
                        16 * m,
                        16 * m + 16,
                    ),
            decreases 64 - k,
        {
            let mut packet = [0u8; 17];
            packet[0] = 0x40;
            let mut j: usize = 0;
            while j < 16
                invariant
                    0 <= j <= 16,
                    k < 64,
                    self.framebuffer@.len() == 1024,
                    packet@.len() == 17,
                    packet@[0] == 0x40u8,
                    forall|i: int| 0 <= i < j ==> #[trigger] packet@[1 + i] == self.framebuffer@[16 * k + i],
                decreases 16 - j,
            {
                packet[1 + j] = self.framebuffer[16 * k + j];
                j = j + 1;
            }
            let ghost expected = seq![0x40u8] + self.frame().subrange(16 * k as int, 16 * k + 16);
            assert forall|i: int| 0 <= i < 17 implies packet@[i] == expected[i] by {
                if i > 0 {
                    assert(packet@[1 + (i - 1)] == self.framebuffer@[16 * k + (i - 1)]);
                }
            }
            assert(packet@ =~= expected);
            data.push(packet);
            k = k + 1;
        }
        FrameUpdate { window, data }
    }

    /// Draws `view` into a cleared frame.
    pub fn render(&mut self, view: &DisplayView)
        ensures
            forall|p: int, c: int|
                0 <= p < 8 && 0 <= c < 128 ==> #[trigger] final(self).frame()[p * 128 + c]
                    == rendered_byte(*view, p, c),
    {
        self.framebuffer = [0; 1024];
        let mut row: usize = 0;
        while row < 4
            invariant
                0 <= row <= 4,
                self.framebuffer@.len() == 1024,
                forall|p: int, c: int|
                    0 <= p < 8 && 0 <= c < 128 ==> #[trigger] self.framebuffer@[p * 128 + c] == if p
                        < row || p == 5 && false {
                        rendered_byte(*view, p, c)
                    } else {
                        0u8
                    },
            decreases 4 - row,
        {
            let line = view.lines[row].as_bytes();
            self.draw_line(row, line);
            row = row + 1;
        }
        let status = view.status.as_bytes();
        self.draw_line(5, status);
    }

    /// Draws `bytes` (at most 21) on page `page`, over a dark page.
    fn draw_line(&mut self, page: usize, bytes: &[u8])
        requires
            page < 8,
            bytes@.len() <= LINE_CAPACITY,
            forall|c: int| 0 <= c < 128 ==> #[trigger] old(self).framebuffer@[page * 128 + c] == 0u8,
        ensures
            forall|p: int, c: int|
                0 <= p < 8 && 0 <= c < 128 ==> #[trigger] final(self).framebuffer@[p * 128 + c] == if p
                    == page {
                    if c / 6 < bytes@.len() && c % 6 < 5 {
                        glyph_of(bytes@[c / 6])[c % 6]
                    } else {
                        0u8
                    }
                } else {
                    old(self).framebuffer@[p * 128 + c]
                },
    {
        let mut column: usize = 0;
        while column < bytes.len()
            invariant
                0 <= column <= bytes@.len() <= LINE_CAPACITY,
                page < 8,
                self.framebuffer@.len() == 1024,
                forall|p: int, c: int|
                    0 <= p < 8 && 0 <= c < 128 ==> #[trigger] self.framebuffer@[p * 128 + c] == if p
                        == page {
                        if c / 6 < column && c % 6 < 5 {
                            glyph_of(bytes@[c / 6])[c % 6]
                        } else {
                            0u8
                        }
                    } else {
                        old(self).framebuffer@[p * 128 + c]
                    },
            decreases bytes@.len() - column,
        {
            let g = glyph(bytes[column]);
            let start = page * 128 + column * 6;
            let mut j: usize = 0;
            while j < 5
                invariant
                    0 <= j <= 5,
                    column < bytes@.len() <= LINE_CAPACITY,
                    page < 8,
                    start == page * 128 + column * 6,
                    g@ == glyph_of(bytes@[column as int]),
                    self.framebuffer@.len() == 1024,
                    forall|p: int, c: int|
                        0 <= p < 8 && 0 <= c < 128 ==> #[trigger] self.framebuffer@[p * 128 + c] == if p
                            == page {
                            if (c / 6 < column || c / 6 == column && c % 6 < j) && c % 6 < 5 {
                                glyph_of(bytes@[c / 6])[c % 6]
                            } else {
                                0u8
                            }
                        } else {
                            old(self).framebuffer@[p * 128 + c]
                        },
                decreases 5 - j,
            {
                self.framebuffer[start + j] = g[j];
                proof {
                    assert forall|p: int, c: int|
                        0 <= p < 8 && 0 <= c < 128 implies #[trigger] self.framebuffer@[p * 128 + c]
                        == if p == page {
                        if (c / 6 < column || c / 6 == column && c % 6 < j + 1) && c % 6 < 5 {
                            glyph_of(bytes@[c / 6])[c % 6]
                        } else {
                            0u8
                        }
                    } else {
                        old(self).framebuffer@[p * 128 + c]
                    } by {
                        if p * 128 + c == start + j {
                            assert(p == page && c == column * 6 + j);
                            assert(c / 6 == column && c % 6 == j);
                        }
                    }
                }
                j = j + 1;
            }
            column = column + 1;
        }
    }
}

} // verus!
