//! Schema-driven, side-effect-free peripheral inspection.
//!
//! * Register words are read through [`Peripheral::peek`], never through a
//!   bus read, so inspecting a read-to-clear register never perturbs it.
//! * A register's value is `None` unless every byte of it was answered by the
//!   peripheral's model: a named register with nothing behind it is never
//!   reported as containing zero, and no field is sliced out of such a word.
//! * A schema contributes names, offsets and bit slices, never values.
//! * Large artifact payloads are summarised by an FNV-1a `generation` hash.
use vstd::prelude::*;

use crate::peripherals::noise::{fnv1a, FNV_OFFSET_BASIS, FNV_PRIME};

verus! {

/// A JSON value, carried opaquely as artifact metadata.
#[verifier::external_type_specification]
#[verifier::external_body]
pub struct ExJsonValue(serde_json::Value);

/// One field of a register schema: a named bit slice `[msb, lsb]`, inclusive.
#[derive(Debug, Clone)]
pub struct FieldSchema {
    pub name: String,
    pub bits: [u8; 2],
}

/// The register layout a peripheral advertises for decoding.
#[derive(Debug, Clone)]
pub struct RegisterSchema {
    pub name: String,
    pub offset: u64,
    /// Bit width: 8, 16 or 32.
    pub size: u8,
    /// `"rw"`, `"ro"` or `"wo"`.
    pub access: &'static str,
    pub fields: Vec<FieldSchema>,
}

/// A decoded field: the schema slice and its value.
#[derive(Debug, Clone)]
pub struct FieldView {
    pub name: String,
    pub bits: [u8; 2],
    pub value: u32,
}

/// One decoded register.
#[derive(Debug, Clone)]
pub struct RegisterView {
    pub name: String,
    pub offset: u64,
    pub size: u8,
    /// The word, when every byte of it was answered by the model.
    pub value: Option<u32>,
    /// The decoded fields; empty when `value` is `None`.
    pub fields: Vec<FieldView>,
    pub access: String,
}

/// A typed non-register artifact (framebuffer, UART ring, bus trace, ...).
#[derive(Debug)]
pub struct Artifact {
    pub kind: String,
    pub id: String,
    pub meta: serde_json::Value,
    /// The payload, present only when requested.
    pub bytes: Option<Vec<u8>>,
}

/// One peripheral's decoded state.
#[derive(Debug)]
pub struct PeripheralInspect {
    pub name: String,
    /// `"declarative"` or `"native"`.
    pub kind: String,
    pub base: u64,
    pub registers: Vec<RegisterView>,
    pub artifacts: Vec<Artifact>,
}

/// How an external device is wired: transport, controller, address.
#[derive(Debug, Clone)]
pub struct DeviceAttachment {
    /// How the device binds: `"i2c"`, `"spi"`, `"gpio"`, `"analog"`, `"can"`.
    pub transport: String,
    /// The controller peripheral the device hangs off; `None` only where the
    /// engine does not know it.
    pub bus: Option<String>,
    pub address: Option<u8>,
    pub cs_pin: Option<String>,
    pub mux_address: Option<u8>,
    pub channel: Option<u8>,
}

/// Options of an inspect walk.
#[derive(Debug, Clone, Default)]
pub struct InspectOpts {
    /// Artifacts carry their full payload; otherwise only metadata.
    pub include_payload: bool,
    /// Restrict the walk to one peripheral by name.
    pub peripheral: Option<String>,
}

/// One byte of a memory peek: modelled, or a gap in the address map.
#[derive(Debug, Clone, Copy, PartialEq, Eq)]
pub enum PeekByte {
    Mapped(u8),
    Unmapped,
}

/// `bytes.len()` peeked bytes starting at `addr`.
#[derive(Debug, Clone)]
pub struct PeekResult {
    pub addr: u64,
    pub bytes: Vec<PeekByte>,
}

/// A peeked byte with gaps read as zero.
pub open spec fn lossy_byte(b: PeekByte) -> u8 {
    match b {
        PeekByte::Mapped(v) => v,
        PeekByte::Unmapped => 0,
    }
}

impl PeekResult {
    /// The raw bytes, with `0` for unmapped positions.
    pub fn to_lossy_bytes(&self) -> (r: Vec<u8>)
        ensures
            r@ == self.bytes@.map_values(|b: PeekByte| lossy_byte(b)),
    {
        let mut out: Vec<u8> = Vec::new();
        let mut i: usize = 0;
        while i < self.bytes.len()
            invariant
                0 <= i <= self.bytes@.len(),
                out@ == self.bytes@.subrange(0, i as int).map_values(|b: PeekByte| lossy_byte(b)),
            decreases self.bytes@.len() - i,
        {
            let v = match self.bytes[i] {
                PeekByte::Mapped(v) => v,
                PeekByte::Unmapped => 0,
            };
            out.push(v);
            assert(self.bytes@.subrange(0, i + 1).map_values(|b: PeekByte| lossy_byte(b))
                =~= self.bytes@.subrange(0, i as int).map_values(|b: PeekByte| lossy_byte(b)).push(
                v,
            ));
            i = i + 1;
        }
        assert(self.bytes@.subrange(0, self.bytes@.len() as int) =~= self.bytes@);
        out
    }
}

/// The most significant bit of a `[msb, lsb]` slice, capped at 31.
pub open spec fn field_msb(bits: [u8; 2]) -> u8 {
    if bits@[0] < 31 {
        bits@[0]
    } else {
        31
    }
}

/// The least significant bit of a slice, capped at its most significant bit.
pub open spec fn field_lsb(bits: [u8; 2]) -> u8 {
    if bits@[1] < field_msb(bits) {
        bits@[1]
    } else {
        field_msb(bits)
    }
}

/// The low `width` bits set.
pub open spec fn low_mask(width: u8) -> u32 {
    if width >= 32 {
        0xffff_ffff
    } else {
        ((1u32 << width) - 1) as u32
    }
}

/// The value of slice `bits` of `word`: the `msb - lsb + 1` bits starting at
/// `lsb`.
pub open spec fn field_value(word: u32, bits: [u8; 2]) -> u32 {
    let lsb = field_lsb(bits);
    (word >> lsb) & low_mask((field_msb(bits) - lsb + 1) as u8)
}

/// A field `[msb, lsb]` with `lsb <= msb <= 31` is the `msb - lsb + 1` bits of
/// the word starting at bit `lsb`: the word divided by `2^lsb`, modulo
/// `2^(msb - lsb + 1)`, so below that power of two.
pub proof fn lemma_field_is_bit_slice(word: u32, msb: u8, lsb: u8)
    requires
        lsb <= msb <= 31,
    ensures
        field_value(word, [msb, lsb]) as int == (word as int / vstd::arithmetic::power2::pow2(
            lsb as nat,
        ) as int) % vstd::arithmetic::power2::pow2((msb - lsb + 1) as nat) as int,
        field_value(word, [msb, lsb]) < vstd::arithmetic::power2::pow2((msb - lsb + 1) as nat),
{
    let bits = [msb, lsb];
    assert(bits@[0] == msb && bits@[1] == lsb);
    let width = (msb - lsb + 1) as u8;
    let x = word >> (lsb as u32);
    assert(x == word >> lsb);
    vstd::bits::lemma_u32_shr_is_div(word, lsb as u32);
    vstd::arithmetic::power2::lemma_pow2_pos(width as nat);
    if width < 32 {
        vstd::bits::lemma_u32_pow2_no_overflow(width as nat);
        vstd::bits::lemma_u32_shl_is_mul(1, width as u32);
        assert((1u32 << width) == (1u32 << (width as u32))) by (bit_vector);
        vstd::bits::lemma_u32_low_bits_mask_is_mod(x, width as nat);
        assert(low_mask(width) == vstd::bits::low_bits_mask(width as nat) as u32);
        assert(field_value(word, bits) == x & low_mask(width));
        assert((x % (vstd::arithmetic::power2::pow2(width as nat) as u32)) as int == x as int
            % vstd::arithmetic::power2::pow2(width as nat) as int);
    } else {
        vstd::arithmetic::power2::lemma2_to64();
        assert(x & 0xffff_ffff == x) by (bit_vector);
        assert(lsb == 0 && width == 32);
        assert(field_value(word, bits) == x);
        assert(x as int == word as int / 1);
    }
}

/// Out-of-range slices are clamped, not refused: an `msb` above 31 reads as
/// bit 31, and an `lsb` above the `msb` reads as the one bit at the `msb`.
pub proof fn lemma_field_clamping(word: u32, msb: u8, lsb: u8)
    ensures
        msb > 31 ==> field_value(word, [msb, lsb]) == field_value(word, [31u8, lsb]),
        msb <= 31 && lsb > msb ==> field_value(word, [msb, lsb]) == field_value(word, [msb, msb]),
{
    let a = [msb, lsb];
    let b = [31u8, lsb];
    let c = [msb, msb];
    assert(a@[0] == msb && a@[1] == lsb && b@[0] == 31 && b@[1] == lsb && c@[0] == msb && c@[1] == msb);
}

/// Extracts the value of a `[msb, lsb]` (inclusive) bit slice of `word`; an
/// `msb` above 31 reads as 31 and an `lsb` above `msb` as `msb`.
pub fn extract_field(word: u32, bits: [u8; 2]) -> (r: u32)
    ensures
        r == field_value(word, bits),
{
    let msb = if bits[0] < 31 {
        bits[0]
    } else {
        31
    };
    let lsb = if bits[1] < msb {
        bits[1]
    } else {
        msb
    };
    let width = msb - lsb + 1;
    let mask = if width >= 32 {
        u32::MAX
    } else {
        assert(1u32 << width >= 1) by (bit_vector)
            requires
                width < 32,
        ;
        (1u32 << width) - 1
    };
    (word >> lsb) & mask
}

/// An unanswered byte anywhere makes the whole word unanswered: a word is
/// never half read from the model and half invented.
pub proof fn lemma_missing_byte(peeks: Seq<Option<u8>>, j: int)
    requires
        0 <= j < peeks.len(),
        peeks[j] is None,
    ensures
        assembled_word(peeks) is None,
    decreases j,
{
    if j > 0 {
        lemma_missing_byte(peeks.drop_first(), j - 1);
    }
}

/// The word assembled from peeked bytes: `None` if any byte was unanswered.
pub open spec fn assembled_word(peeks: Seq<Option<u8>>) -> Option<u32>
    decreases peeks.len(),
{
    if peeks.len() == 0 {
        Some(0)
    } else {
        match (peeks[0], assembled_word(peeks.drop_first())) {
            (Some(b), Some(rest)) => Some((b + 256 * rest) as u32),
            _ => None,
        }
    }
}

/// Register words are little-endian: the byte at the lowest offset is the
/// least significant.
pub proof fn lemma_word_little_endian(b0: u8, b1: u8, b2: u8, b3: u8)
    ensures
        assembled_word(seq![Some(b0)]) == Some(b0 as u32),
        assembled_word(seq![Some(b0), Some(b1)]) == Some((b0 + 256 * b1) as u32),
        assembled_word(seq![Some(b0), Some(b1), Some(b2), Some(b3)]) == Some(
            (b0 + 0x100 * b1 + 0x1_0000 * b2 + 0x100_0000 * b3) as u32,
        ),
{
    let s1 = seq![Some(b0)];
    let s2 = seq![Some(b0), Some(b1)];
    let s4 = seq![Some(b0), Some(b1), Some(b2), Some(b3)];
    assert(s1.drop_first() =~= Seq::<Option<u8>>::empty());
    assert(s2.drop_first() =~= seq![Some(b1)]);
    assert(seq![Some(b1)].drop_first() =~= Seq::<Option<u8>>::empty());
    assert(s4.drop_first() =~= seq![Some(b1), Some(b2), Some(b3)]);
    assert(seq![Some(b1), Some(b2), Some(b3)].drop_first() =~= seq![Some(b2), Some(b3)]);
    assert(seq![Some(b2), Some(b3)].drop_first() =~= seq![Some(b3)]);
    assert(seq![Some(b3)].drop_first() =~= Seq::<Option<u8>>::empty());
    assert(assembled_word(Seq::<Option<u8>>::empty()) == Some(0u32));
    assert(seq![Some(b3)][0] == Some(b3) && seq![Some(b1)][0] == Some(b1) && s1[0] == Some(b0));
    assert(assembled_word(seq![Some(b3)]) == Some(b3 as u32));
    assert(assembled_word(seq![Some(b2), Some(b3)]) == Some((b2 + 256 * b3) as u32));
    assert(assembled_word(seq![Some(b1), Some(b2), Some(b3)]) == Some((b1 + 256 * (b2 + 256 * b3)) as u32));
    assert(assembled_word(seq![Some(b1)]) == Some(b1 as u32));
}

/// Bytes a register of `size` bits spans: `size / 8`, at least one.
pub open spec fn register_bytes(size: u8) -> nat {
    if size / 8 < 1 {
        1
    } else {
        (size / 8) as nat
    }
}

/// A peripheral that can be inspected: it answers side-effect-free byte
/// probes where its model has the byte, and may advertise a register schema.
///
/// `peek_spec` and `schema_spec` say what an implementation answers; both are
/// "nothing" unless the implementation says otherwise, and `peek` must be a
/// pure function of the offset.
pub trait Peripheral {
    /// What `peek` answers at `offset`.
    open spec fn peek_spec(&self, offset: u64) -> Option<u8> {
        None
    }

    /// The register layout `describe_registers` hands out.
    open spec fn schema_spec(&self) -> Option<Seq<RegisterSchema>> {
        None
    }

    /// The byte at `offset`, read without side effects, if the model answers.
    fn peek(&self, offset: u64) -> (r: Option<u8>)
        ensures
            r == self.peek_spec(offset),
    ;

    /// The register layout, if the peripheral has one.
    fn describe_registers(&self) -> (r: Option<Vec<RegisterSchema>>)
        ensures
            match r {
                Some(v) => self.schema_spec() == Some(v@),
                None => self.schema_spec() is None,
            },
    ;
}

/// The bytes a word probe of `size` bits at `offset` reads, least significant
/// first.
pub open spec fn peeked_bytes<P: Peripheral>(p: &P, offset: u64, size: u8) -> Seq<Option<u8>> {
    Seq::new(register_bytes(size), |i: int| p.peek_spec((offset + i) as u64))
}

/// The word a probe of `size` bits at `offset` reads: `None` unless every
/// byte is answered.
pub open spec fn peeked_word<P: Peripheral>(p: &P, offset: u64, size: u8) -> Option<u32> {
    assembled_word(peeked_bytes(p, offset, size))
}

/// Whether a register's geometry can be probed: at most 39 bits wide, and
/// its bytes inside the address space.
pub open spec fn probe_fits(reg: RegisterSchema) -> bool {
    reg.size < 40 && reg.offset + register_bytes(reg.size) - 1 <= u64::MAX
}

/// The value inspection reports for `reg`: the probed word, or `None` when
/// the geometry cannot be probed.
pub open spec fn probed_value<P: Peripheral>(p: &P, reg: RegisterSchema) -> Option<u32> {
    if probe_fits(reg) {
        peeked_word(p, reg.offset, reg.size)
    } else {
        None
    }
}

/// `rv` is the view of register `reg` with word `value`: the schema's name,
/// offset, size and access, that value, and its fields decoded from it (none
/// without a value).
pub open spec fn is_view_of(rv: RegisterView, reg: RegisterSchema, value: Option<u32>) -> bool {
    &&& rv.name@ == reg.name@
    &&& rv.offset == reg.offset
    &&& rv.size == reg.size
    &&& rv.value == value
    &&& rv.access@ == reg.access@
    &&& (value is None ==> rv.fields@.len() == 0)
    &&& (value matches Some(v) ==> rv.fields@.len() == reg.fields@.len() && forall|i: int|
        0 <= i < reg.fields@.len() ==> {
            &&& (#[trigger] rv.fields@[i]).name@ == reg.fields@[i].name@
            &&& rv.fields@[i].bits == reg.fields@[i].bits
            &&& rv.fields@[i].value == field_value(v, reg.fields@[i].bits)
        })
}

/// Assembles a little-endian word from peeked bytes; `None` if any byte is
/// missing.
pub fn assemble_word(peeks: &[Option<u8>]) -> (r: Option<u32>)
    requires
        peeks@.len() <= 4,
    ensures
        r == assembled_word(peeks@),
{
    let mut word: u32 = 0;
    let mut i: usize = peeks.len();
    while i > 0
        invariant
            0 <= i <= peeks@.len() <= 4,
            assembled_word(peeks@.subrange(i as int, peeks@.len() as int)) == Some(word),
            peeks@.len() - i == 0 ==> word == 0,
            peeks@.len() - i <= 1 ==> word < 0x100,
            peeks@.len() - i <= 2 ==> word < 0x1_0000,
            peeks@.len() - i <= 3 ==> word < 0x100_0000,
        decreases i,
    {
        let ghost rest = peeks@.subrange(i as int, peeks@.len() as int);
        let ghost here = peeks@.subrange(i - 1, peeks@.len() as int);
        assert(here.drop_first() =~= rest);
        match peeks[i - 1] {
            None => {
                proof {
                    lemma_missing_byte(peeks@, i - 1);
                }
                return None;
            },
            Some(b) => {
                word = (b as u32) + 256 * word;
                i = i - 1;
            },
        }
    }
    assert(peeks@.subrange(0, peeks@.len() as int) =~= peeks@);
    Some(word)
}

/// Reads the register word of `size` bits at `offset` through `peek`, least
/// significant byte first, stopping at the first unanswered byte.
pub fn peek_word<P: Peripheral>(p: &P, offset: u64, size: u8) -> (r: Option<u32>)
    requires
        size < 40,
        offset + register_bytes(size) - 1 <= u64::MAX,
    ensures
        r == peeked_word(p, offset, size),
{
    let n: usize = if size / 8 < 1 {
        1
    } else {
        (size / 8) as usize
    };
    let ghost want = peeked_bytes(p, offset, size);
    let mut peeks: Vec<Option<u8>> = Vec::new();
    let mut i: usize = 0;
    while i < n
        invariant
            0 <= i <= n <= 4,
            n == register_bytes(size),
            offset + n - 1 <= u64::MAX,
            want == peeked_bytes(p, offset, size),
            want.len() == n,
            peeks@ == want.take(i as int),
        decreases n - i,
    {
        let b = p.peek(offset + i as u64);
        assert(want[i as int] == b);
        if b.is_none() {
            proof {
                lemma_missing_byte(want, i as int);
            }
            return None;
        }
        peeks.push(b);
        assert(want.take(i + 1) =~= want.take(i as int).push(b));
        i = i + 1;
    }
    assert(want.take(n as int) =~= want);
    assemble_word(peeks.as_slice())
}

/// The fields of `fields` decoded from `value`: none at all when the word is
/// unknown.
pub fn decode_fields(value: Option<u32>, fields: &[FieldSchema]) -> (r: Vec<FieldView>)
    ensures
        value is None ==> r@.len() == 0,
        value matches Some(v) ==> r@.len() == fields@.len() && forall|i: int|
            0 <= i < fields@.len() ==> {
                &&& (#[trigger] r@[i]).name@ == fields@[i].name@
                &&& r@[i].bits == fields@[i].bits
                &&& r@[i].value == field_value(v, fields@[i].bits)
            },
{
    let v = match value {
        Some(v) => v,
        None => return Vec::new(),
    };
    let mut out: Vec<FieldView> = Vec::new();
    let mut i: usize = 0;
    while i < fields.len()
        invariant
            0 <= i <= fields@.len(),
            out@.len() == i,
            forall|j: int|
                0 <= j < i ==> {
                    &&& (#[trigger] out@[j]).name@ == fields@[j].name@
                    &&& out@[j].bits == fields@[j].bits
                    &&& out@[j].value == field_value(v, fields@[j].bits)
                },
        decreases fields@.len() - i,
    {
        let f = &fields[i];
        out.push(FieldView { name: f.name.clone(), bits: f.bits, value: extract_field(v, f.bits) });
        i = i + 1;
    }
    out
}

/// The view of register `reg` whose word read as `value`.
pub fn register_view(reg: &RegisterSchema, value: Option<u32>) -> (r: RegisterView)
    ensures
        is_view_of(r, *reg, value),
{
    RegisterView {
        name: reg.name.clone(),
        offset: reg.offset,
        size: reg.size,
        value,
        fields: decode_fields(value, reg.fields.as_slice()),
        access: reg.access.to_owned(),
    }
}

/// Reads one register of `p`; a register whose geometry cannot be probed
/// (wider than 39 bits, or running past the end of the address space) is
/// unreadable.
fn probe_register<P: Peripheral>(p: &P, reg: &RegisterSchema) -> (r: RegisterView)
    ensures
        is_view_of(r, *reg, probed_value(p, *reg)),
{
    let n: u64 = if reg.size / 8 < 1 {
        1
    } else {
        (reg.size / 8) as u64
    };
    let value = if reg.size < 40 && reg.offset <= u64::MAX - (n - 1) {
        peek_word(p, reg.offset, reg.size)
    } else {
        None
    };
    register_view(reg, value)
}

/// Generic inspection: every register of the peripheral's own schema, read
/// through `peek`, with its fields; `kind` is `"declarative"` when the
/// peripheral has a schema and `"native"` (with no registers) otherwise.
pub fn default_inspect<P: Peripheral>(p: &P, base: u64, name: &str, _opts: &InspectOpts) -> (r:
    PeripheralInspect)
    ensures
        r.name@ == name@,
        r.base == base,
        r.artifacts@.len() == 0,
        match p.schema_spec() {
            None => r.kind@ == "native"@ && r.registers@.len() == 0,
            Some(s) => {
                &&& r.kind@ == "declarative"@
                &&& r.registers@.len() == s.len()
                &&& forall|i: int|
                    0 <= i < s.len() ==> is_view_of(
                        #[trigger] r.registers@[i],
                        s[i],
                        probed_value(p, s[i]),
                    )
            },
        },
{
    let schema = p.describe_registers();
    proof {
        reveal_strlit("declarative");
        reveal_strlit("native");
    }
    match schema {
        Some(schema) => {
            let registers = probe_all(p, schema.as_slice());
            PeripheralInspect {
                name: name.to_owned(),
                kind: "declarative".to_owned(),
                base,
                registers,
                artifacts: Vec::new(),
            }
        },
        None => PeripheralInspect {
            name: name.to_owned(),
            kind: "native".to_owned(),
            base,
            registers: Vec::new(),
            artifacts: Vec::new(),
        },
    }
}

/// Every register of `schema`, in order, read from `p`.
fn probe_all<P: Peripheral>(p: &P, schema: &[RegisterSchema]) -> (r: Vec<RegisterView>)
    ensures
        r@.len() == schema@.len(),
        forall|i: int|
            0 <= i < schema@.len() ==> is_view_of(
                #[trigger] r@[i],
                schema@[i],
                probed_value(p, schema@[i]),
            ),
{
    let mut registers: Vec<RegisterView> = Vec::new();
    let mut i: usize = 0;
    while i < schema.len()
        invariant
            0 <= i <= schema@.len(),
            registers@.len() == i,
            forall|j: int|
                0 <= j < i ==> is_view_of(
                    #[trigger] registers@[j],
                    schema@[j],
                    probed_value(p, schema@[j]),
                ),
        decreases schema@.len() - i,
    {
        registers.push(probe_register(p, &schema[i]));
        i = i + 1;
    }
    registers
}

/// Inspection against an externally supplied schema (for peripherals that
/// advertise none): the schema names the registers, every value still comes
/// from the model through `peek`, and `kind` stays `"native"`.
pub fn inspect_with_schema<P: Peripheral>(
    p: &P,
    base: u64,
    name: &str,
    schema: &[RegisterSchema],
) -> (r: PeripheralInspect)
    ensures
        r.name@ == name@,
        r.kind@ == "native"@,
        r.base == base,
        r.artifacts@.len() == 0,
        r.registers@.len() == schema@.len(),
        forall|i: int|
            0 <= i < schema@.len() ==> is_view_of(
                #[trigger] r.registers@[i],
                schema@[i],
                probed_value(p, schema@[i]),
            ),
{
    let registers = probe_all(p, schema);
    PeripheralInspect {
        name: name.to_owned(),
        kind: "native".to_owned(),
        base,
        registers,
        artifacts: Vec::new(),
    }
}

/// FNV-1a hash of a buffer: the cheap `generation` that tells callers whether
/// an artifact changed without pulling its bytes.
pub fn artifact_generation(bytes: &[u8]) -> (r: u64)
    ensures
        r == fnv1a(FNV_OFFSET_BASIS, bytes@),
{
    let mut hash: u64 = FNV_OFFSET_BASIS;
    let mut i: usize = 0;
    while i < bytes.len()
        invariant
            0 <= i <= bytes@.len(),
            hash == fnv1a(FNV_OFFSET_BASIS, bytes@.subrange(0, i as int)),
        decreases bytes@.len() - i,
    {
        assert(bytes@.subrange(0, i + 1).drop_last() =~= bytes@.subrange(0, i as int));
        hash = (hash ^ (bytes[i] as u64)).wrapping_mul(FNV_PRIME);
        i = i + 1;
    }
    assert(bytes@.subrange(0, bytes@.len() as int) =~= bytes@);
    hash
}

} // verus!
