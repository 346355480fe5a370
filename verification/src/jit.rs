//! The integer-ALU WebAssembly emitter of the RISC-V block compiler.
//!
//! A compiled block keeps the guest registers in wasm locals (`x0..x31` are
//! locals `0..31`): a prologue loads every register the block reads from the
//! imported register memory (word `i` is `xi`), one emit per guest
//! instruction works on locals only, and an epilogue stores every register
//! the block wrote back. `x0` reads as the constant `0` and writes to it are
//! dropped.
//!
//! Each emit is stated as the exact bytes it appends (see [`inst_code`]) and
//! the registers it marks as read and written.
use vstd::prelude::*;

verus! {

/// WebAssembly opcodes and type codes used by the emitter.
pub const OP_IF: u8 = 0x04;
pub const OP_ELSE: u8 = 0x05;
pub const OP_END: u8 = 0x0b;
pub const OP_DROP: u8 = 0x1a;
pub const OP_LOCAL_GET: u8 = 0x20;
pub const OP_LOCAL_SET: u8 = 0x21;
pub const OP_I32_LOAD: u8 = 0x28;
pub const OP_I32_STORE: u8 = 0x36;
pub const OP_I32_CONST: u8 = 0x41;
pub const OP_I64_CONST: u8 = 0x42;
pub const OP_I32_EQZ: u8 = 0x45;
pub const OP_I32_EQ: u8 = 0x46;
pub const OP_I32_NE: u8 = 0x47;
pub const OP_I32_LT_S: u8 = 0x48;
pub const OP_I32_LT_U: u8 = 0x49;
pub const OP_I32_GE_S: u8 = 0x4e;
pub const OP_I32_GE_U: u8 = 0x4f;
pub const OP_I32_ADD: u8 = 0x6a;
pub const OP_I32_SUB: u8 = 0x6b;
pub const OP_I32_MUL: u8 = 0x6c;
pub const OP_I32_DIV_S: u8 = 0x6d;
pub const OP_I32_DIV_U: u8 = 0x6e;
pub const OP_I32_REM_S: u8 = 0x6f;
pub const OP_I32_REM_U: u8 = 0x70;
pub const OP_I32_AND: u8 = 0x71;
pub const OP_I32_OR: u8 = 0x72;
pub const OP_I32_XOR: u8 = 0x73;
pub const OP_I32_SHL: u8 = 0x74;
pub const OP_I32_SHR_S: u8 = 0x75;
pub const OP_I32_SHR_U: u8 = 0x76;
pub const OP_I64_MUL: u8 = 0x7e;
pub const OP_I64_SHR_U: u8 = 0x88;
pub const OP_I32_WRAP_I64: u8 = 0xa7;
pub const OP_I64_EXTEND_I32_S: u8 = 0xac;
pub const OP_I64_EXTEND_I32_U: u8 = 0xad;
/// The `i32` value type.
pub const T_I32: u8 = 0x7f;

/// The decoded RV32IMC instructions the block compiler emits: the integer
/// ALU (with the compressed forms), and the branches and jumps that end a
/// block. Register fields are register numbers.
#[derive(Clone, Copy, Debug, PartialEq, Eq)]
pub enum Instruction {
    Lui { rd: u8, imm: u32 },
    Auipc { rd: u8, imm: u32 },
    Addi { rd: u8, rs1: u8, imm: i32 },
    Xori { rd: u8, rs1: u8, imm: i32 },
    Ori { rd: u8, rs1: u8, imm: i32 },
    Andi { rd: u8, rs1: u8, imm: i32 },
    Slti { rd: u8, rs1: u8, imm: i32 },
    Sltiu { rd: u8, rs1: u8, imm: i32 },
    Slli { rd: u8, rs1: u8, shamt: u8 },
    Srli { rd: u8, rs1: u8, shamt: u8 },
    Srai { rd: u8, rs1: u8, shamt: u8 },
    Add { rd: u8, rs1: u8, rs2: u8 },
    Sub { rd: u8, rs1: u8, rs2: u8 },
    Xor { rd: u8, rs1: u8, rs2: u8 },
    Or { rd: u8, rs1: u8, rs2: u8 },
    And { rd: u8, rs1: u8, rs2: u8 },
    Slt { rd: u8, rs1: u8, rs2: u8 },
    Sltu { rd: u8, rs1: u8, rs2: u8 },
    Sll { rd: u8, rs1: u8, rs2: u8 },
    Srl { rd: u8, rs1: u8, rs2: u8 },
    Sra { rd: u8, rs1: u8, rs2: u8 },
    Mul { rd: u8, rs1: u8, rs2: u8 },
    Mulh { rd: u8, rs1: u8, rs2: u8 },
    Mulhsu { rd: u8, rs1: u8, rs2: u8 },
    Mulhu { rd: u8, rs1: u8, rs2: u8 },
    Div { rd: u8, rs1: u8, rs2: u8 },
    Divu { rd: u8, rs1: u8, rs2: u8 },
    Rem { rd: u8, rs1: u8, rs2: u8 },
    Remu { rd: u8, rs1: u8, rs2: u8 },
    CAddi { rd: u8, imm: i32 },
    CLi { rd: u8, imm: i32 },
    CMv { rd: u8, rs2: u8 },
    CAddi16sp { imm: i32 },
    CAddi4spn { rd: u8, imm: u32 },
    CSli { rd: u8, shamt: u8 },
    Beq { rs1: u8, rs2: u8, imm: i32 },
    Bne { rs1: u8, rs2: u8, imm: i32 },
    Blt { rs1: u8, rs2: u8, imm: i32 },
    Bge { rs1: u8, rs2: u8, imm: i32 },
    Bltu { rs1: u8, rs2: u8, imm: i32 },
    Bgeu { rs1: u8, rs2: u8, imm: i32 },
    CBeqz { rs1: u8, imm: i32 },
    CBnez { rs1: u8, imm: i32 },
    Jal { rd: u8, imm: i32 },
    Jalr { rd: u8, rs1: u8, imm: i32 },
    CJ { imm: i32 },
    CJr { rs1: u8 },
    CJalr { rs1: u8 },
}

/// A value that needs another unsigned LEB128 byte leaves a smaller one.
pub proof fn lemma_uleb_shrinks(v: u64)
    ensures
        v >> 7u64 != 0 ==> v >> 7u64 < v,
{
    assert(v >> 7u64 != 0 ==> v >> 7u64 < v) by (bit_vector);
}

/// Unsigned LEB128 of `v`.
pub open spec fn uleb_spec(v: u64) -> Seq<u8>
    decreases v,
{
    let byte = (v & 0x7f) as u8;
    let rest = v >> 7u64;
    if rest == 0 {
        seq![byte]
    } else {
        proof {
            lemma_uleb_shrinks(v);
        }
        seq![byte | 0x80] + uleb_spec(rest)
    }
}

/// The magnitude that shrinks along a signed LEB128 encoding.
pub open spec fn magnitude(v: i64) -> int {
    if v < 0 {
        -(v as int)
    } else {
        v as int
    }
}

/// Whether the signed LEB128 encoding of `v` ends with this byte.
pub open spec fn sleb_last(v: i64) -> bool {
    let byte = (v & 0x7f) as u8;
    let rest = v >> 7u64;
    (rest == 0 && byte & 0x40 == 0) || (rest == -1 && byte & 0x40 != 0)
}

/// A byte that does not end the encoding leaves a smaller value to encode.
pub proof fn lemma_sleb_shrinks(v: i64)
    requires
        !sleb_last(v),
    ensures
        magnitude(v >> 7u64) < magnitude(v),
{
    let rest = v >> 7u64;
    let byte = (v & 0x7f) as u8;
    assert((v == 0 ==> rest == 0 && byte & 0x40 == 0) && (v == -1 ==> rest == -1 && byte & 0x40
        != 0) && (v > 0 ==> 0 <= rest && rest < v) && (v < -1 ==> v < rest && rest < 0))
        by (bit_vector)
        requires
            rest == v >> 7u64,
            byte == (v & 0x7f) as u8,
    ;
}

/// Signed LEB128 of `v`.
pub open spec fn sleb_spec(v: i64) -> Seq<u8>
    decreases magnitude(v),
{
    let byte = (v & 0x7f) as u8;
    if sleb_last(v) {
        seq![byte]
    } else {
        proof {
            lemma_sleb_shrinks(v);
        }
        seq![byte | 0x80] + sleb_spec(v >> 7u64)
    }
}

/// Appends the unsigned LEB128 of `v`.
pub fn uleb(buf: &mut Vec<u8>, v: u64)
    ensures
        final(buf)@ == old(buf)@ + uleb_spec(v),
    decreases v,
{
    let byte = (v & 0x7f) as u8;
    let rest = v >> 7;
    if rest == 0 {
        buf.push(byte);
        assert(uleb_spec(v) == seq![byte]);
    } else {
        proof {
            lemma_uleb_shrinks(v);
        }
        let ghost before = buf@;
        buf.push(byte | 0x80);
        uleb(buf, rest);
        assert(buf@ =~= before + uleb_spec(v));
    }
}

/// Appends the signed LEB128 of `v`.
pub fn sleb(buf: &mut Vec<u8>, v: i64)
    ensures
        final(buf)@ == old(buf)@ + sleb_spec(v),
    decreases magnitude(v),
{
    let byte = (v & 0x7f) as u8;
    let rest = v >> 7;
    if (rest == 0 && byte & 0x40 == 0) || (rest == -1 && byte & 0x40 != 0) {
        buf.push(byte);
        assert(sleb_last(v));
    } else {
        assert(!sleb_last(v));
        proof {
            lemma_sleb_shrinks(v);
        }
        let ghost before = buf@;
        buf.push(byte | 0x80);
        sleb(buf, rest);
        assert(buf@ =~= before + sleb_spec(v));
    }
}


/// Whether every register field of `inst` names one of the 32 registers.
pub open spec fn regs_in_range(inst: Instruction) -> bool {
    match inst {
        Instruction::Lui { rd, .. } => rd < 32,
        Instruction::Auipc { rd, .. } => rd < 32,
        Instruction::Addi { rd, rs1, .. } => rd < 32 && rs1 < 32,
        Instruction::Xori { rd, rs1, .. } => rd < 32 && rs1 < 32,
        Instruction::Ori { rd, rs1, .. } => rd < 32 && rs1 < 32,
        Instruction::Andi { rd, rs1, .. } => rd < 32 && rs1 < 32,
        Instruction::Slti { rd, rs1, .. } => rd < 32 && rs1 < 32,
        Instruction::Sltiu { rd, rs1, .. } => rd < 32 && rs1 < 32,
        Instruction::Slli { rd, rs1, .. } => rd < 32 && rs1 < 32,
        Instruction::Srli { rd, rs1, .. } => rd < 32 && rs1 < 32,
        Instruction::Srai { rd, rs1, .. } => rd < 32 && rs1 < 32,
        Instruction::Add { rd, rs1, rs2 } => rd < 32 && rs1 < 32 && rs2 < 32,
        Instruction::Sub { rd, rs1, rs2 } => rd < 32 && rs1 < 32 && rs2 < 32,
        Instruction::Xor { rd, rs1, rs2 } => rd < 32 && rs1 < 32 && rs2 < 32,
        Instruction::Or { rd, rs1, rs2 } => rd < 32 && rs1 < 32 && rs2 < 32,
        Instruction::And { rd, rs1, rs2 } => rd < 32 && rs1 < 32 && rs2 < 32,
        Instruction::Slt { rd, rs1, rs2 } => rd < 32 && rs1 < 32 && rs2 < 32,
        Instruction::Sltu { rd, rs1, rs2 } => rd < 32 && rs1 < 32 && rs2 < 32,
        Instruction::Sll { rd, rs1, rs2 } => rd < 32 && rs1 < 32 && rs2 < 32,
        Instruction::Srl { rd, rs1, rs2 } => rd < 32 && rs1 < 32 && rs2 < 32,
        Instruction::Sra { rd, rs1, rs2 } => rd < 32 && rs1 < 32 && rs2 < 32,
        Instruction::Mul { rd, rs1, rs2 } => rd < 32 && rs1 < 32 && rs2 < 32,
        Instruction::Mulh { rd, rs1, rs2 } => rd < 32 && rs1 < 32 && rs2 < 32,
        Instruction::Mulhsu { rd, rs1, rs2 } => rd < 32 && rs1 < 32 && rs2 < 32,
        Instruction::Mulhu { rd, rs1, rs2 } => rd < 32 && rs1 < 32 && rs2 < 32,
        Instruction::Div { rd, rs1, rs2 } => rd < 32 && rs1 < 32 && rs2 < 32,
        Instruction::Divu { rd, rs1, rs2 } => rd < 32 && rs1 < 32 && rs2 < 32,
        Instruction::Rem { rd, rs1, rs2 } => rd < 32 && rs1 < 32 && rs2 < 32,
        Instruction::Remu { rd, rs1, rs2 } => rd < 32 && rs1 < 32 && rs2 < 32,
        Instruction::CAddi { rd, .. } => rd < 32,
        Instruction::CLi { rd, .. } => rd < 32,
        Instruction::CMv { rd, rs2 } => rd < 32 && rs2 < 32,
        Instruction::CAddi16sp { .. } => true,
        Instruction::CAddi4spn { rd, .. } => rd < 32,
        Instruction::CSli { rd, .. } => rd < 32,
        Instruction::Beq { rs1, rs2, .. } => rs1 < 32 && rs2 < 32,
        Instruction::Bne { rs1, rs2, .. } => rs1 < 32 && rs2 < 32,
        Instruction::Blt { rs1, rs2, .. } => rs1 < 32 && rs2 < 32,
        Instruction::Bge { rs1, rs2, .. } => rs1 < 32 && rs2 < 32,
        Instruction::Bltu { rs1, rs2, .. } => rs1 < 32 && rs2 < 32,
        Instruction::Bgeu { rs1, rs2, .. } => rs1 < 32 && rs2 < 32,
        Instruction::CBeqz { rs1, .. } => rs1 < 32,
        Instruction::CBnez { rs1, .. } => rs1 < 32,
        Instruction::Jal { rd, .. } => rd < 32,
        Instruction::Jalr { rd, rs1, .. } => rd < 32 && rs1 < 32,
        Instruction::CJ { .. } => true,
        Instruction::CJr { rs1 } => rs1 < 32,
        Instruction::CJalr { rs1 } => rs1 < 32,
    }
}

/// Whether the emitter compiles `inst` as straight-line ALU code.
pub open spec fn alu_emittable(inst: Instruction) -> bool {
    match inst {
        Instruction::Lui { .. } | Instruction::Auipc { .. } | Instruction::Addi { .. } | Instruction::Xori { .. } | Instruction::Ori { .. } | Instruction::Andi { .. } | Instruction::Slti { .. } | Instruction::Sltiu { .. } | Instruction::Slli { .. } | Instruction::Srli { .. } | Instruction::Srai { .. } | Instruction::Add { .. } | Instruction::Sub { .. } | Instruction::Xor { .. } | Instruction::Or { .. } | Instruction::And { .. } | Instruction::Slt { .. } | Instruction::Sltu { .. } | Instruction::Sll { .. } | Instruction::Srl { .. } | Instruction::Sra { .. } | Instruction::Mul { .. } | Instruction::Mulh { .. } | Instruction::Mulhsu { .. } | Instruction::Mulhu { .. } | Instruction::Div { .. } | Instruction::Divu { .. } | Instruction::Rem { .. } | Instruction::Remu { .. } | Instruction::CAddi { .. } | Instruction::CLi { .. } | Instruction::CMv { .. } | Instruction::CAddi16sp { .. } | Instruction::CAddi4spn { .. } | Instruction::CSli { .. } => true,
        _ => false,
    }
}

/// Registers `inst` reads.
pub open spec fn inst_reads(inst: Instruction) -> Set<u8> {
    match inst {
        Instruction::Lui { rd, .. } => Set::empty(),
        Instruction::Auipc { rd, .. } => Set::empty(),
        Instruction::Addi { rd, rs1, .. } => set![rs1],
        Instruction::Xori { rd, rs1, .. } => set![rs1],
        Instruction::Ori { rd, rs1, .. } => set![rs1],
        Instruction::Andi { rd, rs1, .. } => set![rs1],
        Instruction::Slti { rd, rs1, .. } => set![rs1],
        Instruction::Sltiu { rd, rs1, .. } => set![rs1],
        Instruction::Slli { rd, rs1, .. } => set![rs1],
        Instruction::Srli { rd, rs1, .. } => set![rs1],
        Instruction::Srai { rd, rs1, .. } => set![rs1],
        Instruction::Add { rd, rs1, rs2 } => set![rs1, rs2],
        Instruction::Sub { rd, rs1, rs2 } => set![rs1, rs2],
        Instruction::Xor { rd, rs1, rs2 } => set![rs1, rs2],
        Instruction::Or { rd, rs1, rs2 } => set![rs1, rs2],
        Instruction::And { rd, rs1, rs2 } => set![rs1, rs2],
        Instruction::Slt { rd, rs1, rs2 } => set![rs1, rs2],
        Instruction::Sltu { rd, rs1, rs2 } => set![rs1, rs2],
        Instruction::Sll { rd, rs1, rs2 } => set![rs1, rs2],
        Instruction::Srl { rd, rs1, rs2 } => set![rs1, rs2],
        Instruction::Sra { rd, rs1, rs2 } => set![rs1, rs2],
        Instruction::Mul { rd, rs1, rs2 } => set![rs1, rs2],
        Instruction::Mulh { rd, rs1, rs2 } => set![rs1, rs2],
        Instruction::Mulhsu { rd, rs1, rs2 } => set![rs1, rs2],
        Instruction::Mulhu { rd, rs1, rs2 } => set![rs1, rs2],
        Instruction::Div { rd, rs1, rs2 } => set![rs1, rs2],
        Instruction::Divu { rd, rs1, rs2 } => set![rs1, rs2],
        Instruction::Rem { rd, rs1, rs2 } => set![rs1, rs2],
        Instruction::Remu { rd, rs1, rs2 } => set![rs1, rs2],
        Instruction::CAddi { rd, .. } => set![rd],
        Instruction::CLi { rd, .. } => Set::empty(),
        Instruction::CMv { rd, rs2 } => set![rs2],
        Instruction::CAddi16sp { .. } => set![2u8],
        Instruction::CAddi4spn { rd, .. } => set![2u8],
        Instruction::CSli { rd, .. } => set![rd],
        Instruction::Beq { rs1, rs2, .. } => set![rs1, rs2],
        Instruction::Bne { rs1, rs2, .. } => set![rs1, rs2],
        Instruction::Blt { rs1, rs2, .. } => set![rs1, rs2],
        Instruction::Bge { rs1, rs2, .. } => set![rs1, rs2],
        Instruction::Bltu { rs1, rs2, .. } => set![rs1, rs2],
        Instruction::Bgeu { rs1, rs2, .. } => set![rs1, rs2],
        Instruction::CBeqz { rs1, .. } => set![rs1],
        Instruction::CBnez { rs1, .. } => set![rs1],
        Instruction::Jal { rd, .. } => Set::empty(),
        Instruction::Jalr { rd, rs1, .. } => set![rs1],
        Instruction::CJ { .. } => Set::empty(),
        Instruction::CJr { rs1 } => set![rs1],
        Instruction::CJalr { rs1 } => set![rs1],
    }
}

/// Registers `inst` writes.
pub open spec fn inst_writes(inst: Instruction) -> Set<u8> {
    match inst {
        Instruction::Lui { rd, .. } => set![rd],
        Instruction::Auipc { rd, .. } => set![rd],
        Instruction::Addi { rd, rs1, .. } => set![rd],
        Instruction::Xori { rd, rs1, .. } => set![rd],
        Instruction::Ori { rd, rs1, .. } => set![rd],
        Instruction::Andi { rd, rs1, .. } => set![rd],
        Instruction::Slti { rd, rs1, .. } => set![rd],
        Instruction::Sltiu { rd, rs1, .. } => set![rd],
        Instruction::Slli { rd, rs1, .. } => set![rd],
        Instruction::Srli { rd, rs1, .. } => set![rd],
        Instruction::Srai { rd, rs1, .. } => set![rd],
        Instruction::Add { rd, rs1, rs2 } => set![rd],
        Instruction::Sub { rd, rs1, rs2 } => set![rd],
        Instruction::Xor { rd, rs1, rs2 } => set![rd],
        Instruction::Or { rd, rs1, rs2 } => set![rd],
        Instruction::And { rd, rs1, rs2 } => set![rd],
        Instruction::Slt { rd, rs1, rs2 } => set![rd],
        Instruction::Sltu { rd, rs1, rs2 } => set![rd],
        Instruction::Sll { rd, rs1, rs2 } => set![rd],
        Instruction::Srl { rd, rs1, rs2 } => set![rd],
        Instruction::Sra { rd, rs1, rs2 } => set![rd],
        Instruction::Mul { rd, rs1, rs2 } => set![rd],
        Instruction::Mulh { rd, rs1, rs2 } => set![rd],
        Instruction::Mulhsu { rd, rs1, rs2 } => set![rd],
        Instruction::Mulhu { rd, rs1, rs2 } => set![rd],
        Instruction::Div { rd, rs1, rs2 } => set![rd],
        Instruction::Divu { rd, rs1, rs2 } => set![rd],
        Instruction::Rem { rd, rs1, rs2 } => set![rd],
        Instruction::Remu { rd, rs1, rs2 } => set![rd],
        Instruction::CAddi { rd, .. } => set![rd],
        Instruction::CLi { rd, .. } => set![rd],
        Instruction::CMv { rd, rs2 } => set![rd],
        Instruction::CAddi16sp { .. } => set![2u8],
        Instruction::CAddi4spn { rd, .. } => set![rd],
        Instruction::CSli { rd, .. } => set![rd],
        Instruction::Beq { rs1, rs2, .. } => Set::empty(),
        Instruction::Bne { rs1, rs2, .. } => Set::empty(),
        Instruction::Blt { rs1, rs2, .. } => Set::empty(),
        Instruction::Bge { rs1, rs2, .. } => Set::empty(),
        Instruction::Bltu { rs1, rs2, .. } => Set::empty(),
        Instruction::Bgeu { rs1, rs2, .. } => Set::empty(),
        Instruction::CBeqz { rs1, .. } => Set::empty(),
        Instruction::CBnez { rs1, .. } => Set::empty(),
        Instruction::Jal { rd, .. } => set![rd],
        Instruction::Jalr { rd, rs1, .. } => set![rd],
        Instruction::CJ { .. } => Set::empty(),
        Instruction::CJr { rs1 } => Set::empty(),
        Instruction::CJalr { rs1 } => set![1u8],
    }
}

/// Reading register `r`: `i32.const 0` for `x0`, its local otherwise.
pub open spec fn read_code(r: u8) -> Seq<u8> {
    if r == 0 {
        seq![OP_I32_CONST] + sleb_spec(0)
    } else {
        seq![OP_LOCAL_GET] + uleb_spec(r as u64)
    }
}

/// Writing register `r`: the value is dropped for `x0`, set otherwise.
pub open spec fn write_code(r: u8) -> Seq<u8> {
    if r == 0 {
        seq![OP_DROP]
    } else {
        seq![OP_LOCAL_SET] + uleb_spec(r as u64)
    }
}

/// `i32.const v`.
pub open spec fn const_code(v: i32) -> Seq<u8> {
    seq![OP_I32_CONST] + sleb_spec(v as i64)
}

/// `rd = rs1 <op> rs2`.
pub open spec fn binop_code(rd: u8, rs1: u8, rs2: u8, op: u8) -> Seq<u8> {
    read_code(rs1) + read_code(rs2) + seq![op] + write_code(rd)
}

/// `rd = rs1 <op> imm`.
pub open spec fn binop_imm_code(rd: u8, rs1: u8, imm: i32, op: u8) -> Seq<u8> {
    read_code(rs1) + const_code(imm) + seq![op] + write_code(rd)
}

/// The high half of a 64-bit product of `rs1` and `rs2` extended by `ext1`
/// and `ext2`.
pub open spec fn mulh_code(rd: u8, rs1: u8, rs2: u8, ext1: u8, ext2: u8) -> Seq<u8> {
    read_code(rs1) + seq![ext1] + read_code(rs2) + seq![ext2, OP_I64_MUL, OP_I64_CONST]
        + sleb_spec(32) + seq![OP_I64_SHR_U, OP_I32_WRAP_I64] + write_code(rd)
}

/// `r == 0` on the stack.
pub open spec fn is_zero_code(r: u8) -> Seq<u8> {
    read_code(r) + seq![OP_I32_EQZ]
}

/// `rs1 == i32::MIN && rs2 == -1` on the stack.
pub open spec fn overflow_code(rs1: u8, rs2: u8) -> Seq<u8> {
    read_code(rs1) + const_code(i32::MIN) + seq![OP_I32_EQ] + read_code(rs2) + const_code(-1i32)
        + seq![OP_I32_EQ, OP_I32_AND]
}

/// `if (result i32)`.
pub open spec fn if_code() -> Seq<u8> {
    seq![OP_IF, T_I32]
}

/// Signed division that cannot trap.
pub open spec fn div_code(rd: u8, rs1: u8, rs2: u8) -> Seq<u8> {
    is_zero_code(rs2) + if_code() + const_code(-1i32) + seq![OP_ELSE] + overflow_code(rs1, rs2)
        + if_code() + read_code(rs1) + seq![OP_ELSE] + read_code(rs1) + read_code(rs2) + seq![
        OP_I32_DIV_S,
        OP_END,
        OP_END,
    ] + write_code(rd)
}

/// Unsigned division that cannot trap.
pub open spec fn divu_code(rd: u8, rs1: u8, rs2: u8) -> Seq<u8> {
    is_zero_code(rs2) + if_code() + const_code(-1i32) + seq![OP_ELSE] + read_code(rs1) + read_code(
        rs2,
    ) + seq![OP_I32_DIV_U, OP_END] + write_code(rd)
}

/// Signed remainder that cannot trap.
pub open spec fn rem_code(rd: u8, rs1: u8, rs2: u8) -> Seq<u8> {
    is_zero_code(rs2) + if_code() + read_code(rs1) + seq![OP_ELSE] + overflow_code(rs1, rs2)
        + if_code() + const_code(0i32) + seq![OP_ELSE] + read_code(rs1) + read_code(rs2) + seq![
        OP_I32_REM_S,
        OP_END,
        OP_END,
    ] + write_code(rd)
}

/// Unsigned remainder that cannot trap.
pub open spec fn remu_code(rd: u8, rs1: u8, rs2: u8) -> Seq<u8> {
    is_zero_code(rs2) + if_code() + read_code(rs1) + seq![OP_ELSE] + read_code(rs1) + read_code(rs2)
        + seq![OP_I32_REM_U, OP_END] + write_code(rd)
}

/// The bytes emitted for the ALU instruction `inst` at `pc`.
pub open spec fn inst_code(pc: u32, inst: Instruction) -> Seq<u8> {
    match inst {
        Instruction::Lui { rd, imm } => const_code(imm as i32) + write_code(rd),
        Instruction::Auipc { rd, imm } => const_code(vstd::wrapping::u32_specs::wrapping_add(pc, imm) as i32) + write_code(rd),
        Instruction::Addi { rd, rs1, imm } => binop_imm_code(rd, rs1, imm, OP_I32_ADD),
        Instruction::Xori { rd, rs1, imm } => binop_imm_code(rd, rs1, imm, OP_I32_XOR),
        Instruction::Ori { rd, rs1, imm } => binop_imm_code(rd, rs1, imm, OP_I32_OR),
        Instruction::Andi { rd, rs1, imm } => binop_imm_code(rd, rs1, imm, OP_I32_AND),
        Instruction::Slti { rd, rs1, imm } => binop_imm_code(rd, rs1, imm, OP_I32_LT_S),
        Instruction::Sltiu { rd, rs1, imm } => binop_imm_code(rd, rs1, imm, OP_I32_LT_U),
        Instruction::Slli { rd, rs1, shamt } => binop_imm_code(rd, rs1, shamt as i32, OP_I32_SHL),
        Instruction::Srli { rd, rs1, shamt } => binop_imm_code(rd, rs1, shamt as i32, OP_I32_SHR_U),
        Instruction::Srai { rd, rs1, shamt } => binop_imm_code(rd, rs1, shamt as i32, OP_I32_SHR_S),
        Instruction::Add { rd, rs1, rs2 } => binop_code(rd, rs1, rs2, OP_I32_ADD),
        Instruction::Sub { rd, rs1, rs2 } => binop_code(rd, rs1, rs2, OP_I32_SUB),
        Instruction::Xor { rd, rs1, rs2 } => binop_code(rd, rs1, rs2, OP_I32_XOR),
        Instruction::Or { rd, rs1, rs2 } => binop_code(rd, rs1, rs2, OP_I32_OR),
        Instruction::And { rd, rs1, rs2 } => binop_code(rd, rs1, rs2, OP_I32_AND),
        Instruction::Slt { rd, rs1, rs2 } => binop_code(rd, rs1, rs2, OP_I32_LT_S),
        Instruction::Sltu { rd, rs1, rs2 } => binop_code(rd, rs1, rs2, OP_I32_LT_U),
        Instruction::Sll { rd, rs1, rs2 } => binop_code(rd, rs1, rs2, OP_I32_SHL),
        Instruction::Srl { rd, rs1, rs2 } => binop_code(rd, rs1, rs2, OP_I32_SHR_U),
        Instruction::Sra { rd, rs1, rs2 } => binop_code(rd, rs1, rs2, OP_I32_SHR_S),
        Instruction::Mul { rd, rs1, rs2 } => binop_code(rd, rs1, rs2, OP_I32_MUL),
        Instruction::Mulh { rd, rs1, rs2 } => mulh_code(rd, rs1, rs2, OP_I64_EXTEND_I32_S, OP_I64_EXTEND_I32_S),
        Instruction::Mulhsu { rd, rs1, rs2 } => mulh_code(rd, rs1, rs2, OP_I64_EXTEND_I32_S, OP_I64_EXTEND_I32_U),
        Instruction::Mulhu { rd, rs1, rs2 } => mulh_code(rd, rs1, rs2, OP_I64_EXTEND_I32_U, OP_I64_EXTEND_I32_U),
        Instruction::Div { rd, rs1, rs2 } => div_code(rd, rs1, rs2),
        Instruction::Divu { rd, rs1, rs2 } => divu_code(rd, rs1, rs2),
        Instruction::Rem { rd, rs1, rs2 } => rem_code(rd, rs1, rs2),
        Instruction::Remu { rd, rs1, rs2 } => remu_code(rd, rs1, rs2),
        Instruction::CAddi { rd, imm } => binop_imm_code(rd, rd, imm, OP_I32_ADD),
        Instruction::CLi { rd, imm } => const_code(imm) + write_code(rd),
        Instruction::CMv { rd, rs2 } => read_code(rs2) + write_code(rd),
        Instruction::CAddi16sp { imm } => binop_imm_code(2, 2, imm, OP_I32_ADD),
        Instruction::CAddi4spn { rd, imm } => binop_imm_code(rd, 2, imm as i32, OP_I32_ADD),
        Instruction::CSli { rd, shamt } => binop_imm_code(rd, rd, shamt as i32, OP_I32_SHL),
        _ => Seq::empty(),
    }
}

/// The byte offset of the next-PC slot in the register memory: word 32,
/// just past `x31`.
pub const NEXT_PC_SLOT: i32 = 128;

/// Whether the emitter compiles `inst` as the branch or jump ending a block.
pub open spec fn terminator_emittable(inst: Instruction) -> bool {
    !alu_emittable(inst)
}

/// `i32.store` of the value on the stack to the address below it.
pub open spec fn store_code() -> Seq<u8> {
    seq![OP_I32_STORE] + uleb_spec(2) + uleb_spec(0)
}

/// `pc + offset`, wrapping, as an `i32`.
pub open spec fn target(pc: u32, offset: u32) -> i32 {
    vstd::wrapping::u32_specs::wrapping_add(pc, offset) as i32
}

/// The next-PC slot set to `pc + imm` when the condition on the stack holds,
/// `pc + ilen` otherwise.
pub open spec fn select_next_code(pc: u32, ilen: u32, imm: i32) -> Seq<u8> {
    if_code() + const_code(target(pc, imm as u32)) + seq![OP_ELSE] + const_code(target(pc, ilen))
        + seq![OP_END] + store_code()
}

/// A two-register conditional branch on predicate `pred`.
pub open spec fn cond_branch_code(rs1: u8, rs2: u8, pred: u8, pc: u32, ilen: u32, imm: i32) -> Seq<u8> {
    const_code(NEXT_PC_SLOT) + read_code(rs1) + read_code(rs2) + seq![pred] + select_next_code(
        pc,
        ilen,
        imm,
    )
}

/// A compare-with-zero branch: taken when `rs1` is zero iff `want_zero`.
pub open spec fn cond_branch_zero_code(rs1: u8, want_zero: bool, pc: u32, ilen: u32, imm: i32) -> Seq<
    u8,
> {
    const_code(NEXT_PC_SLOT) + read_code(rs1) + (if want_zero {
        seq![OP_I32_EQZ]
    } else {
        Seq::empty()
    }) + select_next_code(pc, ilen, imm)
}

/// The next-PC slot set to the constant `v`.
pub open spec fn next_pc_const_code(v: i32) -> Seq<u8> {
    const_code(NEXT_PC_SLOT) + const_code(v) + store_code()
}

/// The next-PC slot set to `rs1 & !1`.
pub open spec fn next_pc_masked_code(rs1: u8) -> Seq<u8> {
    const_code(NEXT_PC_SLOT) + read_code(rs1) + const_code(-2i32) + seq![OP_I32_AND] + store_code()
}

/// The bytes emitted for the terminator `inst` at `pc`, `ilen` bytes long:
/// the next PC is resolved into the slot before any link register is
/// written.
pub open spec fn terminator_code(pc: u32, ilen: u32, inst: Instruction) -> Seq<u8> {
    match inst {
        Instruction::Beq { rs1, rs2, imm } => cond_branch_code(rs1, rs2, OP_I32_EQ, pc, ilen, imm),
        Instruction::Bne { rs1, rs2, imm } => cond_branch_code(rs1, rs2, OP_I32_NE, pc, ilen, imm),
        Instruction::Blt { rs1, rs2, imm } => cond_branch_code(rs1, rs2, OP_I32_LT_S, pc, ilen, imm),
        Instruction::Bge { rs1, rs2, imm } => cond_branch_code(rs1, rs2, OP_I32_GE_S, pc, ilen, imm),
        Instruction::Bltu { rs1, rs2, imm } => cond_branch_code(rs1, rs2, OP_I32_LT_U, pc, ilen, imm),
        Instruction::Bgeu { rs1, rs2, imm } => cond_branch_code(rs1, rs2, OP_I32_GE_U, pc, ilen, imm),
        Instruction::CBeqz { rs1, imm } => cond_branch_zero_code(rs1, true, pc, ilen, imm),
        Instruction::CBnez { rs1, imm } => cond_branch_zero_code(rs1, false, pc, ilen, imm),
        Instruction::Jal { rd, imm } => next_pc_const_code(target(pc, imm as u32)) + const_code(
            target(pc, ilen),
        ) + write_code(rd),
        Instruction::Jalr { rd, rs1, imm } => const_code(NEXT_PC_SLOT) + read_code(rs1) + const_code(
            imm,
        ) + seq![OP_I32_ADD] + const_code(-2i32) + seq![OP_I32_AND] + store_code() + const_code(
            target(pc, ilen),
        ) + write_code(rd),
        Instruction::CJ { imm } => next_pc_const_code(target(pc, imm as u32)),
        Instruction::CJr { rs1 } => next_pc_masked_code(rs1),
        Instruction::CJalr { rs1 } => next_pc_masked_code(rs1) + const_code(target(pc, 2)) + write_code(
            1,
        ),
        _ => Seq::empty(),
    }
}

/// The load of register `r` from the register memory into its local.
pub open spec fn load_code(r: u8) -> Seq<u8> {
    seq![OP_I32_CONST] + sleb_spec((r * 4) as i64) + seq![OP_I32_LOAD] + uleb_spec(2) + uleb_spec(0)
        + seq![OP_LOCAL_SET] + uleb_spec(r as u64)
}

/// The store of register `r`'s local to the register memory.
pub open spec fn store_reg_code(r: u8) -> Seq<u8> {
    seq![OP_I32_CONST] + sleb_spec((r * 4) as i64) + seq![OP_LOCAL_GET] + uleb_spec(r as u64) + seq![
        OP_I32_STORE,
    ] + uleb_spec(2) + uleb_spec(0)
}

/// The loads (`load`) or stores (`!load`) of the flagged registers among
/// `x1 .. x(n-1)`, in register order.
pub open spec fn transfer_code(flags: Seq<bool>, n: int, load: bool) -> Seq<u8>
    decreases n,
{
    if n <= 1 {
        Seq::empty()
    } else {
        transfer_code(flags, n - 1, load) + if flags[n - 1] {
            if load {
                load_code((n - 1) as u8)
            } else {
                store_reg_code((n - 1) as u8)
            }
        } else {
            Seq::empty()
        }
    }
}

/// Register numbers and small constants take one LEB128 byte.
pub proof fn lemma_small_leb(v: u8)
    ensures
        v < 128 ==> uleb_spec(v as u64) == seq![v],
        v < 64 ==> sleb_spec(v as i64) == seq![v],
{
    let u = v as u64;
    let i = v as i64;
    assert((u < 128 ==> (u & 0x7f) as u8 == v && u >> 7u64 == 0) && (i < 64 ==> (i & 0x7f) as u8 == v
        && i >> 7u64 == 0 && ((i & 0x7f) as u8) & 0x40 == 0)) by (bit_vector)
        requires
            u == v as u64,
            i == v as i64,
    ;
}

/// Each integer-ALU instruction becomes the wasm instruction of the same
/// operation between its operand registers' locals: `add`/`addi` `i32.add`
/// (0x6a), `sub` `i32.sub` (0x6b), `xor` 0x73, `or` 0x72, `and` 0x71, `slt`
/// `i32.lt_s` (0x48), `sltu` `i32.lt_u` (0x49), `sll` `i32.shl` (0x74), `srl`
/// the logical `i32.shr_u` (0x76), `sra` the arithmetic `i32.shr_s` (0x75),
/// `mul` `i32.mul` (0x6c); an operand register is read with `local.get`
/// (0x20) and the result set with `local.set` (0x21).
pub proof fn lemma_alu_opcodes(pc: u32, rd: u8, rs1: u8, rs2: u8, imm: i32, shamt: u8)
    requires
        0 < rd < 32,
        0 < rs1 < 32,
        0 < rs2 < 32,
        shamt < 32,
    ensures
        inst_code(pc, Instruction::Add { rd, rs1, rs2 }) == seq![0x20u8, rs1, 0x20, rs2, 0x6a, 0x21, rd],
        inst_code(pc, Instruction::Sub { rd, rs1, rs2 }) == seq![0x20u8, rs1, 0x20, rs2, 0x6b, 0x21, rd],
        inst_code(pc, Instruction::Xor { rd, rs1, rs2 }) == seq![0x20u8, rs1, 0x20, rs2, 0x73, 0x21, rd],
        inst_code(pc, Instruction::Or { rd, rs1, rs2 }) == seq![0x20u8, rs1, 0x20, rs2, 0x72, 0x21, rd],
        inst_code(pc, Instruction::And { rd, rs1, rs2 }) == seq![0x20u8, rs1, 0x20, rs2, 0x71, 0x21, rd],
        inst_code(pc, Instruction::Slt { rd, rs1, rs2 }) == seq![0x20u8, rs1, 0x20, rs2, 0x48, 0x21, rd],
        inst_code(pc, Instruction::Sltu { rd, rs1, rs2 }) == seq![0x20u8, rs1, 0x20, rs2, 0x49, 0x21, rd],
        inst_code(pc, Instruction::Sll { rd, rs1, rs2 }) == seq![0x20u8, rs1, 0x20, rs2, 0x74, 0x21, rd],
        inst_code(pc, Instruction::Srl { rd, rs1, rs2 }) == seq![0x20u8, rs1, 0x20, rs2, 0x76, 0x21, rd],
        inst_code(pc, Instruction::Sra { rd, rs1, rs2 }) == seq![0x20u8, rs1, 0x20, rs2, 0x75, 0x21, rd],
        inst_code(pc, Instruction::Mul { rd, rs1, rs2 }) == seq![0x20u8, rs1, 0x20, rs2, 0x6c, 0x21, rd],
        inst_code(pc, Instruction::Addi { rd, rs1, imm }) == seq![0x20u8, rs1] + const_code(imm) + seq![0x6au8, 0x21, rd],
        inst_code(pc, Instruction::Xori { rd, rs1, imm }) == seq![0x20u8, rs1] + const_code(imm) + seq![0x73u8, 0x21, rd],
        inst_code(pc, Instruction::Ori { rd, rs1, imm }) == seq![0x20u8, rs1] + const_code(imm) + seq![0x72u8, 0x21, rd],
        inst_code(pc, Instruction::Andi { rd, rs1, imm }) == seq![0x20u8, rs1] + const_code(imm) + seq![0x71u8, 0x21, rd],
        inst_code(pc, Instruction::Slti { rd, rs1, imm }) == seq![0x20u8, rs1] + const_code(imm) + seq![0x48u8, 0x21, rd],
        inst_code(pc, Instruction::Sltiu { rd, rs1, imm }) == seq![0x20u8, rs1] + const_code(imm) + seq![0x49u8, 0x21, rd],
        inst_code(pc, Instruction::Slli { rd, rs1, shamt }) == seq![0x20u8, rs1, 0x41, shamt, 0x74, 0x21, rd],
        inst_code(pc, Instruction::Srli { rd, rs1, shamt }) == seq![0x20u8, rs1, 0x41, shamt, 0x76, 0x21, rd],
        inst_code(pc, Instruction::Srai { rd, rs1, shamt }) == seq![0x20u8, rs1, 0x41, shamt, 0x75, 0x21, rd],
{
    lemma_small_leb(rd);
    lemma_small_leb(rs1);
    lemma_small_leb(rs2);
    lemma_small_leb(shamt);
    assert(shamt as i32 as i64 == shamt as i64);
}

/// The signed LEB128 constants the multiply and divide sequences use.
pub proof fn lemma_leb_constants()
    ensures
        sleb_spec(0i64) == seq![0x00u8],
        sleb_spec(-1i64) == seq![0x7fu8],
        sleb_spec(32i64) == seq![0x20u8],
        sleb_spec(i32::MIN as i64) == seq![0x80u8, 0x80, 0x80, 0x80, 0x78],
        sleb_spec(128i64) == seq![0x80u8, 0x01],
        sleb_spec(-2i64) == seq![0x7eu8],
{
    let m: i64 = i32::MIN as i64;
    assert(((-1i64) & 0x7f) as u8 == 0x7f && (-1i64) >> 7u64 == -1 && (m & 0x7f) as u8 == 0 && m >> 7u64
        == -0x100_0000 && ((-0x100_0000i64) & 0x7f) as u8 == 0 && (-0x100_0000i64) >> 7u64 == -0x2_0000
        && ((-0x2_0000i64) & 0x7f) as u8 == 0 && (-0x2_0000i64) >> 7u64 == -0x400 && ((-0x400i64) & 0x7f)
        as u8 == 0 && (-0x400i64) >> 7u64 == -8 && ((-8i64) & 0x7f) as u8 == 0x78 && (-8i64) >> 7u64 == -1 && (0x78u8 & 0x40u8) != 0 && (128i64 & 0x7f) as u8 == 0 && 128i64 >> 7u64 == 1 && ((-2i64) & 0x7f) as u8 == 0x7e && (-2i64) >> 7u64 == -1 && (0x7eu8 & 0x40u8) != 0 && (0u8 | 0x80) == 0x80u8)
        by (bit_vector)
        requires
            m == -0x8000_0000,
    ;
    lemma_small_leb(0);
    lemma_small_leb(32);
    assert(0u8 as i64 == 0 && 32u8 as i64 == 32);
    assert(sleb_spec(-8i64) == seq![0x78u8]);
    assert(sleb_spec(-0x400i64) == seq![0x80u8] + sleb_spec(-8i64));
    assert(sleb_spec(-0x2_0000i64) == seq![0x80u8] + sleb_spec(-0x400i64));
    assert(sleb_spec(-0x100_0000i64) == seq![0x80u8] + sleb_spec(-0x2_0000i64));
    assert(sleb_spec(m) == seq![0x80u8] + sleb_spec(-0x100_0000i64));
    assert(sleb_spec(m) =~= seq![0x80u8, 0x80, 0x80, 0x80, 0x78]);
    lemma_small_leb(1);
    assert(sleb_spec(128i64) == seq![0x80u8] + sleb_spec(1i64));
    assert(sleb_spec(128i64) =~= seq![0x80u8, 0x01]);
}

/// The high-half multiplies extend both operands to `i64` (sign-extended,
/// 0xac, for signed operands; zero-extended, 0xad, for unsigned ones),
/// multiply (`i64.mul`), shift right by 32 and wrap; the divides and
/// remainders test for a zero divisor (and, signed, for `i32::MIN / -1`)
/// before `i32.div_s` (0x6d), `i32.div_u` (0x6e), `i32.rem_s` (0x6f) or
/// `i32.rem_u` (0x70).
pub proof fn lemma_muldiv_opcodes(pc: u32, rd: u8, rs1: u8, rs2: u8)
    requires
        0 < rd < 32,
        0 < rs1 < 32,
        0 < rs2 < 32,
    ensures
        inst_code(pc, Instruction::Mulh { rd, rs1, rs2 }) == seq![
            0x20u8, rs1, 0xac, 0x20, rs2, 0xac, 0x7e, 0x42, 0x20, 0x88, 0xa7, 0x21, rd,
        ],
        inst_code(pc, Instruction::Mulhsu { rd, rs1, rs2 }) == seq![
            0x20u8, rs1, 0xac, 0x20, rs2, 0xad, 0x7e, 0x42, 0x20, 0x88, 0xa7, 0x21, rd,
        ],
        inst_code(pc, Instruction::Mulhu { rd, rs1, rs2 }) == seq![
            0x20u8, rs1, 0xad, 0x20, rs2, 0xad, 0x7e, 0x42, 0x20, 0x88, 0xa7, 0x21, rd,
        ],
        inst_code(pc, Instruction::Divu { rd, rs1, rs2 }) == seq![
            0x20u8, rs2, 0x45, 0x04, 0x7f, 0x41, 0x7f, 0x05, 0x20, rs1, 0x20, rs2, 0x6e, 0x0b, 0x21, rd,
        ],
        inst_code(pc, Instruction::Remu { rd, rs1, rs2 }) == seq![
            0x20u8, rs2, 0x45, 0x04, 0x7f, 0x20, rs1, 0x05, 0x20, rs1, 0x20, rs2, 0x70, 0x0b, 0x21, rd,
        ],
        inst_code(pc, Instruction::Div { rd, rs1, rs2 }) == seq![
            0x20u8, rs2, 0x45, 0x04, 0x7f, 0x41, 0x7f, 0x05,
            0x20, rs1, 0x41, 0x80, 0x80, 0x80, 0x80, 0x78, 0x46, 0x20, rs2, 0x41, 0x7f, 0x46, 0x71,
            0x04, 0x7f, 0x20, rs1, 0x05, 0x20, rs1, 0x20, rs2, 0x6d, 0x0b, 0x0b, 0x21, rd,
        ],
        inst_code(pc, Instruction::Rem { rd, rs1, rs2 }) == seq![
            0x20u8, rs2, 0x45, 0x04, 0x7f, 0x20, rs1, 0x05,
            0x20, rs1, 0x41, 0x80, 0x80, 0x80, 0x80, 0x78, 0x46, 0x20, rs2, 0x41, 0x7f, 0x46, 0x71,
            0x04, 0x7f, 0x41, 0x00, 0x05, 0x20, rs1, 0x20, rs2, 0x6f, 0x0b, 0x0b, 0x21, rd,
        ],
{
    lemma_small_leb(rd);
    lemma_small_leb(rs1);
    lemma_small_leb(rs2);
    lemma_leb_constants();
}

/// `x` reduced to 32 bits and read as a signed word.
pub open spec fn wrap32(x: int) -> i32 {
    (x % 0x1_0000_0000) as u32 as i32
}

/// The upper-immediate and compressed forms: `lui` and `c.li` set the
/// register to the constant, `auipc` to its own PC plus the immediate
/// (wrapping), `c.mv` copies, `c.addi`/`c.addi16sp`/`c.addi4spn` add
/// (`i32.add`, the latter two to `x2` and from `x2`), `c.slli` shifts left
/// (`i32.shl`).
pub proof fn lemma_compressed_opcodes(pc: u32, rd: u8, rs2: u8, imm: i32, uimm: u32, shamt: u8)
    requires
        0 < rd < 32,
        0 < rs2 < 32,
        shamt < 32,
    ensures
        inst_code(pc, Instruction::Lui { rd, imm: uimm }) == const_code(uimm as i32) + seq![0x21u8, rd],
        inst_code(pc, Instruction::Auipc { rd, imm: uimm }) == const_code(wrap32(pc as int + uimm as int))
            + seq![0x21u8, rd],
        inst_code(pc, Instruction::CLi { rd, imm }) == const_code(imm) + seq![0x21u8, rd],
        inst_code(pc, Instruction::CMv { rd, rs2 }) == seq![0x20u8, rs2, 0x21, rd],
        inst_code(pc, Instruction::CAddi { rd, imm }) == seq![0x20u8, rd] + const_code(imm) + seq![
            0x6au8,
            0x21,
            rd,
        ],
        inst_code(pc, Instruction::CAddi16sp { imm }) == seq![0x20u8, 2] + const_code(imm) + seq![
            0x6au8,
            0x21,
            2,
        ],
        inst_code(pc, Instruction::CAddi4spn { rd, imm: uimm }) == seq![0x20u8, 2] + const_code(
            uimm as i32,
        ) + seq![0x6au8, 0x21, rd],
        inst_code(pc, Instruction::CSli { rd, shamt }) == seq![0x20u8, rd, 0x41, shamt, 0x74, 0x21, rd],
{
    lemma_small_leb(rd);
    lemma_small_leb(rs2);
    lemma_small_leb(shamt);
    lemma_small_leb(2);
    assert(shamt as i32 as i64 == shamt as i64);
    assert(vstd::wrapping::u32_specs::wrapping_add(pc, uimm) == (pc as int + uimm as int) % 0x1_0000_0000);
}

/// A conditional branch stores to the next-PC slot (128, `i32.const 0x80
/// 0x01`) the taken target `pc + imm` (modulo 2^32) when the comparison holds (`i32.eq`
/// 0x46 for `beq`, `i32.ne` 0x47 for `bne`, `i32.lt_s` 0x48 for `blt`,
/// `i32.ge_s` 0x4e for `bge`, `i32.lt_u` 0x49 for `bltu`, `i32.ge_u` 0x4f for
/// `bgeu`), and the next instruction's address otherwise.
pub proof fn lemma_branch_opcodes(pc: u32, ilen: u32, rs1: u8, rs2: u8, imm: i32)
    requires
        0 < rs1 < 32,
        0 < rs2 < 32,
    ensures
        terminator_code(pc, ilen, Instruction::Beq { rs1, rs2, imm }) == seq![0x41u8, 0x80, 0x01, 0x20, rs1, 0x20, rs2, 0x46, 0x04, 0x7f] + const_code(wrap32(pc as int + (imm as u32) as int)) + seq![0x05u8] + const_code(wrap32(pc as int + ilen as int)) + seq![0x0bu8, 0x36, 0x02, 0x00],
        terminator_code(pc, ilen, Instruction::Bne { rs1, rs2, imm }) == seq![0x41u8, 0x80, 0x01, 0x20, rs1, 0x20, rs2, 0x47, 0x04, 0x7f] + const_code(wrap32(pc as int + (imm as u32) as int)) + seq![0x05u8] + const_code(wrap32(pc as int + ilen as int)) + seq![0x0bu8, 0x36, 0x02, 0x00],
        terminator_code(pc, ilen, Instruction::Blt { rs1, rs2, imm }) == seq![0x41u8, 0x80, 0x01, 0x20, rs1, 0x20, rs2, 0x48, 0x04, 0x7f] + const_code(wrap32(pc as int + (imm as u32) as int)) + seq![0x05u8] + const_code(wrap32(pc as int + ilen as int)) + seq![0x0bu8, 0x36, 0x02, 0x00],
        terminator_code(pc, ilen, Instruction::Bge { rs1, rs2, imm }) == seq![0x41u8, 0x80, 0x01, 0x20, rs1, 0x20, rs2, 0x4e, 0x04, 0x7f] + const_code(wrap32(pc as int + (imm as u32) as int)) + seq![0x05u8] + const_code(wrap32(pc as int + ilen as int)) + seq![0x0bu8, 0x36, 0x02, 0x00],
        terminator_code(pc, ilen, Instruction::Bltu { rs1, rs2, imm }) == seq![0x41u8, 0x80, 0x01, 0x20, rs1, 0x20, rs2, 0x49, 0x04, 0x7f] + const_code(wrap32(pc as int + (imm as u32) as int)) + seq![0x05u8] + const_code(wrap32(pc as int + ilen as int)) + seq![0x0bu8, 0x36, 0x02, 0x00],
        terminator_code(pc, ilen, Instruction::Bgeu { rs1, rs2, imm }) == seq![0x41u8, 0x80, 0x01, 0x20, rs1, 0x20, rs2, 0x4f, 0x04, 0x7f] + const_code(wrap32(pc as int + (imm as u32) as int)) + seq![0x05u8] + const_code(wrap32(pc as int + ilen as int)) + seq![0x0bu8, 0x36, 0x02, 0x00],
{
    lemma_small_leb(rs1);
    lemma_small_leb(rs2);
    lemma_small_leb(0);
    lemma_small_leb(2);
    lemma_leb_constants();
    assert(uleb_spec(2) == seq![2u8] && uleb_spec(0) == seq![0u8]);
    assert(vstd::wrapping::u32_specs::wrapping_add(pc, imm as u32) as i32 == wrap32(pc as int + (imm as u32) as int));
    assert(vstd::wrapping::u32_specs::wrapping_add(pc, ilen) as i32 == wrap32(pc as int + ilen as int));
}

/// Jumps resolve the next PC into the slot (128) before writing the link
/// register: `jal` stores `pc + imm` and links `pc + ilen`; `jalr` stores
/// `(rs1 + imm) & !1` (`i32.add`, `i32.const -2`, `i32.and`) and links
/// `pc + ilen`; `c.j` only stores `pc + imm`; `c.jr` stores `rs1 & !1`, and
/// `c.jalr` also links `pc + 2` into `x1`.
pub proof fn lemma_jump_opcodes(pc: u32, ilen: u32, rd: u8, rs1: u8, imm: i32)
    requires
        0 < rd < 32,
        0 < rs1 < 32,
    ensures
        terminator_code(pc, ilen, Instruction::Jal { rd, imm }) == seq![0x41u8, 0x80, 0x01] + const_code(
            wrap32(pc as int + (imm as u32) as int),
        ) + seq![0x36u8, 0x02, 0x00] + const_code(wrap32(pc as int + ilen as int)) + seq![0x21u8, rd],
        terminator_code(pc, ilen, Instruction::Jalr { rd, rs1, imm }) == seq![
            0x41u8,
            0x80,
            0x01,
            0x20,
            rs1,
        ] + const_code(imm) + seq![0x6au8, 0x41, 0x7e, 0x71, 0x36, 0x02, 0x00] + const_code(
            wrap32(pc as int + ilen as int),
        ) + seq![0x21u8, rd],
        terminator_code(pc, ilen, Instruction::CJ { imm }) == seq![0x41u8, 0x80, 0x01] + const_code(
            wrap32(pc as int + (imm as u32) as int),
        ) + seq![0x36u8, 0x02, 0x00],
        terminator_code(pc, ilen, Instruction::CJr { rs1 }) == seq![
            0x41u8, 0x80, 0x01, 0x20, rs1, 0x41, 0x7e, 0x71, 0x36, 0x02, 0x00,
        ],
        terminator_code(pc, 2, Instruction::CJalr { rs1 }) == seq![
            0x41u8, 0x80, 0x01, 0x20, rs1, 0x41, 0x7e, 0x71, 0x36, 0x02, 0x00,
        ] + const_code(wrap32(pc as int + 2)) + seq![0x21u8, 0x01],
{
    lemma_small_leb(rd);
    lemma_small_leb(rs1);
    lemma_small_leb(0);
    lemma_small_leb(1);
    lemma_small_leb(2);
    lemma_leb_constants();
    assert(uleb_spec(2) == seq![2u8] && uleb_spec(0) == seq![0u8]);
    assert(vstd::wrapping::u32_specs::wrapping_add(pc, imm as u32) as i32 == wrap32(
        pc as int + (imm as u32) as int,
    ));
    assert(vstd::wrapping::u32_specs::wrapping_add(pc, ilen) as i32 == wrap32(pc as int + ilen as int));
    assert(vstd::wrapping::u32_specs::wrapping_add(pc, 2) as i32 == wrap32(pc as int + 2));
}

/// The prologue loads register `r` from its word (address `4 r`) with
/// `i32.load` (0x28, align 4, offset 0) into its local; the epilogue stores
/// its local back with `i32.store` (0x36); both go in register order and
/// move exactly the flagged registers, never `x0`.
pub proof fn lemma_transfer_code(flags: Seq<bool>, r: u8)
    requires
        0 < r < 32,
        flags.len() == 32,
    ensures
        load_code(r) == seq![0x41u8] + sleb_spec((4 * r) as i64) + seq![0x28u8, 0x02, 0x00, 0x21, r],
        store_reg_code(r) == seq![0x41u8] + sleb_spec((4 * r) as i64) + seq![0x20u8, r, 0x36, 0x02, 0x00],
        transfer_code(flags, r as int + 1, true) == transfer_code(flags, r as int, true) + if flags[r as int] {
            load_code(r)
        } else {
            Seq::empty()
        },
        transfer_code(flags, r as int + 1, false) == transfer_code(flags, r as int, false) + if flags[r as int] {
            store_reg_code(r)
        } else {
            Seq::empty()
        },
        transfer_code(flags, 1, true).len() == 0 && transfer_code(flags, 1, false).len() == 0,
{
    lemma_small_leb(r);
    lemma_small_leb(2);
    lemma_small_leb(0);
    assert((r * 4) as i64 == (4 * r) as i64);
}

/// Register `x0` reads as the constant 0 (`i32.const 0`) and a value written
/// to it is dropped (`drop`, 0x1a).
pub proof fn lemma_x0_code()
    ensures
        read_code(0) == seq![0x41u8, 0x00],
        write_code(0) == seq![0x1au8],
{
    lemma_small_leb(0);
}

/// Register flags after marking register `r`; `x0` is never marked.
pub open spec fn mark(flags: Seq<bool>, r: u8) -> Seq<bool> {
    if r == 0 {
        flags
    } else {
        flags.update(r as int, true)
    }
}

/// Flags after marking every register of `set` but `x0`.
pub open spec fn marked(flags: Seq<bool>, set: Set<u8>) -> Seq<bool> {
    Seq::new(flags.len(), |r: int| flags[r] || (r != 0 && set.contains(r as u8)))
}

/// Whether the emitter compiles `inst` as straight-line ALU code.
pub fn is_alu_emittable(inst: &Instruction) -> (r: bool)
    ensures
        r == alu_emittable(*inst),
{
    match *inst {
        Instruction::Lui { .. } | Instruction::Auipc { .. } | Instruction::Addi { .. } | Instruction::Xori { .. } | Instruction::Ori { .. } | Instruction::Andi { .. } | Instruction::Slti { .. } | Instruction::Sltiu { .. } | Instruction::Slli { .. } | Instruction::Srli { .. } | Instruction::Srai { .. } | Instruction::Add { .. } | Instruction::Sub { .. } | Instruction::Xor { .. } | Instruction::Or { .. } | Instruction::And { .. } | Instruction::Slt { .. } | Instruction::Sltu { .. } | Instruction::Sll { .. } | Instruction::Srl { .. } | Instruction::Sra { .. } | Instruction::Mul { .. } | Instruction::Mulh { .. } | Instruction::Mulhsu { .. } | Instruction::Mulhu { .. } | Instruction::Div { .. } | Instruction::Divu { .. } | Instruction::Rem { .. } | Instruction::Remu { .. } | Instruction::CAddi { .. } | Instruction::CLi { .. } | Instruction::CMv { .. } | Instruction::CAddi16sp { .. } | Instruction::CAddi4spn { .. } | Instruction::CSli { .. } => true,
        _ => false,
    }
}

/// Whether the emitter compiles `inst` as the branch or jump ending a block.
pub fn is_terminator_emittable(inst: &Instruction) -> (r: bool)
    ensures
        r == terminator_emittable(*inst),
{
    !is_alu_emittable(inst)
}

/// Marking never clears a flag, flags every register of `set` but `x0`, and
/// leaves `x0` as it was: a register the body touches is loaded or stored
/// around it, and `x0` never crosses the memory boundary.
pub proof fn lemma_marked(flags: Seq<bool>, set: Set<u8>)
    ensures
        marked(flags, set).len() == flags.len(),
        forall|r: int| 0 <= r < flags.len() && flags[r] ==> #[trigger] marked(flags, set)[r],
        forall|r: u8| 0 < r < flags.len() && set.contains(r) ==> #[trigger] marked(flags, set)[r as int],
        flags.len() > 0 ==> marked(flags, set)[0] == flags[0],
{
}

/// A block body under construction: its code and the registers it reads and
/// writes.
pub struct Body {
    pub buf: Vec<u8>,
    /// Registers read anywhere in the block (loaded in the prologue).
    pub reads: [bool; 32],
    /// Registers written anywhere in the block (stored in the epilogue).
    pub writes: [bool; 32],
}

impl Default for Body {
    /// An empty body that reads and writes nothing.
    fn default() -> (r: Self)
        ensures
            r.buf@ == Seq::<u8>::empty(),
            forall|i: int| 0 <= i < 32 ==> !r.reads@[i] && !r.writes@[i],
    {
        Body { buf: Vec::new(), reads: [false; 32], writes: [false; 32] }
    }
}

impl Body {
    /// Pushes the value of register `r`.
    pub fn read(&mut self, r: u8)
        requires
            r < 32,
        ensures
            final(self).buf@ == old(self).buf@ + read_code(r),
            final(self).reads@ == mark(old(self).reads@, r),
            final(self).writes@ == old(self).writes@,
    {
        if r == 0 {
            self.buf.push(OP_I32_CONST);
            sleb(&mut self.buf, 0);
        } else {
            self.reads[r as usize] = true;
            self.buf.push(OP_LOCAL_GET);
            uleb(&mut self.buf, r as u64);
        }
        assert(self.buf@ =~= old(self).buf@ + read_code(r));
    }

    /// Consumes the value on the stack as the new value of register `r`.
    pub fn write(&mut self, r: u8)
        requires
            r < 32,
        ensures
            final(self).buf@ == old(self).buf@ + write_code(r),
            final(self).writes@ == mark(old(self).writes@, r),
            final(self).reads@ == old(self).reads@,
    {
        if r == 0 {
            self.buf.push(OP_DROP);
        } else {
            self.writes[r as usize] = true;
            self.buf.push(OP_LOCAL_SET);
            uleb(&mut self.buf, r as u64);
        }
        assert(self.buf@ =~= old(self).buf@ + write_code(r));
    }

    /// Pushes `i32.const v`.
    pub fn i32_const(&mut self, v: i32)
        ensures
            final(self).buf@ == old(self).buf@ + const_code(v),
            final(self).reads@ == old(self).reads@,
            final(self).writes@ == old(self).writes@,
    {
        self.buf.push(OP_I32_CONST);
        sleb(&mut self.buf, v as i64);
        assert(self.buf@ =~= old(self).buf@ + const_code(v));
    }

    /// `rd = rs1 <opcode> rs2`.
    pub fn binop(&mut self, rd: u8, rs1: u8, rs2: u8, opcode: u8)
        requires
            rd < 32,
            rs1 < 32,
            rs2 < 32,
        ensures
            final(self).buf@ == old(self).buf@ + binop_code(rd, rs1, rs2, opcode),
            final(self).reads@ == marked(old(self).reads@, set![rs1, rs2]),
            final(self).writes@ == marked(old(self).writes@, set![rd]),
    {
        self.read(rs1);
        self.read(rs2);
        self.buf.push(opcode);
        self.write(rd);
        assert(self.buf@ =~= old(self).buf@ + binop_code(rd, rs1, rs2, opcode));
        assert(self.reads@ =~= marked(old(self).reads@, set![rs1, rs2]));
        assert(self.writes@ =~= marked(old(self).writes@, set![rd]));
    }

    /// `rd = rs1 <opcode> imm`.
    pub fn binop_imm(&mut self, rd: u8, rs1: u8, imm: i32, opcode: u8)
        requires
            rd < 32,
            rs1 < 32,
        ensures
            final(self).buf@ == old(self).buf@ + binop_imm_code(rd, rs1, imm, opcode),
            final(self).reads@ == marked(old(self).reads@, set![rs1]),
            final(self).writes@ == marked(old(self).writes@, set![rd]),
    {
        self.read(rs1);
        self.i32_const(imm);
        self.buf.push(opcode);
        self.write(rd);
        assert(self.buf@ =~= old(self).buf@ + binop_imm_code(rd, rs1, imm, opcode));
        assert(self.reads@ =~= marked(old(self).reads@, set![rs1]));
        assert(self.writes@ =~= marked(old(self).writes@, set![rd]));
    }

    /// The high-half multiply family: both operands extended to `i64`, the
    /// product shifted right by 32 and wrapped to `i32`.
    pub fn mulh(&mut self, rd: u8, rs1: u8, rs2: u8, ext1: u8, ext2: u8)
        requires
            rd < 32,
            rs1 < 32,
            rs2 < 32,
        ensures
            final(self).buf@ == old(self).buf@ + mulh_code(rd, rs1, rs2, ext1, ext2),
            final(self).reads@ == marked(old(self).reads@, set![rs1, rs2]),
            final(self).writes@ == marked(old(self).writes@, set![rd]),
    {
        self.read(rs1);
        self.buf.push(ext1);
        self.read(rs2);
        self.buf.push(ext2);
        self.buf.push(OP_I64_MUL);
        self.buf.push(OP_I64_CONST);
        sleb(&mut self.buf, 32);
        self.buf.push(OP_I64_SHR_U);
        self.buf.push(OP_I32_WRAP_I64);
        self.write(rd);
        assert(self.buf@ =~= old(self).buf@ + mulh_code(rd, rs1, rs2, ext1, ext2));
        assert(self.reads@ =~= marked(old(self).reads@, set![rs1, rs2]));
        assert(self.writes@ =~= marked(old(self).writes@, set![rd]));
    }

    /// Pushes whether register `r` is zero.
    pub fn is_zero(&mut self, r: u8)
        requires
            r < 32,
        ensures
            final(self).buf@ == old(self).buf@ + is_zero_code(r),
            final(self).reads@ == mark(old(self).reads@, r),
            final(self).writes@ == old(self).writes@,
    {
        self.read(r);
        self.buf.push(OP_I32_EQZ);
        assert(self.buf@ =~= old(self).buf@ + is_zero_code(r));
    }

    /// Pushes whether `rs1 / rs2` is the signed overflow `i32::MIN / -1`.
    pub fn is_signed_overflow(&mut self, rs1: u8, rs2: u8)
        requires
            rs1 < 32,
            rs2 < 32,
        ensures
            final(self).buf@ == old(self).buf@ + overflow_code(rs1, rs2),
            final(self).reads@ == mark(mark(old(self).reads@, rs1), rs2),
            final(self).writes@ == old(self).writes@,
    {
        self.read(rs1);
        self.i32_const(i32::MIN);
        self.buf.push(OP_I32_EQ);
        self.read(rs2);
        self.i32_const(-1);
        self.buf.push(OP_I32_EQ);
        self.buf.push(OP_I32_AND);
        assert(self.buf@ =~= old(self).buf@ + overflow_code(rs1, rs2));
    }

    /// Opens an `if (result i32)` on the condition on the stack.
    pub fn if_i32(&mut self)
        ensures
            final(self).buf@ == old(self).buf@ + if_code(),
            final(self).reads@ == old(self).reads@,
            final(self).writes@ == old(self).writes@,
    {
        self.buf.push(OP_IF);
        self.buf.push(T_I32);
        assert(self.buf@ =~= old(self).buf@ + if_code());
    }

    /// `rd = v`.
    fn set_const(&mut self, rd: u8, v: i32)
        requires
            rd < 32,
        ensures
            final(self).buf@ == old(self).buf@ + const_code(v) + write_code(rd),
            final(self).reads@ == marked(old(self).reads@, Set::empty()),
            final(self).writes@ == marked(old(self).writes@, set![rd]),
    {
        self.i32_const(v);
        self.write(rd);
        assert(self.buf@ =~= old(self).buf@ + const_code(v) + write_code(rd));
        assert(self.reads@ =~= marked(old(self).reads@, Set::empty()));
        assert(self.writes@ =~= marked(old(self).writes@, set![rd]));
    }

    /// `rd = rs`.
    fn copy(&mut self, rd: u8, rs: u8)
        requires
            rd < 32,
            rs < 32,
        ensures
            final(self).buf@ == old(self).buf@ + read_code(rs) + write_code(rd),
            final(self).reads@ == marked(old(self).reads@, set![rs]),
            final(self).writes@ == marked(old(self).writes@, set![rd]),
    {
        self.read(rs);
        self.write(rd);
        assert(self.buf@ =~= old(self).buf@ + read_code(rs) + write_code(rd));
        assert(self.reads@ =~= marked(old(self).reads@, set![rs]));
        assert(self.writes@ =~= marked(old(self).writes@, set![rd]));
    }

    /// `rd = rs1 / rs2 (signed)`, without a trap.
    #[verifier::spinoff_prover]
    #[verifier::rlimit(50)]
    fn div(&mut self, rd: u8, rs1: u8, rs2: u8)
        requires
            rd < 32,
            rs1 < 32,
            rs2 < 32,
        ensures
            final(self).buf@ == old(self).buf@ + div_code(rd, rs1, rs2),
            final(self).reads@ == marked(old(self).reads@, set![rs1, rs2]),
            final(self).writes@ == marked(old(self).writes@, set![rd]),
    {
        // divisor 0 gives -1; i32::MIN / -1 gives the dividend.
        self.is_zero(rs2);
        self.if_i32();
        self.i32_const(-1);
        self.buf.push(OP_ELSE);
        self.is_signed_overflow(rs1, rs2);
        self.if_i32();
        self.read(rs1);
        self.buf.push(OP_ELSE);
        self.read(rs1);
        self.read(rs2);
        self.buf.push(OP_I32_DIV_S);
        self.buf.push(OP_END);
        self.buf.push(OP_END);
        self.write(rd);
        assert(self.buf@ =~= old(self).buf@ + div_code(rd, rs1, rs2));
        assert(self.reads@ =~= marked(old(self).reads@, set![rs1, rs2]));
        assert(self.writes@ =~= marked(old(self).writes@, set![rd]));
    }

    /// `rd = rs1 / rs2 (unsigned)`, without a trap.
    fn divu(&mut self, rd: u8, rs1: u8, rs2: u8)
        requires
            rd < 32,
            rs1 < 32,
            rs2 < 32,
        ensures
            final(self).buf@ == old(self).buf@ + divu_code(rd, rs1, rs2),
            final(self).reads@ == marked(old(self).reads@, set![rs1, rs2]),
            final(self).writes@ == marked(old(self).writes@, set![rd]),
    {
        // divisor 0 gives all ones.
        self.is_zero(rs2);
        self.if_i32();
        self.i32_const(-1);
        self.buf.push(OP_ELSE);
        self.read(rs1);
        self.read(rs2);
        self.buf.push(OP_I32_DIV_U);
        self.buf.push(OP_END);
        self.write(rd);
        assert(self.buf@ =~= old(self).buf@ + divu_code(rd, rs1, rs2));
        assert(self.reads@ =~= marked(old(self).reads@, set![rs1, rs2]));
        assert(self.writes@ =~= marked(old(self).writes@, set![rd]));
    }

    /// `rd = rs1 % rs2 (signed)`, without a trap.
    #[verifier::spinoff_prover]
    #[verifier::rlimit(50)]
    fn rem(&mut self, rd: u8, rs1: u8, rs2: u8)
        requires
            rd < 32,
            rs1 < 32,
            rs2 < 32,
        ensures
            final(self).buf@ == old(self).buf@ + rem_code(rd, rs1, rs2),
            final(self).reads@ == marked(old(self).reads@, set![rs1, rs2]),
            final(self).writes@ == marked(old(self).writes@, set![rd]),
    {
        // divisor 0 gives the dividend; i32::MIN % -1 gives 0.
        self.is_zero(rs2);
        self.if_i32();
        self.read(rs1);
        self.buf.push(OP_ELSE);
        self.is_signed_overflow(rs1, rs2);
        self.if_i32();
        self.i32_const(0);
        self.buf.push(OP_ELSE);
        self.read(rs1);
        self.read(rs2);
        self.buf.push(OP_I32_REM_S);
        self.buf.push(OP_END);
        self.buf.push(OP_END);
        self.write(rd);
        assert(self.buf@ =~= old(self).buf@ + rem_code(rd, rs1, rs2));
        assert(self.reads@ =~= marked(old(self).reads@, set![rs1, rs2]));
        assert(self.writes@ =~= marked(old(self).writes@, set![rd]));
    }

    /// `rd = rs1 % rs2 (unsigned)`, without a trap.
    fn remu(&mut self, rd: u8, rs1: u8, rs2: u8)
        requires
            rd < 32,
            rs1 < 32,
            rs2 < 32,
        ensures
            final(self).buf@ == old(self).buf@ + remu_code(rd, rs1, rs2),
            final(self).reads@ == marked(old(self).reads@, set![rs1, rs2]),
            final(self).writes@ == marked(old(self).writes@, set![rd]),
    {
        // divisor 0 gives the dividend.
        self.is_zero(rs2);
        self.if_i32();
        self.read(rs1);
        self.buf.push(OP_ELSE);
        self.read(rs1);
        self.read(rs2);
        self.buf.push(OP_I32_REM_U);
        self.buf.push(OP_END);
        self.write(rd);
        assert(self.buf@ =~= old(self).buf@ + remu_code(rd, rs1, rs2));
        assert(self.reads@ =~= marked(old(self).reads@, set![rs1, rs2]));
        assert(self.writes@ =~= marked(old(self).writes@, set![rd]));
    }

    /// Emits the ALU instruction `inst` at `pc`: appends [`inst_code`] and
    /// marks the registers it reads and writes (never `x0`).
    #[verifier::spinoff_prover]
    pub fn emit_instruction(&mut self, pc: u32, inst: Instruction)
        requires
            alu_emittable(inst),
            regs_in_range(inst),
        ensures
            final(self).buf@ == old(self).buf@ + inst_code(pc, inst),
            final(self).reads@ == marked(old(self).reads@, inst_reads(inst)),
            final(self).writes@ == marked(old(self).writes@, inst_writes(inst)),
    {
        match inst {
            Instruction::Lui { rd, imm } => self.set_const(rd, imm as i32),
            Instruction::Auipc { rd, imm } => self.set_const(rd, pc.wrapping_add(imm) as i32),
            Instruction::Addi { rd, rs1, imm } => self.binop_imm(rd, rs1, imm, OP_I32_ADD),
            Instruction::Xori { rd, rs1, imm } => self.binop_imm(rd, rs1, imm, OP_I32_XOR),
            Instruction::Ori { rd, rs1, imm } => self.binop_imm(rd, rs1, imm, OP_I32_OR),
            Instruction::Andi { rd, rs1, imm } => self.binop_imm(rd, rs1, imm, OP_I32_AND),
            Instruction::Slti { rd, rs1, imm } => self.binop_imm(rd, rs1, imm, OP_I32_LT_S),
            Instruction::Sltiu { rd, rs1, imm } => self.binop_imm(rd, rs1, imm, OP_I32_LT_U),
            Instruction::Slli { rd, rs1, shamt } => self.binop_imm(rd, rs1, shamt as i32, OP_I32_SHL),
            Instruction::Srli { rd, rs1, shamt } => self.binop_imm(rd, rs1, shamt as i32, OP_I32_SHR_U),
            Instruction::Srai { rd, rs1, shamt } => self.binop_imm(rd, rs1, shamt as i32, OP_I32_SHR_S),
            Instruction::Add { rd, rs1, rs2 } => self.binop(rd, rs1, rs2, OP_I32_ADD),
            Instruction::Sub { rd, rs1, rs2 } => self.binop(rd, rs1, rs2, OP_I32_SUB),
            Instruction::Xor { rd, rs1, rs2 } => self.binop(rd, rs1, rs2, OP_I32_XOR),
            Instruction::Or { rd, rs1, rs2 } => self.binop(rd, rs1, rs2, OP_I32_OR),
            Instruction::And { rd, rs1, rs2 } => self.binop(rd, rs1, rs2, OP_I32_AND),
            Instruction::Slt { rd, rs1, rs2 } => self.binop(rd, rs1, rs2, OP_I32_LT_S),
            Instruction::Sltu { rd, rs1, rs2 } => self.binop(rd, rs1, rs2, OP_I32_LT_U),
            Instruction::Sll { rd, rs1, rs2 } => self.binop(rd, rs1, rs2, OP_I32_SHL),
            Instruction::Srl { rd, rs1, rs2 } => self.binop(rd, rs1, rs2, OP_I32_SHR_U),
            Instruction::Sra { rd, rs1, rs2 } => self.binop(rd, rs1, rs2, OP_I32_SHR_S),
            Instruction::Mul { rd, rs1, rs2 } => self.binop(rd, rs1, rs2, OP_I32_MUL),
            Instruction::Mulh { rd, rs1, rs2 } => self.mulh(rd, rs1, rs2, OP_I64_EXTEND_I32_S, OP_I64_EXTEND_I32_S),
            Instruction::Mulhsu { rd, rs1, rs2 } => self.mulh(rd, rs1, rs2, OP_I64_EXTEND_I32_S, OP_I64_EXTEND_I32_U),
            Instruction::Mulhu { rd, rs1, rs2 } => self.mulh(rd, rs1, rs2, OP_I64_EXTEND_I32_U, OP_I64_EXTEND_I32_U),
            Instruction::Div { rd, rs1, rs2 } => self.div(rd, rs1, rs2),
            Instruction::Divu { rd, rs1, rs2 } => self.divu(rd, rs1, rs2),
            Instruction::Rem { rd, rs1, rs2 } => self.rem(rd, rs1, rs2),
            Instruction::Remu { rd, rs1, rs2 } => self.remu(rd, rs1, rs2),
            Instruction::CAddi { rd, imm } => self.binop_imm(rd, rd, imm, OP_I32_ADD),
            Instruction::CLi { rd, imm } => self.set_const(rd, imm),
            Instruction::CMv { rd, rs2 } => self.copy(rd, rs2),
            Instruction::CAddi16sp { imm } => self.binop_imm(2, 2, imm, OP_I32_ADD),
            Instruction::CAddi4spn { rd, imm } => self.binop_imm(rd, 2, imm as i32, OP_I32_ADD),
            Instruction::CSli { rd, shamt } => self.binop_imm(rd, rd, shamt as i32, OP_I32_SHL),
            _ => {},
        }
    }

    /// Stores the value on the stack to the next-PC slot addressed below it.
    pub fn store_next_pc(&mut self)
        ensures
            final(self).buf@ == old(self).buf@ + store_code(),
            final(self).reads@ == old(self).reads@,
            final(self).writes@ == old(self).writes@,
    {
        self.buf.push(OP_I32_STORE);
        uleb(&mut self.buf, 2);
        uleb(&mut self.buf, 0);
        assert(self.buf@ =~= old(self).buf@ + store_code());
    }

    /// Sets the next-PC slot to the constant `v`.
    pub fn next_pc_const(&mut self, v: i32)
        ensures
            final(self).buf@ == old(self).buf@ + next_pc_const_code(v),
            final(self).reads@ == old(self).reads@,
            final(self).writes@ == old(self).writes@,
    {
        self.i32_const(NEXT_PC_SLOT);
        self.i32_const(v);
        self.store_next_pc();
        assert(self.buf@ =~= old(self).buf@ + next_pc_const_code(v));
    }

    fn select_next(&mut self, pc: u32, ilen: u32, imm: i32)
        ensures
            final(self).buf@ == old(self).buf@ + select_next_code(pc, ilen, imm),
            final(self).reads@ == old(self).reads@,
            final(self).writes@ == old(self).writes@,
    {
        self.if_i32();
        self.i32_const(pc.wrapping_add(imm as u32) as i32);
        self.buf.push(OP_ELSE);
        self.i32_const(pc.wrapping_add(ilen) as i32);
        self.buf.push(OP_END);
        self.store_next_pc();
        assert(self.buf@ =~= old(self).buf@ + select_next_code(pc, ilen, imm));
    }

    /// A two-register conditional branch: the next PC is `pc + imm` when
    /// `pred(rs1, rs2)` holds and `pc + ilen` otherwise.
    pub fn cond_branch(&mut self, rs1: u8, rs2: u8, pred: u8, pc: u32, ilen: u32, imm: i32)
        requires
            rs1 < 32,
            rs2 < 32,
        ensures
            final(self).buf@ == old(self).buf@ + cond_branch_code(rs1, rs2, pred, pc, ilen, imm),
            final(self).reads@ == marked(old(self).reads@, set![rs1, rs2]),
            final(self).writes@ == marked(old(self).writes@, Set::empty()),
    {
        self.i32_const(NEXT_PC_SLOT);
        self.read(rs1);
        self.read(rs2);
        self.buf.push(pred);
        self.select_next(pc, ilen, imm);
        assert(self.buf@ =~= old(self).buf@ + cond_branch_code(rs1, rs2, pred, pc, ilen, imm));
        assert(self.reads@ =~= marked(old(self).reads@, set![rs1, rs2]));
        assert(self.writes@ =~= marked(old(self).writes@, Set::empty()));
    }

    /// A compare-with-zero branch: taken when `rs1 == 0` iff `want_zero`.
    pub fn cond_branch_zero(&mut self, rs1: u8, want_zero: bool, pc: u32, ilen: u32, imm: i32)
        requires
            rs1 < 32,
        ensures
            final(self).buf@ == old(self).buf@ + cond_branch_zero_code(rs1, want_zero, pc, ilen, imm),
            final(self).reads@ == marked(old(self).reads@, set![rs1]),
            final(self).writes@ == marked(old(self).writes@, Set::empty()),
    {
        self.i32_const(NEXT_PC_SLOT);
        self.read(rs1);
        if want_zero {
            self.buf.push(OP_I32_EQZ);
        }
        self.select_next(pc, ilen, imm);
        assert(self.buf@ =~= old(self).buf@ + cond_branch_zero_code(rs1, want_zero, pc, ilen, imm));
        assert(self.reads@ =~= marked(old(self).reads@, set![rs1]));
        assert(self.writes@ =~= marked(old(self).writes@, Set::empty()));
    }

    /// Pushes `rs1 & !1`, a jump target with bit 0 cleared.
    pub fn read_masked(&mut self, rs1: u8)
        requires
            rs1 < 32,
        ensures
            final(self).buf@ == old(self).buf@ + read_code(rs1) + const_code(-2i32) + seq![
                OP_I32_AND,
            ],
            final(self).reads@ == mark(old(self).reads@, rs1),
            final(self).writes@ == old(self).writes@,
    {
        self.read(rs1);
        self.i32_const(-2); // !1: clears bit 0
        self.buf.push(OP_I32_AND);
        assert(self.buf@ =~= old(self).buf@ + read_code(rs1) + const_code(-2i32) + seq![OP_I32_AND]);
    }

    fn jump(&mut self, rd: u8, pc: u32, ilen: u32, imm: i32)
        requires
            rd < 32,
        ensures
            final(self).buf@ == old(self).buf@ + terminator_code(pc, ilen, Instruction::Jal { rd, imm }),
            final(self).reads@ == marked(old(self).reads@, Set::empty()),
            final(self).writes@ == marked(old(self).writes@, set![rd]),
    {
        self.next_pc_const(pc.wrapping_add(imm as u32) as i32);
        self.i32_const(pc.wrapping_add(ilen) as i32);
        self.write(rd);
        assert(self.buf@ =~= old(self).buf@ + terminator_code(pc, ilen, Instruction::Jal { rd, imm }));
        assert(self.reads@ =~= marked(old(self).reads@, Set::empty()));
        assert(self.writes@ =~= marked(old(self).writes@, set![rd]));
    }

    fn jump_register(&mut self, rd: u8, rs1: u8, pc: u32, ilen: u32, imm: i32)
        requires
            rd < 32,
            rs1 < 32,
        ensures
            final(self).buf@ == old(self).buf@ + terminator_code(
                pc,
                ilen,
                Instruction::Jalr { rd, rs1, imm },
            ),
            final(self).reads@ == marked(old(self).reads@, set![rs1]),
            final(self).writes@ == marked(old(self).writes@, set![rd]),
    {
        self.i32_const(NEXT_PC_SLOT);
        self.read(rs1);
        self.i32_const(imm);
        self.buf.push(OP_I32_ADD);
        self.i32_const(-2); // !1: clears bit 0
        self.buf.push(OP_I32_AND);
        self.store_next_pc();
        self.i32_const(pc.wrapping_add(ilen) as i32);
        self.write(rd);
        assert(self.buf@ =~= old(self).buf@ + terminator_code(
            pc,
            ilen,
            Instruction::Jalr { rd, rs1, imm },
        ));
        assert(self.reads@ =~= marked(old(self).reads@, set![rs1]));
        assert(self.writes@ =~= marked(old(self).writes@, set![rd]));
    }

    fn jump_masked(&mut self, rs1: u8, link: bool, pc: u32)
        requires
            rs1 < 32,
        ensures
            final(self).buf@ == old(self).buf@ + terminator_code(
                pc,
                2,
                if link {
                    Instruction::CJalr { rs1 }
                } else {
                    Instruction::CJr { rs1 }
                },
            ),
            final(self).reads@ == marked(old(self).reads@, set![rs1]),
            final(self).writes@ == marked(
                old(self).writes@,
                if link {
                    set![1u8]
                } else {
                    Set::empty()
                },
            ),
    {
        self.i32_const(NEXT_PC_SLOT);
        self.read_masked(rs1);
        self.store_next_pc();
        if link {
            self.i32_const(pc.wrapping_add(2) as i32);
            self.write(1);
            assert(self.buf@ =~= old(self).buf@ + terminator_code(pc, 2, Instruction::CJalr { rs1 }));
            assert(self.writes@ =~= marked(old(self).writes@, set![1u8]));
        } else {
            assert(self.buf@ =~= old(self).buf@ + terminator_code(pc, 2, Instruction::CJr { rs1 }));
            assert(self.writes@ =~= marked(old(self).writes@, Set::empty()));
        }
        assert(self.reads@ =~= marked(old(self).reads@, set![rs1]));
    }

    /// Emits the block's branch or jump: the next PC is resolved into the
    /// next-PC slot before a link register is written, so `jalr rd, rd, imm`
    /// reads the old `rd`, and a jump target has bit 0 cleared.
    #[verifier::spinoff_prover]
    pub fn emit_terminator(&mut self, pc: u32, ilen: u32, inst: Instruction)
        requires
            terminator_emittable(inst),
            regs_in_range(inst),
        ensures
            final(self).buf@ == old(self).buf@ + terminator_code(pc, ilen, inst),
            final(self).reads@ == marked(old(self).reads@, inst_reads(inst)),
            final(self).writes@ == marked(old(self).writes@, inst_writes(inst)),
    {
        match inst {
            Instruction::Beq { rs1, rs2, imm } => self.cond_branch(rs1, rs2, OP_I32_EQ, pc, ilen, imm),
            Instruction::Bne { rs1, rs2, imm } => self.cond_branch(rs1, rs2, OP_I32_NE, pc, ilen, imm),
            Instruction::Blt { rs1, rs2, imm } => self.cond_branch(rs1, rs2, OP_I32_LT_S, pc, ilen, imm),
            Instruction::Bge { rs1, rs2, imm } => self.cond_branch(rs1, rs2, OP_I32_GE_S, pc, ilen, imm),
            Instruction::Bltu { rs1, rs2, imm } => self.cond_branch(rs1, rs2, OP_I32_LT_U, pc, ilen, imm),
            Instruction::Bgeu { rs1, rs2, imm } => self.cond_branch(rs1, rs2, OP_I32_GE_U, pc, ilen, imm),
            Instruction::CBeqz { rs1, imm } => self.cond_branch_zero(rs1, true, pc, ilen, imm),
            Instruction::CBnez { rs1, imm } => self.cond_branch_zero(rs1, false, pc, ilen, imm),
            Instruction::Jal { rd, imm } => self.jump(rd, pc, ilen, imm),
            Instruction::Jalr { rd, rs1, imm } => self.jump_register(rd, rs1, pc, ilen, imm),
            Instruction::CJ { imm } => {
                self.next_pc_const(pc.wrapping_add(imm as u32) as i32);
                assert(self.reads@ =~= marked(old(self).reads@, Set::empty()));
                assert(self.writes@ =~= marked(old(self).writes@, Set::empty()));
            },
            Instruction::CJr { rs1 } => self.jump_masked(rs1, false, pc),
            Instruction::CJalr { rs1 } => self.jump_masked(rs1, true, pc),
            _ => {},
        }
    }

    /// Appends the prologue: a load of every register the body reads.
    pub fn emit_prologue(&self, out: &mut Vec<u8>)
        ensures
            final(out)@ == old(out)@ + transfer_code(self.reads@, 32, true),
    {
        let ghost start = out@;
        let mut r: u8 = 1;
        while r < 32
            invariant
                1 <= r <= 32,
                out@ == start + transfer_code(self.reads@, r as int, true),
            decreases 32 - r,
        {
            let ghost before = out@;
            if self.reads[r as usize] {
                out.push(OP_I32_CONST);
                sleb(out, (r as i64) * 4);
                out.push(OP_I32_LOAD);
                uleb(out, 2);
                uleb(out, 0);
                out.push(OP_LOCAL_SET);
                uleb(out, r as u64);
                assert(out@ =~= before + load_code(r));
            }
            assert(out@ =~= start + transfer_code(self.reads@, r + 1, true));
            r = r + 1;
        }
    }

    /// Appends the epilogue: a store of every register the body writes.
    pub fn emit_epilogue(&self, out: &mut Vec<u8>)
        ensures
            final(out)@ == old(out)@ + transfer_code(self.writes@, 32, false),
    {
        let ghost start = out@;
        let mut r: u8 = 1;
        while r < 32
            invariant
                1 <= r <= 32,
                out@ == start + transfer_code(self.writes@, r as int, false),
            decreases 32 - r,
        {
            let ghost before = out@;
            if self.writes[r as usize] {
                out.push(OP_I32_CONST);
                sleb(out, (r as i64) * 4);
                out.push(OP_LOCAL_GET);
                uleb(out, r as u64);
                out.push(OP_I32_STORE);
                uleb(out, 2);
                uleb(out, 0);
                assert(out@ =~= before + store_reg_code(r));
            }
            assert(out@ =~= start + transfer_code(self.writes@, r + 1, false));
            r = r + 1;
        }
    }
}

} // verus!
