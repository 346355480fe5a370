use labwired::jit::{
    is_alu_emittable, is_terminator_emittable, sleb, uleb, Body, Instruction, OP_DROP,
    OP_I32_ADD, OP_I32_CONST, OP_LOCAL_GET, OP_LOCAL_SET,
};

#[test]
fn leb128_encodings() {
    let mut b = Vec::new();
    sleb(&mut b, 0);
    sleb(&mut b, 5);
    sleb(&mut b, -1);
    sleb(&mut b, 64);
    sleb(&mut b, -65);
    sleb(&mut b, i32::MIN as i64);
    assert_eq!(
        b,
        vec![0x00, 0x05, 0x7f, 0xc0, 0x00, 0xbf, 0x7f, 0x80, 0x80, 0x80, 0x80, 0x78]
    );
    let mut u = Vec::new();
    uleb(&mut u, 2);
    uleb(&mut u, 127);
    uleb(&mut u, 128);
    uleb(&mut u, 624_485);
    assert_eq!(u, vec![0x02, 0x7f, 0x80, 0x01, 0xe5, 0x8e, 0x26]);
}

#[test]
fn addi_from_x0_reads_a_constant_and_sets_the_local() {
    let mut body = Body::default();
    body.emit_instruction(0, Instruction::Addi { rd: 1, rs1: 0, imm: 5 });
    assert_eq!(body.buf, vec![OP_I32_CONST, 0, OP_I32_CONST, 5, OP_I32_ADD, OP_LOCAL_SET, 1]);
    assert!(!body.reads[0], "x0 is never loaded");
    assert!(body.writes[1]);
}

#[test]
fn writes_to_x0_are_dropped() {
    let mut body = Body::default();
    body.emit_instruction(0, Instruction::Add { rd: 0, rs1: 3, rs2: 4 });
    assert_eq!(body.buf, vec![OP_LOCAL_GET, 3, OP_LOCAL_GET, 4, OP_I32_ADD, OP_DROP]);
    assert!(body.reads[3] && body.reads[4]);
    assert!(body.writes.iter().all(|w| !w));
}

#[test]
fn auipc_uses_its_own_pc() {
    let mut body = Body::default();
    body.emit_instruction(0x100, Instruction::Auipc { rd: 5, imm: 0x1000 });
    // i32.const 0x1100 (sleb: 0x80 0x22), local.set 5
    assert_eq!(body.buf, vec![OP_I32_CONST, 0x80, 0x22, OP_LOCAL_SET, 5]);
}

#[test]
fn division_never_traps() {
    let mut body = Body::default();
    body.emit_instruction(0, Instruction::Divu { rd: 1, rs1: 2, rs2: 3 });
    assert_eq!(
        body.buf,
        vec![
            0x20, 3, 0x45, 0x04, 0x7f, 0x41, 0x7f, 0x05, 0x20, 2, 0x20, 3, 0x6e, 0x0b, 0x21, 1
        ]
    );
}

#[test]
fn jal_resolves_the_next_pc_before_linking() {
    let mut body = Body::default();
    body.emit_terminator(0x40, 4, Instruction::Jal { rd: 1, imm: 8 });
    // slot 128, const 0x48, store; const 0x44; local.set 1
    assert_eq!(
        body.buf,
        vec![0x41, 0x80, 0x01, 0x41, 0xc8, 0x00, 0x36, 2, 0, 0x41, 0xc4, 0x00, 0x21, 1]
    );
    assert!(body.writes[1]);
}

#[test]
fn prologue_and_epilogue_move_only_touched_registers() {
    let mut body = Body::default();
    body.emit_instruction(0, Instruction::Add { rd: 2, rs1: 1, rs2: 1 });
    let mut pro = Vec::new();
    body.emit_prologue(&mut pro);
    assert_eq!(pro, vec![0x41, 4, 0x28, 2, 0, 0x21, 1]);
    let mut epi = Vec::new();
    body.emit_epilogue(&mut epi);
    assert_eq!(epi, vec![0x41, 8, 0x20, 2, 0x36, 2, 0]);
}

#[test]
fn alu_and_terminators_partition_the_instructions() {
    assert!(is_alu_emittable(&Instruction::Mulh { rd: 1, rs1: 2, rs2: 3 }));
    assert!(!is_terminator_emittable(&Instruction::CLi { rd: 1, imm: 3 }));
    assert!(is_terminator_emittable(&Instruction::Beq { rs1: 1, rs2: 2, imm: 8 }));
    assert!(!is_alu_emittable(&Instruction::CJr { rs1: 1 }));
}
