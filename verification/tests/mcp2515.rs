use labwired::peripherals::mcp2515::{
    decode_standard_id, encode_standard_id, Mcp2515, CANINTF_MERRF, CANINTF_RX0IF, CANINTF_RX1IF,
    CANINTF_TX0IF, INST_BITMOD, INST_READ, INST_READ_STATUS, INST_RESET, INST_RX_STATUS,
    INST_WRITE, REG_CANCTRL, REG_CANINTF, REG_CANSTAT, REG_CNF3, REG_EFLG, REG_RXB0SIDH,
    REG_RXB1SIDH, REG_TXB0CTRL, REG_TXB0D0, REG_TXB0SIDH, REG_TXB1CTRL, REG_TXB1D0, REG_TXB1SIDH,
    REG_TXB2CTRL, REG_TXB2D0, REG_TXB2SIDH, TXREQ,
};


fn transaction(dev: &mut Mcp2515, bytes: &[u8]) -> Vec<u8> {
    dev.cs_select();
    let result = bytes.iter().map(|byte| dev.transfer(*byte)).collect();
    dev.cs_release();
    result
}

fn read(dev: &mut Mcp2515, address: u8, count: usize) -> Vec<u8> {
    transaction(
        dev,
        &[INST_READ, address]
            .into_iter()
            .chain(std::iter::repeat_n(0, count))
            .collect::<Vec<_>>(),
    )[2..]
        .to_vec()
}

fn write(dev: &mut Mcp2515, address: u8, values: &[u8]) {
    transaction(
        dev,
        &[INST_WRITE, address]
            .into_iter()
            .chain(values.iter().copied())
            .collect::<Vec<_>>(),
    );
}

#[test]
fn external_poll_demand_starts_only_after_can_attachment() {
    let mut dev = Mcp2515::new("PA4");
    assert!(!dev.needs_external_bus_poll());
    let (tx, _outbound) = std::sync::mpsc::channel();
    let (_inbound, rx) = std::sync::mpsc::channel();
    dev.attach_can_bus(tx, rx).unwrap();
    assert!(dev.needs_external_bus_poll());
}

#[test]
fn reset_and_read_canctrl() {
    let mut dev = Mcp2515::new("PA4");
    dev.cs_select();
    dev.transfer(INST_RESET);
    dev.cs_release();
    dev.cs_select();
    dev.transfer(INST_READ);
    dev.transfer(REG_CANCTRL);
    let v = dev.transfer(0x00);
    assert_eq!(v, 0x87);
    assert_eq!(read(&mut dev, REG_CANSTAT, 2), [0x80, 0x87]);
    assert_eq!(read(&mut dev, REG_CANINTF, 1), [0]);
    assert_eq!(read(&mut dev, REG_EFLG, 1), [0]);
}

#[test]
fn write_canctrl_updates_canstat_opmode() {
    let mut dev = Mcp2515::new("PA4");
    write(&mut dev, REG_CNF3, &[0x01, 0xBC, 0x00]);
    dev.cs_select();
    dev.transfer(INST_WRITE);
    dev.transfer(REG_CANCTRL);
    dev.transfer(0x00); // normal mode
    dev.cs_release();
    dev.cs_select();
    dev.transfer(INST_READ);
    dev.transfer(REG_CANSTAT);
    let st = dev.transfer(0);
    assert_eq!(st & 0xE0, 0x00);
}

#[test]
fn sequential_write_read_and_bit_modify_share_register_side_effects() {
    let mut dev = Mcp2515::new("PA4");
    write(&mut dev, REG_CNF3, &[0x01, 0xBC, 0x00]);
    assert_eq!(read(&mut dev, REG_CNF3, 3), [0x01, 0xBC, 0x00]);
    transaction(&mut dev, &[INST_BITMOD, REG_CANCTRL, 0xE0, 0x40]);
    assert_eq!(read(&mut dev, REG_CANCTRL, 1)[0] & 0xE0, 0x40);
    assert_eq!(read(&mut dev, REG_CANSTAT, 1)[0] & 0xE0, 0x40);
    for mode in [0x20, 0x60, 0x80] {
        write(&mut dev, REG_CANCTRL, &[mode]);
        assert_eq!(read(&mut dev, REG_CANSTAT, 1)[0] & 0xE0, mode);
    }
}

#[test]
fn invalid_timing_rejects_active_mode_and_reports_configuration_error() {
    let mut dev = Mcp2515::new("PA4");
    write(&mut dev, REG_CANCTRL, &[0x00]);
    assert_eq!(read(&mut dev, REG_CANSTAT, 1)[0] & 0xE0, 0x80);
    assert_ne!(read(&mut dev, REG_CANINTF, 1)[0] & CANINTF_MERRF, 0);
}

#[test]
fn load_tx_buffer_variants_and_rts_set_txreq_and_status() {
    let mut dev = Mcp2515::new("PA4");
    let frame = [0x24, 0x60, 0, 0, 3, 0x11, 0x22, 0x33];
    for (load, rts, ctrl, base) in [
        (0x40, 0x81, REG_TXB0CTRL, REG_TXB0SIDH),
        (0x42, 0x82, REG_TXB1CTRL, REG_TXB1SIDH),
        (0x44, 0x84, REG_TXB2CTRL, REG_TXB2SIDH),
    ] {
        transaction(
            &mut dev,
            &[load].into_iter().chain(frame).collect::<Vec<_>>(),
        );
        assert_eq!(read(&mut dev, base, frame.len()), frame);
        transaction(&mut dev, &[rts]);
        assert_ne!(read(&mut dev, ctrl, 1)[0] & TXREQ, 0);
    }
    assert_eq!(
        transaction(&mut dev, &[INST_READ_STATUS, 0])[1] & 0x54,
        0x54
    );

    transaction(&mut dev, &[0x41, 0xAA, 0xBB]);
    assert_eq!(read(&mut dev, REG_TXB0D0, 2), [0xAA, 0xBB]);
    transaction(&mut dev, &[0x43, 0xCC]);
    assert_eq!(read(&mut dev, REG_TXB1D0, 1), [0xCC]);
    transaction(&mut dev, &[0x45, 0xDD]);
    assert_eq!(read(&mut dev, REG_TXB2D0, 1), [0xDD]);
}

#[test]
fn read_rx_buffer_variants_use_documented_header_and_data_offsets() {
    let mut dev = Mcp2515::new("PA4");
    let header0 = [0x24, 0x60, 0, 0, 2, 0xDE, 0xAD];
    let header1 = [0x64, 0x20, 0, 0, 2, 0xBE, 0xEF];
    write(&mut dev, REG_RXB0SIDH, &header0);
    write(&mut dev, REG_RXB1SIDH, &header1);
    for command in [0x90, 0x91] {
        assert_eq!(transaction(&mut dev, &[command, 0, 0])[1..], header0[..2]);
    }
    for command in [0x92, 0x93] {
        assert_eq!(transaction(&mut dev, &[command, 0, 0])[1..], [0xDE, 0xAD]);
    }
    for command in [0x94, 0x95] {
        assert_eq!(transaction(&mut dev, &[command, 0, 0])[1..], header1[..2]);
    }
    for command in [0x96, 0x97] {
        assert_eq!(transaction(&mut dev, &[command, 0, 0])[1..], [0xBE, 0xEF]);
    }

    write(&mut dev, REG_CANINTF, &[CANINTF_RX0IF | CANINTF_RX1IF]);
    transaction(&mut dev, &[0x90, 0]);
    assert_eq!(read(&mut dev, REG_CANINTF, 1), [CANINTF_RX1IF]);
    transaction(&mut dev, &[0x94, 0]);
    assert_eq!(read(&mut dev, REG_CANINTF, 1), [0]);
}

#[test]
fn status_commands_reflect_interrupts_rx_full_and_standard_frame_kind() {
    let mut dev = Mcp2515::new("PA4");
    write(
        &mut dev,
        REG_CANINTF,
        &[CANINTF_RX0IF | CANINTF_RX1IF | CANINTF_TX0IF],
    );
    assert_eq!(transaction(&mut dev, &[INST_READ_STATUS, 0])[1], 0x0B);
    assert_eq!(transaction(&mut dev, &[INST_RX_STATUS, 0])[1] & 0xC0, 0xC0);

    write(&mut dev, 0x60, &[0x01]); // RXB0CTRL FILHIT0
    write(&mut dev, 0x65, &[0x40]); // RXB0DLC RTR
    assert_eq!(transaction(&mut dev, &[INST_RX_STATUS, 0])[1] & 0x0F, 0x09);
}

#[test]
fn standard_identifier_helpers_round_trip_and_reject_extended_form() {
    for id in [0, 0x123, 0x7FF] {
        let encoded = encode_standard_id(id).unwrap();
        assert_eq!(decode_standard_id(encoded).unwrap(), id);
    }
    assert!(encode_standard_id(0x800).is_none());
    assert!(decode_standard_id([0, 0x08, 0, 0]).is_none());
}

#[test]
fn chip_select_boundary_discards_partial_command_state() {
    let mut dev = Mcp2515::new("PA4");
    transaction(&mut dev, &[INST_WRITE, REG_CNF3]);
    transaction(&mut dev, &[0x01]);
    assert_eq!(read(&mut dev, REG_CNF3, 1), [0]);
}
