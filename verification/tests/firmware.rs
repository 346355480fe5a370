use labwired::bldc::six_step::{
    commutation, message_text, plan, speed_loop_duty, startup_order, Action, ControlOutput, Fault,
    Message, SixStepController, CC1E, CC1NE, CC2E, CC2NE, CC3E, CC3NE, MAX_DUTY, MIN_DUTY,
};
use labwired::peripherals::mcp2515::Mcp2515 as Mcp2515Model;
use labwired::scanner::ble::{encode_manufacturer_payload, Radio, PAYLOAD_LEN, WIRE_FLAGS};
use labwired::scanner::cycle::{
    apply_dtc_response, apply_live_response, apply_overflow_check, apply_unpolled,
    apply_vin_event, clear_dtc_outcome, live_pid, next_live_slot, pid_supported, VinStep,
};
use labwired::scanner::flags;
use labwired::scanner::isotp::IsoTpEvent;
use labwired::scanner::mcp2515::{Error as CanError, Mcp2515};
use labwired::scanner::obd2::{CanFrame, Error, RESPONSE_ID};
use labwired::scanner::ssd1306::{glyph, AsciiLine, DisplayView, Ssd1306};
use labwired::scanner::state::ScannerState;

fn response(data: [u8; 8]) -> CanFrame {
    CanFrame {
        id: RESPONSE_ID,
        len: 8,
        data,
    }
}

#[test]
fn ble_payload_layout() {
    let mut state = ScannerState::new();
    state.rpm = 0x1234;
    state.speed_kph = 88;
    state.coolant_c = 90;
    state.dtc_count = 2;
    state.status_flags = 0xffff;
    state.generation = 0x0001_0203;
    let payload = encode_manufacturer_payload(&state);
    assert_eq!(payload.len(), PAYLOAD_LEN);
    assert_eq!(payload, [1, 0x7f, 0x34, 0x12, 88, 130, 2, 0x03, 0x02]);
    assert_eq!(WIRE_FLAGS, 0x7f);
}

#[test]
fn ble_coolant_clamps_to_the_wire_range() {
    let mut state = ScannerState::new();
    for (coolant, wire) in [(-40i16, 0u8), (-41, 0), (i16::MIN, 0), (215, 255), (216, 255), (i16::MAX, 255), (0, 40)] {
        state.coolant_c = coolant;
        assert_eq!(encode_manufacturer_payload(&state)[5], wire, "{coolant}");
    }
}

#[test]
fn radio_packet_is_header_then_payload() {
    let mut radio = Radio::new();
    assert_eq!(radio.packet(), [0; 11]);
    radio.prepare();
    radio.load_payload(&[1, 2, 3, 4, 5, 6, 7, 8, 9]);
    assert_eq!(radio.packet(), [0xab, 9, 1, 2, 3, 4, 5, 6, 7, 8, 9]);
}

#[test]
fn ascii_line_keeps_twenty_one_characters() {
    let mut line = AsciiLine::new();
    line.text(b"0123456789");
    line.number(-1234567890);
    assert_eq!(line.as_bytes(), b"0123456789-1234567890");
    line.push(b'X');
    assert_eq!(line.as_bytes().len(), 21);
    let mut small = AsciiLine::new();
    small.number(0);
    small.number(i32::MIN);
    assert_eq!(small.as_bytes(), b"0-2147483648");
}

#[test]
fn display_view_lines_and_status_words() {
    let mut state = ScannerState::new();
    state.rpm = 3000;
    state.speed_kph = 120;
    state.coolant_c = -12;
    state.dtc_count = 3;
    state.status_flags = flags::STALE | flags::TIMEOUT | flags::CAN_CONFIG_ERROR;
    let view = DisplayView::from_state(&state);
    assert_eq!(view.lines[0].as_bytes(), b"RPM 3000");
    assert_eq!(view.lines[1].as_bytes(), b"SPD 120 km/h");
    assert_eq!(view.lines[2].as_bytes(), b"TEMP -12 C");
    assert_eq!(view.lines[3].as_bytes(), b"DTC 3");
    assert_eq!(view.status.as_bytes(), b"STALE TIMEOUT CAN ERR");
    state.status_flags = flags::TIMEOUT;
    assert_eq!(DisplayView::from_state(&state).status.as_bytes(), b"TIMEOUT");
    state.status_flags = flags::CONNECTED;
    assert_eq!(DisplayView::from_state(&state).status.as_bytes(), b"");
}

#[test]
fn render_draws_glyphs_on_six_pixel_columns() {
    let mut state = ScannerState::new();
    state.rpm = 7;
    let view = DisplayView::from_state(&state);
    let mut oled = Ssd1306::new();
    oled.render(&view);
    let update = oled.update();
    assert_eq!(update.window, [0x00, 0x21, 0, 127, 0x22, 0, 7]);
    assert_eq!(update.data.len(), 64);
    let mut frame = Vec::new();
    for packet in &update.data {
        assert_eq!(packet[0], 0x40);
        frame.extend_from_slice(&packet[1..]);
    }
    assert_eq!(&frame[0..5], &glyph(b'R'));
    assert_eq!(frame[5], 0);
    assert_eq!(&frame[6..11], &glyph(b'P'));
    assert_eq!(&frame[24..29], &glyph(b'7'));
    assert_eq!(&frame[5 * 128..5 * 128 + 5], &glyph(b'S'), "status line on page 5");
    assert!(frame[4 * 128..5 * 128].iter().all(|b| *b == 0), "page 4 is dark");
    assert_eq!(glyph(b'?'), [0; 5]);
    assert_eq!(Ssd1306::init_command()[0], 0x00);
    assert_eq!(Ssd1306::init_command()[15], 0xaf);
}

#[test]
fn driver_packets() {
    let can = Mcp2515::new();
    assert_eq!(can.read(0x1d), [0x03, 0x1d, 0]);
    assert_eq!(Mcp2515::read_reply(&[0, 0, 0x5a]), 0x5a);
    assert_eq!(can.write(0x0f, 0x80), [0x02, 0x0f, 0x80]);
    assert_eq!(can.bit_modify(0x2c, 1, 0), [0x05, 0x2c, 1, 0]);
    assert_eq!(can.interrupt_flags(), [0x03, 0x2c, 0]);
    assert_eq!(can.clear_overflow(), [0x05, 0x1d, 0xc0, 0]);
    assert_eq!(can.write_standard_id(0x00, 0x7e8), [0x02, 0x00, 0xfd, 0x00, 0, 0]);
    let frame = CanFrame {
        id: 0x7df,
        len: 12,
        data: [2, 1, 0x0c, 0, 0, 0, 0, 0],
    };
    let (load, rts) = can.send(&frame);
    assert_eq!(load, [0x40, 0xfb, 0xe0, 0, 0, 8, 2, 1, 0x0c, 0, 0, 0, 0, 0]);
    assert_eq!(rts, [0x81]);
    assert_eq!(Mcp2515::check_normal_mode(0x00), Ok(()));
    assert_eq!(Mcp2515::check_normal_mode(0x80), Err(CanError::Configuration));
}

#[test]
fn receive_prefers_rxb0_and_decodes_the_buffer() {
    let can = Mcp2515::new();
    assert_eq!(can.receive(0), Err(CanError::NoFrame));
    assert_eq!(can.receive(0x04), Err(CanError::NoFrame));
    let plan = can.receive(0x03).unwrap();
    assert_eq!(plan.read[0], 0x90);
    assert_eq!(plan.clear, [0x05, 0x2c, 1, 0]);
    let plan = can.receive(0x02).unwrap();
    assert_eq!(plan.read[0], 0x94);
    assert_eq!(plan.clear, [0x05, 0x2c, 2, 0]);
    let rx = [0, 0xfd, 0x00, 0, 0, 0x03, 1, 2, 3, 4, 5, 6, 7, 8];
    let frame = Mcp2515::decode_rx(&rx).unwrap();
    assert_eq!(frame.id, 0x7e8);
    assert_eq!(frame.len, 3);
    assert_eq!(frame.data, [1, 2, 3, 4, 5, 6, 7, 8]);
    let mut bad = rx;
    bad[5] = 0x09;
    assert_eq!(Mcp2515::decode_rx(&bad), Err(CanError::Overflow));
}

#[test]
fn driver_packets_drive_the_controller_model() {
    let can = Mcp2515::new();
    let mut model = Mcp2515Model::new("P0.12");
    let frame = CanFrame {
        id: 0x7df,
        len: 8,
        data: [2, 1, 0x0c, 0, 0, 0, 0, 0],
    };
    let (load, rts) = can.send(&frame);
    for packet in [&load[..], &rts[..]] {
        model.cs_select();
        for b in packet {
            model.transfer(*b);
        }
        model.cs_release();
    }
    let read = can.read(0x31);
    model.cs_select();
    let reply: Vec<u8> = read.iter().map(|b| model.transfer(*b)).collect();
    model.cs_release();
    assert_eq!(reply[2], 0xfb, "TXB0SIDH holds the identifier");
    let read = can.read(0x30);
    model.cs_select();
    let reply: Vec<u8> = read.iter().map(|b| model.transfer(*b)).collect();
    model.cs_release();
    assert_eq!(reply[2] & 0x08, 0x08, "RTS set TXREQ");
}

#[test]
fn live_pid_rotation_and_support_bitmap() {
    assert_eq!((live_pid(0), live_pid(1), live_pid(2)), (0x0c, 0x0d, 0x05));
    assert_eq!((next_live_slot(0), next_live_slot(1), next_live_slot(2)), (1, 2, 0));
    let map = 0xbe1f_a813u32;
    assert!(pid_supported(Some(map), 0x0c));
    assert!(pid_supported(Some(map), 0x0d));
    assert!(pid_supported(Some(map), 0x05));
    assert!(!pid_supported(Some(0), 0x0c));
    assert!(!pid_supported(None, 0x0c));
    assert!(pid_supported(Some(1), 32));
}

#[test]
fn live_responses_update_the_state() {
    let mut state = ScannerState::new();
    apply_live_response(&mut state, 0x0c, Some(response([4, 0x41, 0x0c, 0x1a, 0xf8, 0, 0, 0])));
    assert_eq!(state.rpm, 1726);
    assert!(state.has(flags::CONNECTED));
    assert!(!state.has(flags::STALE));
    assert_eq!(state.generation, 1);
    apply_live_response(&mut state, 0x0d, Some(response([3, 0x41, 0x0c, 50, 0, 0, 0, 0])));
    assert!(state.has(flags::MALFORMED), "wrong PID is malformed");
    assert_eq!(state.speed_kph, 0);
    apply_live_response(&mut state, 0x05, None);
    assert!(state.has(flags::TIMEOUT) && state.has(flags::STALE));
    assert!(!state.has(flags::CONNECTED));
    let before = state;
    apply_unpolled(&mut state, Some(0));
    assert_eq!(state, before);
    let mut fresh = ScannerState::new();
    apply_unpolled(&mut fresh, None);
    assert!(fresh.has(flags::TIMEOUT));
}

#[test]
fn dtc_clear_vin_and_overflow_decisions() {
    let mut state = ScannerState::new();
    apply_dtc_response(&mut state, Some(response([5, 0x43, 0x01, 0x33, 0x00, 0x00, 0, 0])));
    assert_eq!(state.dtc_count, 1);
    assert!(state.has(flags::DTC_PRESENT));
    apply_dtc_response(&mut state, Some(response([2, 0x44, 0, 0, 0, 0, 0, 0])));
    assert!(state.has(flags::MALFORMED));
    let before = state;
    apply_dtc_response(&mut state, None);
    assert_eq!(state, before);

    assert_eq!(clear_dtc_outcome(Some(response([1, 0x44, 0, 0, 0, 0, 0, 0]))), 2);
    assert_eq!(clear_dtc_outcome(Some(response([3, 0x7f, 0x04, 0x22, 0, 0, 0, 0]))), 3);
    assert_eq!(clear_dtc_outcome(None), 3);

    let fc = CanFrame {
        id: 0x7e0,
        len: 8,
        data: [0x30, 0, 0, 0, 0, 0, 0, 0],
    };
    let mut state = ScannerState::new();
    assert_eq!(apply_vin_event(&mut state, Ok(IsoTpEvent::FlowControl(fc))), VinStep::SendFlowControl(fc));
    assert_eq!(apply_vin_event(&mut state, Ok(IsoTpEvent::Pending)), VinStep::Wait);
    let vin = *b"1HGCM82633A004352";
    assert_eq!(apply_vin_event(&mut state, Ok(IsoTpEvent::Complete(vin))), VinStep::Done);
    assert!(state.vin_valid);
    assert_eq!(state.vin, vin);
    assert_eq!(apply_vin_event(&mut state, Err(Error::Sequence)), VinStep::Done);
    assert!(state.has(flags::MALFORMED));

    let mut state = ScannerState::new();
    assert!(!apply_overflow_check(&mut state, 0x3f));
    assert!(!state.has(flags::RX_OVERFLOW));
    assert!(apply_overflow_check(&mut state, 0x40));
    assert!(state.has(flags::RX_OVERFLOW));
}

#[test]
fn commutation_rows_and_startup_order() {
    assert_eq!(commutation(0), 0);
    assert_eq!(commutation(7), 0);
    assert_eq!(commutation(1), CC1E | CC2NE);
    assert_eq!(commutation(2), CC2E | CC3NE);
    assert_eq!(commutation(3), CC2E | CC1NE);
    assert_eq!(commutation(4), CC3E | CC1NE);
    assert_eq!(commutation(5), CC1E | CC3NE);
    assert_eq!(commutation(6), CC3E | CC2NE);
    let order: Vec<u32> = (0..7).map(startup_order).collect();
    assert_eq!(order, [1, 5, 4, 6, 2, 3, 1]);
}

#[test]
fn speed_loop_duty_is_bounded() {
    assert_eq!(speed_loop_duty(300, 14_000), 300);
    assert_eq!(speed_loop_duty(300, 0), 354);
    assert_eq!(speed_loop_duty(300, 28_000), 246);
    assert_eq!(speed_loop_duty(300, 100_000), 246);
    assert_eq!(speed_loop_duty(300, 13_700), 301);
    assert_eq!(speed_loop_duty(300, 14_300), 299, "truncates toward zero");
    assert_eq!(speed_loop_duty(MIN_DUTY, 28_000), MIN_DUTY);
    assert_eq!(speed_loop_duty(MAX_DUTY, 0), MAX_DUTY);
}

#[test]
fn controller_starts_open_loop_then_follows_halls() {
    let mut c = SixStepController::new();
    let mut reports = 0;
    let mut writes = Vec::new();
    for _ in 0..48 * 100 {
        let out = c.step(0, 0);
        assert!(out.fault.is_none());
        if let Some(row) = out.ccer {
            writes.push(row);
        }
        if out.report_target {
            reports += 1;
        }
    }
    assert_eq!(writes.len(), 48);
    assert_eq!(writes[0], commutation(5));
    assert_eq!(reports, 1, "target reported once at the end of start-up");
    let out = c.step(0b0010, 0);
    assert_eq!(out.ccer, Some(commutation(1)));
    assert!(out.duty.is_some());
    let out = c.step(0b0010, 0);
    assert_eq!(out.ccer, Some(commutation(1)));
    assert_eq!(out.duty, None);
}

#[test]
fn controller_faults_gate_the_inverter() {
    let mut c = SixStepController::new();
    let out = c.step(0x80, 0);
    assert_eq!(out.fault, Some(Fault::Stall));
    assert_eq!(out.ccer, None);
    assert!(c.halted);
    let out = c.step(0, 0);
    assert_eq!(out.fault, None);
    assert_eq!(out.ccer, None);

    let mut c = SixStepController::new();
    assert_eq!(c.step(0, 0x80).fault, Some(Fault::Current));

    let mut c = SixStepController::new();
    c.startup_step = 48;
    let mut fault = None;
    for _ in 0..20_001 {
        fault = c.step(0, 0).fault;
        if fault.is_some() {
            break;
        }
    }
    assert_eq!(fault, Some(Fault::Hall));
}

#[test]
fn transmitted_image_reads_back_as_the_same_frame() {
    let can = Mcp2515::new();
    let frame = CanFrame {
        id: 0xfff,
        len: 15,
        data: [9, 8, 7, 6, 5, 4, 3, 2],
    };
    let (load, _) = can.send(&frame);
    let mut image = load;
    image[0] = 0x90;
    let back = Mcp2515::decode_rx(&image).unwrap();
    assert_eq!(back.id, 0x7ff);
    assert_eq!(back.len, 8);
    assert_eq!(back.data, frame.data);
}

#[test]
fn fault_plan_gates_before_reporting_and_halts() {
    let mut c = SixStepController::new();
    let out = c.step(0x80, 0);
    assert_eq!(
        plan(&out),
        vec![
            Action::GateOff,
            Action::Report(Message::FaultStall),
            Action::Report(Message::InverterOff),
            Action::Halt,
        ]
    );
    assert!(plan(&c.step(0, 0)).is_empty(), "a halted controller does nothing");

    let out = ControlOutput {
        fault: Some(Fault::Stall),
        ccer: Some(0x041),
        duty: None,
        report_target: false,
    };
    assert_eq!(
        plan(&out),
        vec![
            Action::WriteCcer(0x041),
            Action::GateOff,
            Action::Report(Message::FaultStall),
            Action::Report(Message::InverterOff),
            Action::Halt,
        ]
    );
}

#[test]
fn running_plan_writes_row_duty_then_reports_target() {
    let out = ControlOutput {
        fault: None,
        ccer: Some(0x011),
        duty: Some(300),
        report_target: true,
    };
    assert_eq!(
        plan(&out),
        vec![
            Action::WriteCcer(0x011),
            Action::WriteDuty(300),
            Action::Report(Message::TargetReached),
        ]
    );
    assert_eq!(message_text(Message::TargetReached), "TARGET REACHED\r\n");
    assert_eq!(message_text(Message::FaultCurrent), "FAULT CURRENT\r\n");
    assert_eq!(message_text(Message::FaultHall), "FAULT HALL\r\n");
    assert_eq!(message_text(Message::InverterOff), "INVERTER OFF\r\n");
}
