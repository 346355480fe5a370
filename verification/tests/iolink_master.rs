use labwired::peripherals::iolink_master::{
    crc6, decode_operate, encode_type0, encode_type1_cycle, IolinkComSpeed, IolinkLinkState,
    IolinkMaster, FRAME_GAP_TICKS, IDLE_FRAMES,
};


/// Pump ticks and return the bytes of exactly the next frame: skip any
/// leading inter-frame gap, collect the frame's bytes, stop at the next gap.
fn drain(m: &mut IolinkMaster) -> Vec<u8> {
    let mut out = Vec::new();
    let mut started = false;
    for _ in 0..(FRAME_GAP_TICKS * 2 + 16) {
        match m.poll(1000) {
            Some(b) => {
                out.push(b);
                started = true;
            }
            None => {
                if started {
                    break;
                }
            }
        }
    }
    out
}

#[test]
fn crc6_matches_iolink_vectors() {
    assert_eq!(crc6(&[0x00, 0x00]), 0x24);
    assert_eq!(crc6(&[0x0F, 0x00]), 0x0D);
    assert_eq!(crc6(&[0x95, 0x00]), 0x1D);
    assert_eq!(crc6(&[0x20, 0xA5, 0x00]), 0x0D);
}

#[test]
fn encodes_type0_idle_and_operate_transition() {
    assert_eq!(encode_type0(0x00), vec![0x00, 0x24]); // IDLE
    assert_eq!(encode_type0(0x0F), vec![0x0F, 0x0D]); // OPERATE transition
}

#[test]
fn encodes_type1_di_cycle_with_no_output_pd() {
    assert_eq!(encode_type1_cycle(&[]), vec![0x00, 0x00, 0x00, 0x09]);
}

#[test]
fn decodes_operate_response_and_extracts_pd() {
    let resp = decode_operate(&[0x20, 0xA5, 0x00, 0x0D], 1, 1);
    assert!(resp.checksum_ok);
    assert!(resp.pd_valid);
    assert_eq!(resp.pd, vec![0xA5]);
}

#[test]
fn decode_operate_handles_two_byte_pd() {
    let mut frame = vec![0x20u8, 0xAA, 0xBB, 0x00];
    let ck = crc6(&frame);
    frame.push(ck);
    let resp = decode_operate(&frame, 2, 1);
    assert!(resp.checksum_ok);
    assert!(resp.pd_valid);
    assert_eq!(resp.pd, vec![0xAA, 0xBB]);
}

#[test]
fn schedule_walks_wakeup_idle_transition_then_cyclic_type1() {
    let mut m = IolinkMaster::new(1, 1, IolinkComSpeed::Com2);

    // Step 0: wake-up pulse.
    assert_eq!(drain(&mut m), vec![0x55]);
    assert_eq!(m.link_state, IolinkLinkState::Startup);

    // Steps 1..=IDLE_FRAMES: IDLE frames (→ PREOPERATE on the device).
    for _ in 0..IDLE_FRAMES {
        assert_eq!(drain(&mut m), vec![0x00, 0x24]);
    }
    assert_eq!(m.link_state, IolinkLinkState::Startup);

    // Next: the OPERATE transition (MC=0x0F).
    assert_eq!(drain(&mut m), vec![0x0F, 0x0D]);

    // Then cyclic Type 1 requests, repeating forever.
    assert_eq!(drain(&mut m), vec![0x00, 0x00, 0x00, 0x09]);
    assert_eq!(m.link_state, IolinkLinkState::Operate);
    assert_eq!(drain(&mut m), vec![0x00, 0x00, 0x00, 0x09]);
}

#[test]
fn captures_process_data_from_cyclic_response() {
    let mut m = IolinkMaster::new(1, 1, IolinkComSpeed::Com2);
    // Advance the schedule to the cyclic (OPERATE) phase.
    while m.link_state != IolinkLinkState::Operate {
        drain(&mut m);
    }
    // Device replies to the cyclic request with PD = 0xA5, valid.
    for b in [0x20u8, 0xA5, 0x00, 0x0D] {
        m.on_tx_byte(b);
    }
    assert_eq!(m.input_byte(), 0xA5);
    assert!(m.pd_valid);
}
