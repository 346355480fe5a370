use labwired::peripherals::esp32c3::bt::{
    Esp32c3Bt, CLKN, CLKN_FINE, CYCLES_PER_CLKN_TICK, CYCLES_PER_FINE_TICK, FINE_TICKS_PER_CLKN,
};
use labwired::peripherals::esp32c3::virtual_wifi_inet::{dns_respond, parse_dns_query};

#[test]
fn gated_window_reads_zero() {
    let bt = Esp32c3Bt::new();
    for off in [0x000u64, 0x01C, 0x020, 0x024, 0x204, 0x2C4, 0x370, 0x530] {
        assert_eq!(bt.read_u32(off), 0, "offset {off:#05x} at reset");
    }
}

#[test]
fn hardware_identity_words_read_their_silicon_values() {
    let mut bt = Esp32c3Bt::new();
    assert_eq!(bt.read_u32(0x004), 0x0900_1b00, "VERSION");
    assert_eq!(bt.read_u32(0x008), 0x0f22_d0b0, "RWBLECONF");
    bt.write_u32(0x004, 0xdead_beef);
    bt.write_u32(0x008, 0xdead_beef);
    assert_eq!(bt.read_u32(0x004), 0x0900_1b00, "VERSION is RO");
    assert_eq!(bt.read_u32(0x008), 0x0f22_d0b0, "RWBLECONF is RO");
}

#[test]
fn window_is_register_backed() {
    let mut bt = Esp32c3Bt::new();
    for (off, val) in [
        (0x000u64, 0x0010_070fu32),
        (0x204, 0x0002_9725),
        (0x2c4, 0x07fe_01ff),
        (0x0e0, 0x0190_012c),
        (0x530, 0x0000_0001),
    ] {
        bt.write_u32(off, val);
        assert_eq!(bt.read_u32(off), val, "offset {off:#05x}");
    }
}

#[test]
fn clkn_write_arms_comparator_and_does_not_shadow_the_clock() {
    let mut bt = Esp32c3Bt::new();
    bt.publish_cycle(0);
    bt.write_u32(CLKN, 0x8000_e8f7);
    assert_eq!(bt.armed_event_target(), Some(0x0000_e8f7));
    assert_eq!(
        bt.read_u32(CLKN),
        0,
        "CLKN read must be the clock, not the armed target"
    );
    bt.write_u32(CLKN, 0x0000_1234);
    assert_eq!(bt.armed_event_target(), None);
}

#[test]
fn timebase_advances_at_the_bluetooth_native_rate() {
    let mut bt = Esp32c3Bt::new();
    bt.publish_cycle(1_000);
    bt.write_u32(0x000, 0x0010_060f);
    assert_eq!(bt.read_u32(CLKN), 0, "CLKN starts at the un-gate");

    bt.publish_cycle(1_000 + 160_000_000);
    assert_eq!(bt.read_u32(CLKN), 3200);

    bt.publish_cycle(1_000 + CYCLES_PER_FINE_TICK * 566);
    assert_eq!(bt.read_u32(CLKN_FINE), 566);
    assert_eq!(bt.read_u32(CLKN), 0, "still inside the first tick");
    bt.publish_cycle(1_000 + CYCLES_PER_CLKN_TICK);
    assert_eq!(bt.read_u32(CLKN_FINE), 0, "wraps with CLKN");
    assert_eq!(bt.read_u32(CLKN), 1);

    for n in 0..2_000u64 {
        bt.publish_cycle(1_000 + n * 137);
        assert!(bt.read_u32(CLKN_FINE) < FINE_TICKS_PER_CLKN as u32);
    }
}

#[test]
fn clkn_is_monotonic() {
    let mut bt = Esp32c3Bt::new();
    bt.publish_cycle(0);
    bt.write_u32(0x000, 1);
    let mut last = 0;
    for n in 0..5_000u64 {
        bt.publish_cycle(n * 9_973);
        let now = bt.read_u32(CLKN);
        assert!(now >= last, "CLKN went backwards: {last} -> {now}");
        last = now;
    }
    assert!(last > 0, "CLKN never advanced");
}

#[test]
fn byte_access_is_a_lane_of_the_word() {
    let mut bt = Esp32c3Bt::new();
    bt.write_u32(0x204, 0x1122_3344);
    assert_eq!(bt.read(0x204), 0x44);
    assert_eq!(bt.read(0x205), 0x33);
    assert_eq!(bt.read(0x207), 0x11);
    bt.write(0x206, 0xab);
    assert_eq!(bt.read_u32(0x204), 0x11ab_3344);
    assert_eq!(bt.read(0x206), 0xab);
    assert_eq!(bt.read(0x005), 0x1b, "identity words read by lane too");
}

#[test]
fn writes_outside_the_window_are_dropped() {
    let mut bt = Esp32c3Bt::new();
    bt.write_u32(0x1000, 0xffff_ffff);
    assert_eq!(bt.read_u32(0x1000), 0);
}

fn query(id: [u8; 2], flags: [u8; 2], labels: &[&str], qtype: u16, qclass: u16) -> Vec<u8> {
    let mut q = Vec::new();
    q.extend_from_slice(&id);
    q.extend_from_slice(&flags);
    q.extend_from_slice(&[0x00, 0x01, 0x00, 0x00, 0x00, 0x00, 0x00, 0x00]);
    for label in labels {
        q.push(label.len() as u8);
        q.extend_from_slice(label.as_bytes());
    }
    q.push(0);
    q.extend_from_slice(&qtype.to_be_bytes());
    q.extend_from_slice(&qclass.to_be_bytes());
    q
}

#[test]
fn dns_respond_builds_a_record() {
    let q = query([0x12, 0x34], [0x01, 0x00], &["example", "com"], 1, 1);
    let resp = dns_respond(&q, &[[93, 184, 216, 34]]).expect("dns response");
    assert_eq!(&resp[0..2], &[0x12, 0x34]);
    assert!(resp[2] & 0x80 != 0, "QR set");
    assert_eq!(&resp[2..4], &[0x85, 0x80], "QR, AA, RD copied, RA, NOERROR");
    assert_eq!(&resp[4..12], &[0, 1, 0, 1, 0, 0, 0, 0]);
    assert_eq!(&resp[12..q.len()], &q[12..]);
    assert_eq!(
        &resp[q.len()..],
        &[0xC0, 0x0C, 0, 1, 0, 1, 0, 0, 0, 60, 0, 4, 93, 184, 216, 34]
    );
}

#[test]
fn dns_query_name_is_dotted() {
    let q = query([0, 1], [0, 0], &["example", "com"], 1, 1);
    let parsed = parse_dns_query(&q).expect("answerable");
    assert_eq!(parsed.name, b"example.com".to_vec());
    assert!(parsed.wants_a());
    assert_eq!(parsed.question_end, q.len());
}

#[test]
fn a_query_without_answers_is_nxdomain() {
    let q = query([0xab, 0xcd], [0, 0], &["nowhere", "invalid"], 1, 1);
    let resp = dns_respond(&q, &[]).expect("response");
    assert_eq!(&resp[2..4], &[0x84, 0x83]);
    assert_eq!(&resp[6..8], &[0, 0]);
    assert_eq!(resp.len(), q.len());
}

#[test]
fn aaaa_query_gets_empty_noerror_even_with_addresses() {
    let q = query([0, 7], [0x01, 0x00], &["example", "com"], 28, 1);
    assert!(!parse_dns_query(&q).unwrap().wants_a());
    let resp = dns_respond(&q, &[[1, 2, 3, 4]]).expect("response");
    assert_eq!(&resp[2..4], &[0x85, 0x80]);
    assert_eq!(&resp[6..8], &[0, 0]);
    assert_eq!(resp.len(), q.len());
}

#[test]
fn unanswerable_payloads_get_no_response() {
    assert_eq!(dns_respond(&[0u8; 11], &[]), None, "short header");
    let response = query([0, 1], [0x80, 0x00], &["a"], 1, 1);
    assert_eq!(dns_respond(&response, &[]), None, "QR set");
    let mut two = query([0, 1], [0, 0], &["a"], 1, 1);
    two[5] = 2;
    assert_eq!(dns_respond(&two, &[]), None, "two questions");
    let chaos = query([0, 1], [0, 0], &["a"], 1, 3);
    assert_eq!(dns_respond(&chaos, &[]), None, "class CH");
    let mut compressed = query([0, 1], [0, 0], &[], 1, 1);
    compressed.insert(12, 0xC0);
    assert_eq!(dns_respond(&compressed, &[]), None, "compression pointer");
    let mut bad_utf8 = query([0, 1], [0, 0], &["ab"], 1, 1);
    bad_utf8[13] = 0xff;
    assert_eq!(dns_respond(&bad_utf8, &[]), None, "label not UTF-8");
    let truncated = &query([0, 1], [0, 0], &["abc"], 1, 1)[..15];
    assert_eq!(dns_respond(truncated, &[]), None, "label overruns payload");
}
