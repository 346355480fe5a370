use labwired::peripherals::sps30::{crc8, encode_words, Mode, Sps30, SPS30_ADDR};
use labwired::peripherals::veml7700::{LightChannel, Veml7700, REG_ALS, VEML7700_ADDR};

/// Point at a register and read its 16-bit LE word; `light` answers a light
/// channel.
fn read_reg(d: &mut Veml7700, reg: u8, light: u16) -> u16 {
    d.start();
    d.write(reg);
    d.start();
    let lo = d.read(light) as u16;
    let hi = d.read(light) as u16;
    (hi << 8) | lo
}

#[test]
fn address_defaults_to_0x10() {
    assert_eq!(Veml7700::new(0).address(), 0x10);
    assert_eq!(Veml7700::new(0x11).address(), 0x11);
}

#[test]
fn config_write_is_read_back() {
    let mut d = Veml7700::new(VEML7700_ADDR);
    d.start();
    d.write(0x00);
    d.write(0x34);
    d.write(0x12);
    let v = read_reg(&mut d, 0x00, 0);
    assert_eq!(v, 0x1234, "config register round-trips");
}

#[test]
fn light_word_is_latched_once_per_read_phase() {
    let mut d = Veml7700::new(VEML7700_ADDR);
    d.start();
    d.write(REG_ALS);
    d.start();
    assert_eq!(d.pending_light(), Some(LightChannel::Als));
    assert_eq!(d.read(0x1f40), 0x40);
    assert_eq!(d.pending_light(), None, "the word is latched");
    assert_eq!(d.read(0), 0x1f, "the latched word, not the new argument");
    assert_eq!(d.read(0), 0xff, "past the word");
    d.start();
    d.write(0x07);
    d.start();
    assert_eq!(d.pending_light(), None);
    assert_eq!(d.read(0x1234), 0, "an unmodelled register reads zero");
}

/// The model's words for a measured-values response in `mode`.
fn model_words(mode: Mode) -> Vec<u16> {
    let values: [f32; 10] = [4.7, 6.0, 6.6, 7.1, 21.0, 24.0, 24.6, 24.9, 25.2, 0.55];
    match mode {
        Mode::Float => values
            .iter()
            .flat_map(|v| {
                let b = v.to_be_bytes();
                [u16::from_be_bytes([b[0], b[1]]), u16::from_be_bytes([b[2], b[3]])]
            })
            .collect(),
        Mode::Uint16 => values.iter().map(|v| v.round() as u16).collect(),
    }
}

fn send(d: &mut Sps30, bytes: &[u8]) {
    d.start();
    for &b in bytes {
        let words = match d.measurement_due(b) {
            Some(mode) => model_words(mode),
            None => Vec::new(),
        };
        d.write(b, &words);
    }
}

fn read_n(d: &mut Sps30, n: usize) -> Vec<u8> {
    d.start();
    (0..n).map(|_| d.read()).collect()
}

#[test]
fn address_defaults_to_0x69() {
    assert_eq!(Sps30::new(0).address(), 0x69);
}

#[test]
fn float_mode_returns_60_bytes_with_valid_crcs() {
    let mut d = Sps30::new(SPS30_ADDR);
    send(&mut d, &[0x00, 0x10, 0x03, 0x00, crc8(&[0x03, 0x00])]);
    send(&mut d, &[0x03, 0x00]);
    let b = read_n(&mut d, 60);
    assert_eq!(b.len(), 60);
    for chunk in b.chunks(3) {
        assert_eq!(chunk[2], crc8(&chunk[..2]), "valid CRC per word");
    }
    let pm2_5 = f32::from_be_bytes([b[6], b[7], b[9], b[10]]);
    assert_eq!(pm2_5, 6.0, "index 1 is PM2.5 mass");
}

#[test]
fn data_ready_flag_reports_ready() {
    let mut d = Sps30::new(SPS30_ADDR);
    send(&mut d, &[0x02, 0x02]);
    let b = read_n(&mut d, 3);
    assert_eq!(b[1], 0x01, "low byte 1 = data ready");
    assert_eq!(b[2], crc8(&b[..2]));
}

#[test]
fn uint16_mode_returns_30_bytes() {
    let mut d = Sps30::new(SPS30_ADDR);
    send(&mut d, &[0x00, 0x10, 0x05, 0x00, crc8(&[0x05, 0x00])]);
    assert_eq!(d.mode(), Mode::Uint16);
    assert!(d.running());
    send(&mut d, &[0x03, 0x00]);
    let b = read_n(&mut d, 30);
    assert_eq!(b.len(), 30);
    for chunk in b.chunks(3) {
        assert_eq!(chunk[2], crc8(&chunk[..2]));
    }
    assert_eq!(read_n(&mut d, 31)[30], 0xff, "past the response");
}

#[test]
fn sensirion_crc_and_framing() {
    assert_eq!(crc8(&[0xbe, 0xef]), 0x92);
    assert_eq!(crc8(&[]), 0xff);
    assert_eq!(encode_words(&[0xbeef, 0x0001]), vec![0xbe, 0xef, 0x92, 0x00, 0x01, 0xb0]);
}

#[test]
fn serial_stop_and_unknown_commands() {
    let mut d = Sps30::new(SPS30_ADDR);
    send(&mut d, &[0xd0, 0x33]);
    let b = read_n(&mut d, 48);
    assert_eq!(&b[0..2], b"LE");
    assert_eq!(&b[3..5], b"O0");
    assert_eq!(b[47], crc8(&[0, 0]));
    send(&mut d, &[0x00, 0x10]);
    assert!(d.running());
    send(&mut d, &[0x01, 0x04]);
    assert!(!d.running());
    send(&mut d, &[0x12, 0x34]);
    assert_eq!(read_n(&mut d, 1), vec![0xff], "an unknown command clears the response");
}
