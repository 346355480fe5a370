use labwired::peripherals::noise::{channel_seed, SplitMix64};

#[test]
fn splitmix64_reference_outputs() {
    let mut rng = SplitMix64::new(0);
    assert_eq!(rng.next_u64(), 0xe220_a839_7b1d_cdaf);
    assert_eq!(rng.next_u64(), 0x6e78_9e6a_a1b9_65f4);
}

#[test]
fn same_seed_replays_the_same_stream() {
    let mut a = SplitMix64::new(0x1234_5678);
    let mut b = SplitMix64::new(0x1234_5678);
    for _ in 0..16 {
        assert_eq!(a.next_u64(), b.next_u64());
    }
}

#[test]
fn channel_seed_is_keyed_by_all_three_parts() {
    let base = channel_seed(7, "mpu6050", "accel_x");
    assert_eq!(base, channel_seed(7, "mpu6050", "accel_x"));
    assert_ne!(base, channel_seed(8, "mpu6050", "accel_x"));
    assert_ne!(base, channel_seed(7, "mpu6051", "accel_x"));
    assert_ne!(base, channel_seed(7, "mpu6050", "accel_y"));
    assert_ne!(
        channel_seed(7, "a/b", "c"),
        channel_seed(7, "a", "bc"),
        "the separator is part of the key"
    );
}

fn reference_channel_seed(run_seed: u64, component_id: &str, channel: &str) -> u64 {
    let mut h: u64 = 0xcbf2_9ce4_8422_2325;
    for byte in run_seed
        .to_le_bytes()
        .iter()
        .chain(component_id.as_bytes())
        .chain(b"/")
        .chain(channel.as_bytes())
    {
        h ^= u64::from(*byte);
        h = h.wrapping_mul(0x0000_0100_0000_01b3);
    }
    SplitMix64::new(h).next_u64()
}

#[test]
fn channel_seed_matches_fnv1a_then_splitmix() {
    for (seed, id, ch) in [(0u64, "", ""), (42, "bme280", "temp"), (u64::MAX, "é", "ß")] {
        assert_eq!(channel_seed(seed, id, ch), reference_channel_seed(seed, id, ch));
    }
}
