use labwired::physics::motor::{
    GatePair, HBridgeState, HallSensors, Inverter, InverterCommand, InverterFault, LegDrive,
    ModelError, Phase, QuadratureEncoder, MAX_CPR, MIN_CPR,
};

#[test]
fn h_bridge_pin_truth_table_is_pure_and_complete() {
    assert_eq!(
        HBridgeState::from_pins(false, false, false, false),
        HBridgeState::Coast
    );
    assert_eq!(
        HBridgeState::from_pins(true, true, false, false),
        HBridgeState::Forward
    );
    assert_eq!(
        HBridgeState::from_pins(true, false, true, false),
        HBridgeState::Reverse
    );
    assert_eq!(
        HBridgeState::from_pins(true, false, false, false),
        HBridgeState::Coast
    );
    assert_eq!(
        HBridgeState::from_pins(true, true, true, false),
        HBridgeState::Brake
    );
    assert_eq!(
        HBridgeState::from_pins(true, true, false, true),
        HBridgeState::Brake
    );
}

#[test]
fn disabled_bridge_coasts_whatever_the_inputs() {
    for in1 in [false, true] {
        for in2 in [false, true] {
            for brake in [false, true] {
                assert_eq!(
                    HBridgeState::from_pins(false, in1, in2, brake),
                    HBridgeState::Coast
                );
            }
        }
    }
    assert_eq!(
        HBridgeState::from_pins(true, false, false, true),
        HBridgeState::Brake
    );
}

#[test]
fn cpr_accepts_inclusive_bounds() {
    let minimum = QuadratureEncoder::new(1).unwrap();
    let maximum = QuadratureEncoder::new(1_000_000).unwrap();

    assert_eq!(minimum.transitions_per_revolution(), 4);
    assert_eq!(maximum.transitions_per_revolution(), 4_000_000);
}

#[test]
fn cpr_rejects_values_outside_bounds() {
    for cpr in [0, 1_000_001] {
        let error = QuadratureEncoder::new(cpr).err().unwrap();
        assert_eq!(error.field, "encoder_cpr");
    }
}

#[test]
fn encoder_bounds_and_cpr_accessor() {
    assert_eq!(MIN_CPR, 1);
    assert_eq!(MAX_CPR, 1_000_000);
    let encoder = QuadratureEncoder::new(250).unwrap();
    assert_eq!(encoder.cpr(), 250);
    assert_eq!(encoder.transitions_per_revolution(), 1_000);
    let error = QuadratureEncoder::new(0).err().unwrap();
    assert_eq!(error.message, "must be between 1 and 1,000,000 inclusive");
}

#[test]
fn quadrature_pins_follow_gray_code_with_index_in_bin_zero() {
    let expected = [
        (false, false, true),
        (false, true, false),
        (true, true, false),
        (true, false, false),
        (false, false, false),
        (false, true, false),
    ];
    for (k, (a, b, index)) in expected.iter().enumerate() {
        let pins = QuadratureEncoder::pins_for_transition(k as u64);
        assert_eq!((pins.a, pins.b, pins.index), (*a, *b, *index), "bin {k}");
    }
    for k in 0..64u64 {
        let p = QuadratureEncoder::pins_for_transition(k);
        let q = QuadratureEncoder::pins_for_transition(k + 1);
        assert!((p.a != q.a) != (p.b != q.b), "exactly one channel changes at {k}");
    }
}

#[test]
fn model_error_supports_equality_and_standard_error_formatting() {
    let error = ModelError {
        field: "dt_s",
        message: "must be greater than zero".to_string(),
    };
    let cloned = error.clone();

    assert_eq!(error, cloned);
    assert_eq!(
        error.to_string(),
        "invalid model field `dt_s`: must be greater than zero"
    );
    assert!(format!("{error:?}").contains("dt_s"));
}

#[test]
fn model_error_new_keeps_field_and_message() {
    let error = ModelError::new("pole_pairs", "must be between 1 and 255 inclusive");
    assert_eq!(error.field, "pole_pairs");
    assert_eq!(error.message, "must be between 1 and 255 inclusive");
    assert_eq!(
        error.to_string(),
        "invalid model field `pole_pairs`: must be between 1 and 255 inclusive"
    );
}

fn legs(command: &InverterCommand) -> [GatePair; 3] {
    [command.phase_a, command.phase_b, command.phase_c]
}

fn index(phase: Phase) -> usize {
    match phase {
        Phase::A => 0,
        Phase::B => 1,
        Phase::C => 2,
    }
}

#[test]
fn canonical_six_step_gate_mappings() {
    let expected = [
        (Phase::C, Phase::B),
        (Phase::A, Phase::B),
        (Phase::A, Phase::C),
        (Phase::B, Phase::C),
        (Phase::B, Phase::A),
        (Phase::C, Phase::A),
    ];
    for (sector, (high, low)) in expected.iter().enumerate() {
        let forward = InverterCommand::six_step(sector as u8).unwrap();
        let reverse = InverterCommand::reverse_six_step(sector as u8).unwrap();
        assert!(forward.enabled && reverse.enabled);
        for leg in 0..3 {
            let f = legs(&forward)[leg];
            let r = legs(&reverse)[leg];
            if leg == index(*high) {
                assert_eq!(f, GatePair::high());
                assert_eq!(r, GatePair::low());
            } else if leg == index(*low) {
                assert_eq!(f, GatePair::low());
                assert_eq!(r, GatePair::high());
            } else {
                assert_eq!(f, GatePair::off());
                assert_eq!(r, GatePair::off());
            }
        }
    }
}

#[test]
fn six_step_rejects_sectors_past_five() {
    for sector in [6u8, 7, 255] {
        let error = InverterCommand::six_step(sector).unwrap_err();
        assert_eq!(error.field, "commutation_sector");
        assert_eq!(error.message, "must be between 0 and 5 inclusive");
        let error = InverterCommand::reverse_six_step(sector).unwrap_err();
        assert_eq!(error.field, "commutation_sector");
    }
}

#[test]
fn off_and_brake_commands() {
    let off = InverterCommand::off();
    assert!(!off.enabled);
    assert_eq!(legs(&off), [GatePair::off(); 3]);
    let brake = InverterCommand::brake();
    assert!(brake.enabled);
    assert_eq!(legs(&brake), [GatePair::low(); 3]);
    assert_eq!(GatePair::default(), GatePair::off());
}

#[test]
fn shoot_through_floats_only_the_affected_leg() {
    let result = Inverter::resolve_legs(InverterCommand {
        enabled: true,
        phase_a: GatePair {
            high: true,
            low: true,
        },
        phase_b: GatePair::high(),
        phase_c: GatePair::low(),
    });
    assert_eq!(result.legs, [LegDrive::Floating, LegDrive::Bus, LegDrive::Low]);
    assert_eq!(
        result.faults,
        [InverterFault::ShootThrough { phase: Phase::A }]
    );
}

#[test]
fn disabled_inverter_floats_and_reports_nothing() {
    let command = InverterCommand {
        enabled: false,
        phase_a: GatePair {
            high: true,
            low: true,
        },
        phase_b: GatePair::high(),
        phase_c: GatePair::low(),
    };
    let result = Inverter::resolve_legs(command);
    assert_eq!(result.legs, [LegDrive::Floating; 3]);
    assert!(result.faults.is_empty());
}

#[test]
fn shoot_through_on_every_leg_is_reported_in_leg_order() {
    let overlap = GatePair {
        high: true,
        low: true,
    };
    let result = Inverter::resolve_legs(InverterCommand {
        enabled: true,
        phase_a: overlap,
        phase_b: overlap,
        phase_c: overlap,
    });
    assert_eq!(result.legs, [LegDrive::Floating; 3]);
    assert_eq!(
        result.faults,
        [
            InverterFault::ShootThrough { phase: Phase::A },
            InverterFault::ShootThrough { phase: Phase::B },
            InverterFault::ShootThrough { phase: Phase::C },
        ]
    );
}

#[test]
fn hall_states_match_the_canonical_sequence() {
    let states: Vec<u8> = (0..6).map(HallSensors::state_for_sector).collect();
    assert_eq!(states, [0b001, 0b101, 0b100, 0b110, 0b010, 0b011]);
    for s in 0..6u8 {
        let a = HallSensors::state_for_sector(s);
        let b = HallSensors::state_for_sector((s + 1) % 6);
        assert_eq!((a ^ b).count_ones(), 1);
    }
}

#[test]
fn hall_sensors_need_a_pole_pair() {
    let error = HallSensors::new(0).unwrap_err();
    assert_eq!(error.field, "pole_pairs");
    assert_eq!(error.message, "must be between 1 and 255 inclusive");
    assert_eq!(HallSensors::new(7).unwrap().pole_pairs(), 7);
}

#[test]
fn canonical_six_step_commands_cover_all_exact_gate_mappings() {
    let off = GatePair::off();
    let high = GatePair::high();
    let low = GatePair::low();
    let expected = [
        [off, low, high],
        [high, low, off],
        [high, off, low],
        [off, high, low],
        [low, high, off],
        [low, off, high],
    ];

    for (sector, gates) in expected.into_iter().enumerate() {
        let forward = InverterCommand::six_step(sector as u8).unwrap();
        assert_eq!([forward.phase_a, forward.phase_b, forward.phase_c], gates);
        let reverse = InverterCommand::reverse_six_step(sector as u8).unwrap();
        assert_eq!(
            [reverse.phase_a, reverse.phase_b, reverse.phase_c],
            gates.map(|gate| GatePair {
                high: gate.low,
                low: gate.high,
            })
        );
    }
}
