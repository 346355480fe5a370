use labwired::bus::{
    effective_placements, join_devices, match_addressed_decl, str_equal, visit_i2c_device,
    visit_spi_device, AttachedDeviceRef, ExternalDeviceDecl, FoundDevice,
};

fn decl(id: &str, address: Option<u8>, cs_pin: Option<&str>, channel: Option<u8>) -> ExternalDeviceDecl {
    ExternalDeviceDecl {
        id: id.to_string(),
        device_type: format!("{id}-type"),
        connection: "i2c0".to_string(),
        address,
        cs_pin: cs_pin.map(|s| s.to_string()),
        channel,
    }
}

fn i2c(address: u8) -> AttachedDeviceRef<'static> {
    AttachedDeviceRef {
        transport: "i2c",
        address: Some(address),
        cs_pin: None,
        mux_address: None,
        channel: None,
    }
}

#[test]
fn declaration_with_an_address_must_match_it() {
    let decls = vec![decl("mux", Some(0x70), None, None), decl("bme", Some(0x77), None, None)];
    let effective = vec![(0usize, "i2c0".to_string(), None), (1usize, "i2c0".to_string(), None)];
    let used = vec![false, false];
    assert_eq!(match_addressed_decl(&decls, &effective, &used, Some("i2c0"), &i2c(0x77)), Some(1));
    assert_eq!(match_addressed_decl(&decls, &effective, &used, Some("i2c0"), &i2c(0x70)), Some(0));
    assert_eq!(
        match_addressed_decl(&decls, &effective, &used, Some("i2c0"), &i2c(0x76)),
        None,
        "a device declared by nobody gets no identity"
    );
    assert_eq!(match_addressed_decl(&decls, &effective, &used, None, &i2c(0x77)), None);
    assert_eq!(match_addressed_decl(&decls, &effective, &used, Some("i2c1"), &i2c(0x77)), None);
}

#[test]
fn an_addressless_declaration_is_the_one_remaining_candidate() {
    let decls = vec![decl("oled", None, None, None), decl("rtc", Some(0x68), None, None)];
    let effective = vec![(0usize, "i2c0".to_string(), None), (1usize, "i2c0".to_string(), None)];
    assert_eq!(
        match_addressed_decl(&decls, &effective, &[false, false], Some("i2c0"), &i2c(0x3c)),
        Some(0)
    );
    assert_eq!(
        match_addressed_decl(&decls, &effective, &[true, false], Some("i2c0"), &i2c(0x3c)),
        None,
        "used declarations are not candidates"
    );
    let two_loose = vec![decl("a", None, None, None), decl("b", None, None, None)];
    assert_eq!(
        match_addressed_decl(&two_loose, &effective, &[false, false], Some("i2c0"), &i2c(0x3c)),
        None,
        "ambiguous fallback"
    );
}

#[test]
fn bus_switch_position_and_chip_select() {
    let decls = vec![
        decl("left", None, None, Some(0)),
        decl("right", None, None, Some(1)),
        decl("panel", None, Some("GPIO5"), None),
    ];
    let effective = vec![
        (0usize, "i2c0".to_string(), Some(0x70)),
        (1usize, "i2c0".to_string(), Some(0x70)),
        (2usize, "spi3".to_string(), None),
    ];
    let used = vec![false; 3];
    let behind = AttachedDeviceRef {
        transport: "i2c",
        address: Some(0x13),
        cs_pin: None,
        mux_address: Some(0x70),
        channel: Some(1),
    };
    assert_eq!(match_addressed_decl(&decls, &effective, &used, Some("i2c0"), &behind), Some(1));
    let panel = AttachedDeviceRef {
        transport: "spi",
        address: None,
        cs_pin: Some("GPIO5"),
        mux_address: None,
        channel: None,
    };
    assert_eq!(match_addressed_decl(&decls, &effective, &used, Some("spi3"), &panel), Some(2));
    let other = AttachedDeviceRef { cs_pin: Some("GPIO4"), ..panel };
    assert_eq!(match_addressed_decl(&decls, &effective, &used, Some("spi3"), &other), None);
}

#[test]
fn strings_compare_by_text() {
    assert!(str_equal("i2c0", "i2c0"));
    assert!(!str_equal("i2c0", "i2c1"));
    assert!(!str_equal("i2c", "i2c0"));
    assert!(str_equal("", ""));
}

fn on(connection: &str, mut d: ExternalDeviceDecl) -> ExternalDeviceDecl {
    d.connection = connection.to_string();
    d
}

fn found<'a>(bus: Option<&'a str>, device: AttachedDeviceRef<'a>) -> FoundDevice<'a> {
    FoundDevice { bus, device, declared_id: None, instance_id: None }
}

fn resident<'a>(bus: Option<&'a str>, declared_id: &'a str, instance_id: Option<&'a str>) -> FoundDevice<'a> {
    FoundDevice {
        bus,
        device: AttachedDeviceRef {
            transport: "gpio",
            address: None,
            cs_pin: None,
            mux_address: None,
            channel: None,
        },
        declared_id: Some(declared_id),
        instance_id,
    }
}

#[test]
fn a_switch_child_inherits_the_switch_controller_and_address() {
    let decls = vec![
        on("i2c0", decl("mux", Some(0x70), None, None)),
        on("mux", decl("lux", Some(0x13), None, Some(2))),
        on("i2c1", decl("rtc", Some(0x68), None, None)),
    ];
    let eff = effective_placements(&decls);
    assert_eq!(eff[0], (0, "i2c0".to_string(), None));
    assert_eq!(eff[1], (1, "i2c0".to_string(), Some(0x70)));
    assert_eq!(eff[2], (2, "i2c1".to_string(), None));
}

#[test]
fn join_names_declared_devices_and_synthesizes_the_rest() {
    let decls = vec![
        on("i2c0", decl("mux", Some(0x70), None, None)),
        on("mux", decl("lux", Some(0x13), None, Some(2))),
        on("i2c0", decl("bme", Some(0x77), None, None)),
    ];
    let behind = AttachedDeviceRef {
        transport: "i2c",
        address: Some(0x13),
        cs_pin: None,
        mux_address: Some(0x70),
        channel: Some(2),
    };
    let panel = AttachedDeviceRef {
        transport: "spi",
        address: None,
        cs_pin: Some("PA4"),
        mux_address: None,
        channel: None,
    };
    let devices = vec![
        found(Some("i2c0"), i2c(0x70)),
        found(Some("i2c0"), behind),
        found(Some("i2c0"), i2c(0x77)),
        found(Some("i2c0"), i2c(0x76)),
        found(Some("spi1"), panel),
        found(None, i2c(0x0a)),
    ];
    let joined = join_devices(&decls, &devices, None);
    assert_eq!(joined.len(), 6);
    assert_eq!((joined[0].id.as_str(), joined[0].declared), ("mux", true));
    assert_eq!(joined[0].device_type.as_deref(), Some("mux-type"));
    assert_eq!((joined[1].id.as_str(), joined[1].declared), ("lux", true));
    assert_eq!(joined[1].attachment.mux_address, Some(0x70));
    assert_eq!((joined[2].id.as_str(), joined[2].declared), ("bme", true));
    assert_eq!((joined[3].id.as_str(), joined[3].declared), ("i2c0@0x76", false));
    assert_eq!(joined[3].device_type, None);
    assert_eq!((joined[4].id.as_str(), joined[4].declared), ("spi1@PA4", false));
    assert_eq!(joined[4].attachment.cs_pin.as_deref(), Some("PA4"));
    assert_eq!(joined[5].id, "i2c@0x0a", "an unknown controller reads as the transport");
    assert_eq!(joined[5].attachment.bus, None);
    assert_eq!(joined[2].attachment.bus.as_deref(), Some("i2c0"));
    assert_eq!(joined[2].attachment.transport, "i2c");
}

#[test]
fn a_declaration_is_claimed_once_except_by_one_boards_channels() {
    let decls = vec![
        on("gpioa", decl("servo", None, None, None)),
        on("gpiob", decl("hbridge", None, None, None)),
    ];
    let devices = vec![
        resident(None, "servo", None),
        resident(None, "servo", None),
        resident(Some("gpiob"), "hbridge", Some("hbridge-a")),
        resident(Some("gpiob"), "hbridge", Some("hbridge-b")),
        resident(Some("gpioc"), "buzzer", None),
    ];
    let joined = join_devices(&decls, &devices, None);
    assert_eq!((joined[0].id.as_str(), joined[0].declared), ("servo", true));
    assert_eq!(
        (joined[1].id.as_str(), joined[1].declared),
        ("servo", false),
        "a second device does not take a claimed name"
    );
    assert_eq!((joined[2].id.as_str(), joined[2].declared), ("hbridge-a", true));
    assert_eq!((joined[3].id.as_str(), joined[3].declared), ("hbridge-b", true));
    assert_eq!(joined[3].device_type.as_deref(), Some("hbridge-type"));
    assert_eq!((joined[4].id.as_str(), joined[4].declared), ("buzzer", false));
}

#[test]
fn the_filter_keeps_one_controller() {
    let decls = vec![decl("bme", Some(0x77), None, None)];
    let devices = vec![found(Some("i2c0"), i2c(0x77)), found(Some("i2c1"), i2c(0x48))];
    let joined = join_devices(&decls, &devices, Some("i2c1"));
    assert_eq!(joined.len(), 1);
    assert_eq!(joined[0].id, "i2c1@0x48");
    assert!(join_devices(&decls, &devices, Some("spi1")).is_empty());
}

#[test]
fn a_bus_switch_unfolds_into_the_devices_behind_it() {
    let plain = visit_i2c_device(0x76, None);
    assert_eq!(plain.len(), 1);
    assert_eq!((plain[0].address, plain[0].mux_address, plain[0].channel), (Some(0x76), None, None));

    let channels = vec![vec![], vec![0x13], vec![0x13, 0x29]];
    let found = visit_i2c_device(0x70, Some(&channels));
    let seen: Vec<(Option<u8>, Option<u8>, Option<u8>)> =
        found.iter().map(|d| (d.address, d.mux_address, d.channel)).collect();
    assert_eq!(
        seen,
        vec![
            (Some(0x70), None, None),
            (Some(0x13), Some(0x70), Some(1)),
            (Some(0x13), Some(0x70), Some(2)),
            (Some(0x29), Some(0x70), Some(2)),
        ]
    );
    assert!(found.iter().all(|d| d.transport == "i2c"));

    let panel = visit_spi_device("PB6");
    assert_eq!((panel.transport, panel.cs_pin, panel.address), ("spi", Some("PB6"), None));
}
