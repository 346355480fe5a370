use labwired::inspect::{
    artifact_generation, assemble_word, decode_fields, default_inspect, extract_field,
    inspect_with_schema, peek_word, FieldSchema, InspectOpts, PeekByte, PeekResult, Peripheral,
    RegisterSchema,
};

#[test]
fn extract_field_slices_bits() {
    let word = 0b0000_0000_0000_0000_0000_0000_0011_0110;
    assert_eq!(extract_field(word, [1, 0]), 0b10);
    assert_eq!(extract_field(word, [2, 2]), 0b1);
    assert_eq!(extract_field(word, [5, 0]), 0b110110);
    assert_eq!(extract_field(word, [31, 0]), word);
}

#[test]
fn extract_field_clamps_out_of_range_slices() {
    assert_eq!(extract_field(0x8000_0000, [40, 31]), 1, "msb above 31 reads as 31");
    assert_eq!(extract_field(0b1000, [3, 9]), 1, "lsb above msb reads as msb");
    assert_eq!(extract_field(0xdead_beef, [15, 8]), 0xbe);
}

#[test]
fn generation_changes_with_bytes() {
    assert_ne!(
        artifact_generation(&[0, 0, 0]),
        artifact_generation(&[0, 1, 0])
    );
    assert_eq!(
        artifact_generation(&[1, 2, 3]),
        artifact_generation(&[1, 2, 3])
    );
}

#[test]
fn generation_is_fnv1a() {
    assert_eq!(artifact_generation(&[]), 0xcbf2_9ce4_8422_2325);
    assert_eq!(artifact_generation(b"a"), 0xaf63_dc4c_8601_ec8c);
}

fn schema() -> Vec<RegisterSchema> {
    vec![RegisterSchema {
        name: "CTRL".into(),
        offset: 0,
        size: 32,
        access: "rw",
        fields: vec![FieldSchema {
            name: "ENABLE".into(),
            bits: [0, 0],
        }],
    }]
}

/// Answers the probe, and its answer happens to be zero.
#[derive(Debug)]
struct Answers;
impl Peripheral for Answers {
    fn peek(&self, _o: u64) -> Option<u8> {
        Some(0)
    }
    fn describe_registers(&self) -> Option<Vec<RegisterSchema>> {
        Some(schema())
    }
}

/// Models nothing probe-able.
#[derive(Debug)]
struct Silent;
impl Peripheral for Silent {
    fn peek(&self, _o: u64) -> Option<u8> {
        None
    }
    fn describe_registers(&self) -> Option<Vec<RegisterSchema>> {
        Some(schema())
    }
}

#[test]
fn unanswered_probe_is_null_not_zero() {
    let opts = InspectOpts::default();
    let answered = default_inspect(&Answers, 0, "answers", &opts);
    let silent = default_inspect(&Silent, 0, "silent", &opts);

    assert_eq!(answered.registers[0].value, Some(0));
    assert_eq!(answered.registers[0].fields.len(), 1);
    assert_eq!(answered.kind, "declarative");

    assert_eq!(silent.registers[0].value, None);
    assert!(silent.registers[0].fields.is_empty());
    assert_eq!(silent.registers[0].name, "CTRL");
}

#[derive(Debug)]
struct Quiet;
impl Peripheral for Quiet {
    fn peek(&self, _o: u64) -> Option<u8> {
        None
    }
    fn describe_registers(&self) -> Option<Vec<RegisterSchema>> {
        None
    }
}

#[test]
fn externally_named_registers_are_also_null_when_unanswered() {
    let schema = vec![RegisterSchema {
        name: "SR".into(),
        offset: 4,
        size: 32,
        access: "ro",
        fields: vec![FieldSchema {
            name: "BUSY".into(),
            bits: [7, 7],
        }],
    }];
    let pi = inspect_with_schema(&Quiet, 0x4000_0000, "quiet", &schema);
    assert_eq!(pi.registers[0].value, None);
    assert!(pi.registers[0].fields.is_empty());
    assert_eq!(pi.kind, "native");
    assert_eq!(pi.base, 0x4000_0000);
}

#[test]
fn peripheral_without_schema_is_native_and_empty() {
    let pi = default_inspect(&Quiet, 0x5000_0000, "gpio", &InspectOpts::default());
    assert_eq!(pi.kind, "native");
    assert!(pi.registers.is_empty());
    assert!(pi.artifacts.is_empty());
    assert_eq!(pi.name, "gpio");
}

#[derive(Debug)]
struct HalfSpoken;
impl Peripheral for HalfSpoken {
    fn peek(&self, o: u64) -> Option<u8> {
        if o < 2 {
            Some(0xFF)
        } else {
            None
        }
    }
    fn describe_registers(&self) -> Option<Vec<RegisterSchema>> {
        None
    }
}

#[test]
fn partially_answered_word_is_unreadable() {
    assert_eq!(peek_word(&HalfSpoken, 0, 16), Some(0xFFFF), "fully modeled");
    assert_eq!(
        peek_word(&HalfSpoken, 0, 32),
        None,
        "half from the model and half invented is not a value"
    );
}

#[derive(Debug)]
struct Counting;
impl Peripheral for Counting {
    fn peek(&self, o: u64) -> Option<u8> {
        Some(o as u8 + 1)
    }
    fn describe_registers(&self) -> Option<Vec<RegisterSchema>> {
        None
    }
}

#[test]
fn words_are_little_endian() {
    assert_eq!(peek_word(&Counting, 0, 32), Some(0x0403_0201));
    assert_eq!(peek_word(&Counting, 4, 8), Some(5));
    assert_eq!(peek_word(&Counting, 0, 0), Some(1), "at least one byte");
    assert_eq!(assemble_word(&[Some(0x78), Some(0x56), Some(0x34), Some(0x12)]), Some(0x1234_5678));
    assert_eq!(assemble_word(&[Some(1), None]), None);
    assert_eq!(assemble_word(&[]), Some(0));
}

#[test]
fn fields_decode_only_from_a_known_word() {
    let fields = vec![
        FieldSchema {
            name: "LOW".into(),
            bits: [3, 0],
        },
        FieldSchema {
            name: "HIGH".into(),
            bits: [7, 4],
        },
    ];
    let decoded = decode_fields(Some(0xa5), &fields);
    assert_eq!(decoded.len(), 2);
    assert_eq!((decoded[0].name.as_str(), decoded[0].value), ("LOW", 0x5));
    assert_eq!((decoded[1].name.as_str(), decoded[1].value), ("HIGH", 0xa));
    assert!(decode_fields(None, &fields).is_empty());
}

#[test]
fn lossy_bytes_read_gaps_as_zero() {
    let peek = PeekResult {
        addr: 0x2000_0000,
        bytes: vec![PeekByte::Mapped(7), PeekByte::Unmapped, PeekByte::Mapped(9)],
    };
    assert_eq!(peek.to_lossy_bytes(), vec![7, 0, 9]);
}
