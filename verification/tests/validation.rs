use labwired::validation::{count_statuses, CheckStatus, PeripheralValidation};

#[test]
fn status_words_parse_and_label() {
    assert_eq!(CheckStatus::parse("pass"), CheckStatus::Pass);
    assert_eq!(CheckStatus::parse("fail"), CheckStatus::Fail);
    assert_eq!(CheckStatus::parse("na"), CheckStatus::NotApplicable);
    assert_eq!(CheckStatus::parse("PASS"), CheckStatus::Unrecorded);
    assert_eq!(CheckStatus::parse(""), CheckStatus::Unrecorded);
    assert_eq!(CheckStatus::parse("passed"), CheckStatus::Unrecorded);
    assert_eq!(CheckStatus::Pass.label(), "PASS");
    assert_eq!(CheckStatus::Fail.label(), "FAIL");
    assert_eq!(CheckStatus::NotApplicable.label(), "n/a");
    assert_eq!(CheckStatus::Unrecorded.label(), "unrecorded");
}

fn entry(name: &str, status: CheckStatus) -> PeripheralValidation {
    PeripheralValidation {
        peripheral: name.to_string(),
        status,
        authority: "tier-1: raw-register sequence vs vendor TRM".to_string(),
        evidence: None,
    }
}

#[test]
fn counts_partition_the_peripherals() {
    let ps = vec![
        entry("gpio", CheckStatus::Pass),
        entry("uart", CheckStatus::Pass),
        entry("spi", CheckStatus::Fail),
        entry("usb", CheckStatus::NotApplicable),
        entry("i2c", CheckStatus::Unrecorded),
        entry("adc", CheckStatus::Unrecorded),
    ];
    let c = count_statuses(&ps);
    assert_eq!((c.pass, c.fail, c.not_applicable, c.unrecorded), (2, 1, 1, 2));
    assert_eq!(c.applicable(), 5);
    assert_eq!(c.pass + c.fail + c.not_applicable + c.unrecorded, ps.len());
    let empty = count_statuses(&[]);
    assert_eq!(empty.applicable(), 0);
}
