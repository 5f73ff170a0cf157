use titan_m::bridge::BridgeOutcome;
use titan_m::probe::{
    lock_state, probe_attributes, property_name, query_order, reading, status_rows, text_state,
    Attribute, SecurityAttributes,
};

fn printed(output: &str) -> BridgeOutcome {
    BridgeOutcome::Exited { success: true, output: output.to_string() }
}

fn failed(output: &str) -> BridgeOutcome {
    BridgeOutcome::Exited { success: false, output: output.to_string() }
}

fn assert_defaults(attributes: &SecurityAttributes) {
    assert!(attributes.bootloader_locked);
    assert_eq!(attributes.verity_mode, "Unknown");
    assert_eq!(attributes.secure_element_firmware, "Unknown");
    assert_eq!(attributes.verified_boot_state, "Unknown");
    assert_eq!(attributes.secure_storage_state, "Requires elevated access");
}

#[test]
fn all_queries_failing_yields_the_defaults() {
    let none = BridgeOutcome::NotLaunched;
    let attributes = probe_attributes(&none, &none, &none, &none);
    assert_defaults(&attributes);
    let attributes = probe_attributes(&failed("1"), &failed("x"), &printed(""), &printed(" \n"));
    assert_defaults(&attributes);
}

#[test]
fn status_of_a_device_whose_queries_all_fail() {
    let none = BridgeOutcome::NotLaunched;
    let attributes = probe_attributes(&none, &none, &none, &none);
    let rows = status_rows("ABC123", &attributes);
    let expected: Vec<(String, String)> = [
        ("Serial", "ABC123"),
        ("Bootloader Locked", "true"),
        ("AVB State", "Unknown"),
        ("Titan M FW", "Unknown"),
        ("Boot State", "Unknown"),
        ("StrongBox", "Requires elevated access"),
    ]
    .iter()
    .map(|(label, value)| (label.to_string(), value.to_string()))
    .collect();
    assert_eq!(rows, expected);
}

#[test]
fn status_shows_what_was_read() {
    let attributes =
        probe_attributes(&printed("0\n"), &printed("enforcing\n"), &printed("MP1.0\n"), &printed("green\n"));
    let rows = status_rows("S", &attributes);
    let values: Vec<&str> = rows.iter().map(|row| row.1.as_str()).collect();
    assert_eq!(values, vec!["S", "false", "enforcing", "MP1.0", "green", "Requires elevated access"]);
}

#[test]
fn one_reading_among_three_failures() {
    let none = BridgeOutcome::NotLaunched;

    let only_lock = probe_attributes(&printed("0\n"), &none, &failed(""), &printed(""));
    assert!(!only_lock.bootloader_locked);
    assert_eq!(only_lock.verity_mode, "Unknown");
    assert_eq!(only_lock.secure_element_firmware, "Unknown");
    assert_eq!(only_lock.verified_boot_state, "Unknown");
    assert_eq!(only_lock.secure_storage_state, "Requires elevated access");

    let only_verity = probe_attributes(&none, &printed("enforcing\n"), &none, &none);
    assert!(only_verity.bootloader_locked);
    assert_eq!(only_verity.verity_mode, "enforcing");
    assert_eq!(only_verity.secure_element_firmware, "Unknown");
    assert_eq!(only_verity.verified_boot_state, "Unknown");

    let only_firmware = probe_attributes(&none, &none, &printed("MP1.0\n"), &none);
    assert!(only_firmware.bootloader_locked);
    assert_eq!(only_firmware.verity_mode, "Unknown");
    assert_eq!(only_firmware.secure_element_firmware, "MP1.0");
    assert_eq!(only_firmware.verified_boot_state, "Unknown");

    let only_boot = probe_attributes(&none, &none, &none, &printed("green\n"));
    assert!(only_boot.bootloader_locked);
    assert_eq!(only_boot.verity_mode, "Unknown");
    assert_eq!(only_boot.secure_element_firmware, "Unknown");
    assert_eq!(only_boot.verified_boot_state, "green");
    assert_eq!(only_boot.secure_storage_state, "Requires elevated access");
}

#[test]
fn all_readings_are_taken() {
    let attributes =
        probe_attributes(&printed("1\n"), &printed("enforcing\n"), &printed("MP1.0\n"), &printed("orange\n"));
    assert!(attributes.bootloader_locked);
    assert_eq!(attributes.verity_mode, "enforcing");
    assert_eq!(attributes.secure_element_firmware, "MP1.0");
    assert_eq!(attributes.verified_boot_state, "orange");
    assert_eq!(attributes.secure_storage_state, "Requires elevated access");
}

#[test]
fn lock_state_is_locked_on_one_and_on_failure() {
    assert!(lock_state(&printed("1")));
    assert!(lock_state(&printed("1\n")));
    assert!(lock_state(&printed("  1\r\n")));
    assert!(lock_state(&BridgeOutcome::NotLaunched));
    assert!(lock_state(&failed("0")));
    assert!(lock_state(&printed("")));
    assert!(lock_state(&printed("\n")));
}

#[test]
fn lock_state_is_unlocked_on_any_other_reading() {
    assert!(!lock_state(&printed("0")));
    assert!(!lock_state(&printed("0\n")));
    assert!(!lock_state(&printed("11")));
    assert!(!lock_state(&printed("true")));
    assert!(!lock_state(&printed("1 1")));
}

#[test]
fn text_state_is_the_trimmed_output_or_unknown() {
    assert_eq!(text_state(&printed("green\n")), "green");
    assert_eq!(text_state(&printed("  a b \t\r\n")), "a b");
    assert_eq!(text_state(&printed("Unknown")), "Unknown");
    assert_eq!(text_state(&printed("")), "Unknown");
    assert_eq!(text_state(&printed("\n")), "Unknown");
    assert_eq!(text_state(&failed("green\n")), "Unknown");
    assert_eq!(text_state(&BridgeOutcome::NotLaunched), "Unknown");
}

#[test]
fn reading_tells_failure_from_output() {
    assert_eq!(reading(&printed(" x \n")), Some("x".to_string()));
    assert_eq!(reading(&printed("é\u{a0}")), Some("é".to_string()));
    assert_eq!(reading(&printed("   ")), None);
    assert_eq!(reading(&failed("x")), None);
    assert_eq!(reading(&BridgeOutcome::NotLaunched), None);
}

#[test]
fn record_changes_one_attribute() {
    let mut attributes = SecurityAttributes::unresolved();
    assert_defaults(&attributes);

    attributes.record(Attribute::VerifiedBootState, &printed("green\n"));
    assert!(attributes.bootloader_locked);
    assert_eq!(attributes.verity_mode, "Unknown");
    assert_eq!(attributes.secure_element_firmware, "Unknown");
    assert_eq!(attributes.verified_boot_state, "green");
    assert_eq!(attributes.secure_storage_state, "Requires elevated access");

    attributes.record(Attribute::BootloaderLock, &printed("0\n"));
    assert!(!attributes.bootloader_locked);
    assert_eq!(attributes.verified_boot_state, "green");

    attributes.record(Attribute::FirmwareRevision, &printed("EVT\n"));
    attributes.record(Attribute::VerityMode, &printed("eio\n"));
    assert_eq!(attributes.secure_element_firmware, "EVT");
    assert_eq!(attributes.verity_mode, "eio");

    // a later failure falls back to the default of that attribute alone
    attributes.record(Attribute::VerifiedBootState, &BridgeOutcome::NotLaunched);
    attributes.record(Attribute::BootloaderLock, &failed("0"));
    assert!(attributes.bootloader_locked);
    assert_eq!(attributes.verified_boot_state, "Unknown");
    assert_eq!(attributes.secure_element_firmware, "EVT");
    assert_eq!(attributes.verity_mode, "eio");
    assert_eq!(attributes.secure_storage_state, "Requires elevated access");
}

#[test]
fn properties_have_their_names() {
    assert_eq!(property_name(Attribute::BootloaderLock), "ro.boot.flash.locked");
    assert_eq!(property_name(Attribute::VerityMode), "ro.boot.veritymode");
    assert_eq!(property_name(Attribute::FirmwareRevision), "ro.boot.hardware.revision");
    assert_eq!(property_name(Attribute::VerifiedBootState), "ro.boot.verifiedbootstate");
}

#[test]
fn every_attribute_is_queried_once() {
    let order = query_order();
    assert_eq!(order.len(), 4);
    for attribute in [
        Attribute::BootloaderLock,
        Attribute::VerityMode,
        Attribute::FirmwareRevision,
        Attribute::VerifiedBootState,
    ] {
        assert_eq!(order.iter().filter(|queried| **queried == attribute).count(), 1);
    }
}

#[test]
fn reading_trims_as_the_standard_library_does() {
    let outputs = [
        "green\n", "  green", "green  ", "\tgreen\r\n", "\u{a0}green\u{2003}", "a  b", " a\nb ",
        "\u{200b}x", "x\u{feff}", "", " ", "\n\n", "\u{3000}", "1", "\u{85}1\u{1680}",
    ];
    for output in outputs {
        let trimmed = output.trim();
        let expected = if trimmed.is_empty() { None } else { Some(trimmed.to_string()) };
        assert_eq!(reading(&printed(output)), expected);
    }
}
