//! The attribute probe: four property queries against one device, each
//! resolved on its own, and the security attributes that they add up to.
//!
//! The queries themselves are run by the caller, through the bridge. This
//! module says how to ask for each attribute, and what each answer, or the
//! lack of one, means.

use crate::bridge::{texts_of, BridgeOutcome};
use crate::text::{chars_of, trim_bounds, trimmed};
use vstd::prelude::*;
use vstd::string::*;

verus! {

/// An attribute that is read from a device property.
#[derive(Debug, Clone, Copy, PartialEq, Eq, Structural)]
pub enum Attribute {
    /// Whether the bootloader is locked.
    BootloaderLock,
    /// The verity mode of the boot chain.
    VerityMode,
    /// The firmware revision of the secure element.
    FirmwareRevision,
    /// The verified-boot state.
    VerifiedBootState,
}

/// The security posture of one device.
#[derive(Debug)]
pub struct SecurityAttributes {
    pub bootloader_locked: bool,
    pub verity_mode: String,
    pub secure_element_firmware: String,
    pub verified_boot_state: String,
    pub secure_storage_state: String,
}

/// What a `SecurityAttributes` holds, as plain values.
pub struct SecurityView {
    pub bootloader_locked: bool,
    pub verity_mode: Seq<char>,
    pub secure_element_firmware: Seq<char>,
    pub verified_boot_state: Seq<char>,
    pub secure_storage_state: Seq<char>,
}

impl View for SecurityAttributes {
    type V = SecurityView;

    open spec fn view(&self) -> SecurityView {
        SecurityView {
            bootloader_locked: self.bootloader_locked,
            verity_mode: self.verity_mode@,
            secure_element_firmware: self.secure_element_firmware@,
            verified_boot_state: self.verified_boot_state@,
            secure_storage_state: self.secure_storage_state@,
        }
    }
}

/// The device property that holds an attribute.
pub open spec fn property_of(attribute: Attribute) -> Seq<char> {
    match attribute {
        Attribute::BootloaderLock => "ro.boot.flash.locked"@,
        Attribute::VerityMode => "ro.boot.veritymode"@,
        Attribute::FirmwareRevision => "ro.boot.hardware.revision"@,
        Attribute::VerifiedBootState => "ro.boot.verifiedbootstate"@,
    }
}

/// The name of the device property that holds `attribute`.
pub fn property_name(attribute: Attribute) -> (name: String)
    ensures
        name@ == property_of(attribute),
{
    match attribute {
        Attribute::BootloaderLock => "ro.boot.flash.locked".to_owned(),
        Attribute::VerityMode => "ro.boot.veritymode".to_owned(),
        Attribute::FirmwareRevision => "ro.boot.hardware.revision".to_owned(),
        Attribute::VerifiedBootState => "ro.boot.verifiedbootstate".to_owned(),
    }
}

/// The arguments of the call that reads `attribute` from the device
/// `serial`.
pub open spec fn query_command(serial: Seq<char>, attribute: Attribute) -> Seq<Seq<char>> {
    seq!["-s"@, serial, "shell"@, "getprop"@, property_of(attribute)]
}

/// The arguments to hand to the bridge for one property query.
pub fn query_arguments(serial: &str, attribute: Attribute) -> (arguments: Vec<String>)
    ensures
        texts_of(arguments@) == query_command(serial@, attribute),
{
    let mut arguments: Vec<String> = Vec::new();
    arguments.push("-s".to_owned());
    arguments.push(serial.to_owned());
    arguments.push("shell".to_owned());
    arguments.push("getprop".to_owned());
    arguments.push(property_name(attribute));
    arguments
}

/// What a query read: the output without the whitespace around it. A query
/// read nothing where the bridge did not start, exited with failure, or
/// printed nothing but whitespace.
pub open spec fn reading_of(outcome: BridgeOutcome) -> Option<Seq<char>> {
    match outcome {
        BridgeOutcome::NotLaunched => None,
        BridgeOutcome::Exited { success, output } => if success && trimmed(output@).len() > 0 {
            Some(trimmed(output@))
        } else {
            None
        },
    }
}

/// The lock state that a query stands for: locked where the query read `1`
/// or read nothing, unlocked on any other reading.
pub open spec fn lock_state_of(outcome: BridgeOutcome) -> bool {
    match reading_of(outcome) {
        Some(text) => text == "1"@,
        None => true,
    }
}

/// The text that a query stands for: what it read, or `Unknown`.
pub open spec fn text_state_of(outcome: BridgeOutcome) -> Seq<char> {
    match reading_of(outcome) {
        Some(text) => text,
        None => "Unknown"@,
    }
}

/// The attributes of a device of which nothing has been read yet: locked,
/// every text unknown, and the secure storage behind its fixed notice.
pub open spec fn unresolved_attributes() -> SecurityView {
    SecurityView {
        bootloader_locked: true,
        verity_mode: "Unknown"@,
        secure_element_firmware: "Unknown"@,
        verified_boot_state: "Unknown"@,
        secure_storage_state: "Requires elevated access"@,
    }
}

/// `attributes` after the query for `attribute` ended in `outcome`: that one
/// attribute is resolved anew, the others stay.
pub open spec fn with_outcome(
    attributes: SecurityView,
    attribute: Attribute,
    outcome: BridgeOutcome,
) -> SecurityView {
    match attribute {
        Attribute::BootloaderLock => SecurityView {
            bootloader_locked: lock_state_of(outcome),
            ..attributes
        },
        Attribute::VerityMode => SecurityView { verity_mode: text_state_of(outcome), ..attributes },
        Attribute::FirmwareRevision => SecurityView {
            secure_element_firmware: text_state_of(outcome),
            ..attributes
        },
        Attribute::VerifiedBootState => SecurityView {
            verified_boot_state: text_state_of(outcome),
            ..attributes
        },
    }
}

/// The attributes that the four queries add up to.
pub open spec fn probed(
    lock: BridgeOutcome,
    verity: BridgeOutcome,
    firmware: BridgeOutcome,
    boot_state: BridgeOutcome,
) -> SecurityView {
    SecurityView {
        bootloader_locked: lock_state_of(lock),
        verity_mode: text_state_of(verity),
        secure_element_firmware: text_state_of(firmware),
        verified_boot_state: text_state_of(boot_state),
        secure_storage_state: "Requires elevated access"@,
    }
}

/// What a query read, if it read anything.
pub fn reading(outcome: &BridgeOutcome) -> (read: Option<String>)
    ensures
        match read {
            Some(text) => reading_of(*outcome) == Some(text@),
            None => reading_of(*outcome) is None,
        },
{
    match outcome {
        BridgeOutcome::NotLaunched => None,
        BridgeOutcome::Exited { success, output } => {
            if !*success {
                return None;
            }
            let chars = chars_of(output.as_str());
            let (from, to) = trim_bounds(chars.as_slice());
            if from < to {
                Some(output.as_str().substring_char(from, to).to_owned())
            } else {
                None
            }
        },
    }
}

/// The lock state that a query stands for.
pub fn lock_state(outcome: &BridgeOutcome) -> (locked: bool)
    ensures
        locked == lock_state_of(*outcome),
{
    match reading(outcome) {
        Some(text) => text == "1".to_owned(),
        None => true,
    }
}

/// The text that a query stands for.
pub fn text_state(outcome: &BridgeOutcome) -> (text: String)
    ensures
        text@ == text_state_of(*outcome),
{
    match reading(outcome) {
        Some(text) => text,
        None => "Unknown".to_owned(),
    }
}

impl SecurityAttributes {
    /// The attributes of a device before any query has ended.
    pub fn unresolved() -> (attributes: SecurityAttributes)
        ensures
            attributes@ == unresolved_attributes(),
    {
        SecurityAttributes {
            bootloader_locked: true,
            verity_mode: "Unknown".to_owned(),
            secure_element_firmware: "Unknown".to_owned(),
            verified_boot_state: "Unknown".to_owned(),
            secure_storage_state: "Requires elevated access".to_owned(),
        }
    }

    /// Takes in how the query for `attribute` ended. Whatever the outcome,
    /// the other attributes are left as they were.
    pub fn record(&mut self, attribute: Attribute, outcome: &BridgeOutcome)
        ensures
            final(self)@ == with_outcome(old(self)@, attribute, *outcome),
    {
        match attribute {
            Attribute::BootloaderLock => {
                self.bootloader_locked = lock_state(outcome);
            },
            Attribute::VerityMode => {
                self.verity_mode = text_state(outcome);
            },
            Attribute::FirmwareRevision => {
                self.secure_element_firmware = text_state(outcome);
            },
            Attribute::VerifiedBootState => {
                self.verified_boot_state = text_state(outcome);
            },
        }
    }
}

/// The queries of a probe, in the order in which they are made.
pub fn query_order() -> (order: Vec<Attribute>)
    ensures
        order@ == seq![
            Attribute::BootloaderLock,
            Attribute::FirmwareRevision,
            Attribute::VerifiedBootState,
            Attribute::VerityMode,
        ],
{
    let mut order: Vec<Attribute> = Vec::new();
    order.push(Attribute::BootloaderLock);
    order.push(Attribute::FirmwareRevision);
    order.push(Attribute::VerifiedBootState);
    order.push(Attribute::VerityMode);
    order
}

/// Resolves the attributes of a device from the outcomes of its four
/// queries. Each attribute is resolved from its own query alone; the state of
/// the secure storage is not queried.
pub fn probe_attributes(
    lock: &BridgeOutcome,
    verity: &BridgeOutcome,
    firmware: &BridgeOutcome,
    boot_state: &BridgeOutcome,
) -> (attributes: SecurityAttributes)
    ensures
        attributes@ == probed(*lock, *verity, *firmware, *boot_state),
{
    let mut attributes = SecurityAttributes::unresolved();
    attributes.record(Attribute::BootloaderLock, lock);
    attributes.record(Attribute::FirmwareRevision, firmware);
    attributes.record(Attribute::VerifiedBootState, boot_state);
    attributes.record(Attribute::VerityMode, verity);
    attributes
}

/// A probe in which one query reads something and the three others fail
/// returns the defaults with that one attribute resolved.
pub proof fn lemma_one_reading_among_failures(
    attribute: Attribute,
    lock: BridgeOutcome,
    verity: BridgeOutcome,
    firmware: BridgeOutcome,
    boot_state: BridgeOutcome,
)
    requires
        attribute != Attribute::BootloaderLock ==> reading_of(lock) is None,
        attribute != Attribute::VerityMode ==> reading_of(verity) is None,
        attribute != Attribute::FirmwareRevision ==> reading_of(firmware) is None,
        attribute != Attribute::VerifiedBootState ==> reading_of(boot_state) is None,
    ensures
        probed(lock, verity, firmware, boot_state) == with_outcome(
            unresolved_attributes(),
            attribute,
            match attribute {
                Attribute::BootloaderLock => lock,
                Attribute::VerityMode => verity,
                Attribute::FirmwareRevision => firmware,
                Attribute::VerifiedBootState => boot_state,
            },
        ),
{
}

/// A probe in which every query fails returns the defaults.
pub proof fn lemma_all_queries_failed(
    lock: BridgeOutcome,
    verity: BridgeOutcome,
    firmware: BridgeOutcome,
    boot_state: BridgeOutcome,
)
    requires
        reading_of(lock) is None,
        reading_of(verity) is None,
        reading_of(firmware) is None,
        reading_of(boot_state) is None,
    ensures
        probed(lock, verity, firmware, boot_state) == unresolved_attributes(),
{
}

/// How a flag is shown.
pub open spec fn flag_text(flag: bool) -> Seq<char> {
    if flag {
        "true"@
    } else {
        "false"@
    }
}

/// The rows of the status table of a device: a label and a value each.
pub open spec fn status_table(serial: Seq<char>, attributes: SecurityView) -> Seq<
    (Seq<char>, Seq<char>),
> {
    seq![
        ("Serial"@, serial),
        ("Bootloader Locked"@, flag_text(attributes.bootloader_locked)),
        ("AVB State"@, attributes.verity_mode),
        ("Titan M FW"@, attributes.secure_element_firmware),
        ("Boot State"@, attributes.verified_boot_state),
        ("StrongBox"@, attributes.secure_storage_state),
    ]
}

/// The views of a run of rows, in order.
pub open spec fn rows_of(rows: Seq<(String, String)>) -> Seq<(Seq<char>, Seq<char>)> {
    Seq::new(rows.len(), |i: int| (rows[i].0@, rows[i].1@))
}

fn row(label: &str, value: &str) -> (pair: (String, String))
    ensures
        pair.0@ == label@,
        pair.1@ == value@,
{
    (label.to_owned(), value.to_owned())
}

/// The rows that the status table of a device shows.
pub fn status_rows(serial: &str, attributes: &SecurityAttributes) -> (rows: Vec<(String, String)>)
    ensures
        rows_of(rows@) == status_table(serial@, attributes@),
{
    let mut rows: Vec<(String, String)> = Vec::new();
    rows.push(row("Serial", serial));
    rows.push(
        row(
            "Bootloader Locked",
            if attributes.bootloader_locked {
                "true"
            } else {
                "false"
            },
        ),
    );
    rows.push(row("AVB State", attributes.verity_mode.as_str()));
    rows.push(row("Titan M FW", attributes.secure_element_firmware.as_str()));
    rows.push(row("Boot State", attributes.verified_boot_state.as_str()));
    rows.push(row("StrongBox", attributes.secure_storage_state.as_str()));
    rows
}

} // verus!
