//! Device discovery: from the bridge's device listing to the records of the
//! devices that belong to the supported family.

use crate::text::{
    chars_of, contains, find, first_occurrence, lemma_scan_bounds, occurs_at, same_folded, scan,
    scan_to, Stop,
};
use vstd::prelude::*;
use vstd::string::*;

verus! {

/// One attached device, as the listing names it.
#[derive(Debug)]
pub struct DeviceRecord {
    /// The device's identifier: the first token of its line.
    pub serial: String,
    /// The model as the bridge reports it, or `Unknown`.
    pub model_label: String,
    /// Whether `model_label` names a member of the supported family.
    pub family_member: bool,
}

/// What a `DeviceRecord` holds, as plain values.
pub struct DeviceView {
    pub serial: Seq<char>,
    pub model_label: Seq<char>,
    pub family_member: bool,
}

impl View for DeviceRecord {
    type V = DeviceView;

    open spec fn view(&self) -> DeviceView {
        DeviceView {
            serial: self.serial@,
            model_label: self.model_label@,
            family_member: self.family_member,
        }
    }
}

/// The views of a run of records, in order.
pub open spec fn records_of(devices: Seq<DeviceRecord>) -> Seq<DeviceView> {
    Seq::new(devices.len(), |i: int| devices[i]@)
}

/// The codenames by which a model label is recognised as one of the family.
pub open spec fn codenames() -> Seq<Seq<char>> {
    seq!["pixel"@, "oriole"@, "raven"@, "panther"@, "cheetah"@]
}

/// A model label belongs to the family when one of the codenames stands in
/// it, in any mix of upper and lower case.
pub open spec fn is_family_label(label: Seq<char>) -> bool {
    exists|k: int| 0 <= k < codenames().len() && contains(label, #[trigger] codenames()[k], true)
}

impl DeviceRecord {
    /// The derived attribute agrees with the label it is derived from.
    pub open spec fn well_formed(&self) -> bool {
        self.family_member == is_family_label(self.model_label@)
    }

    /// A record for `serial` and `model_label`, classified.
    pub fn new(serial: String, model_label: String) -> (record: DeviceRecord)
        ensures
            record.well_formed(),
            record.serial@ == serial@,
            record.model_label@ == model_label@,
    {
        let family_member = classify(model_label.as_str());
        DeviceRecord { serial, model_label, family_member }
    }
}

fn holds(hay: &Vec<char>, needle: &str, ignore_case: bool) -> (found: bool)
    ensures
        found == contains(hay@, needle@, ignore_case),
{
    let pattern = chars_of(needle);
    find(hay.as_slice(), pattern.as_slice(), ignore_case).is_some()
}

/// Whether `model_label` names a member of the supported family.
pub fn classify(model_label: &str) -> (member: bool)
    ensures
        member == is_family_label(model_label@),
{
    let label = chars_of(model_label);
    let member = holds(&label, "pixel", true) || holds(&label, "oriole", true) || holds(
        &label,
        "raven",
        true,
    ) || holds(&label, "panther", true) || holds(&label, "cheetah", true);
    proof {
        let names = codenames();
        assert(names[0] == "pixel"@ && names[1] == "oriole"@ && names[2] == "raven"@ && names[3]
            == "panther"@ && names[4] == "cheetah"@);
    }
    member
}

proof fn lemma_occurrence_ignores_case(a: Seq<char>, b: Seq<char>, needle: Seq<char>, at: int)
    requires
        same_folded(a, b),
        occurs_at(a, needle, at, true),
    ensures
        occurs_at(b, needle, at, true),
{
}

proof fn lemma_family_carries_over(a: Seq<char>, b: Seq<char>)
    requires
        same_folded(a, b),
        is_family_label(a),
    ensures
        is_family_label(b),
{
    let k = choose|k: int|
        0 <= k < codenames().len() && contains(a, #[trigger] codenames()[k], true);
    let at = choose|at: int| occurs_at(a, codenames()[k], at, true);
    lemma_occurrence_ignores_case(a, b, codenames()[k], at);
}

/// Labels that differ only in the case of their ASCII letters are classified
/// alike.
pub proof fn lemma_classification_ignores_case(a: Seq<char>, b: Seq<char>)
    requires
        same_folded(a, b),
    ensures
        is_family_label(a) == is_family_label(b),
{
    if is_family_label(a) {
        lemma_family_carries_over(a, b);
    }
    if is_family_label(b) {
        lemma_family_carries_over(b, a);
    }
}

/// Classification looks for a codename anywhere in the label: what stands
/// before and after a family label does not unmake it.
pub proof fn lemma_classification_by_substring(
    before: Seq<char>,
    label: Seq<char>,
    after: Seq<char>,
)
    requires
        is_family_label(label),
    ensures
        is_family_label(before + label + after),
{
    let k = choose|k: int|
        0 <= k < codenames().len() && contains(label, #[trigger] codenames()[k], true);
    let name = codenames()[k];
    let at = choose|at: int| occurs_at(label, name, at, true);
    assert(occurs_at(before + label + after, name, before.len() + at, true));
}

/// The model label of a listing line: the token that follows the first
/// `model:`, up to the next whitespace, or `Unknown` where the line has no
/// `model:`.
pub open spec fn model_label_of(line: Seq<char>) -> Seq<char> {
    match first_occurrence(line, "model:"@, false) {
        Some(at) => {
            let from = at + "model:"@.len();
            line.subrange(from, scan(line, from, Stop::Whitespace))
        },
        None => "Unknown"@,
    }
}

/// Reads the model label off one line of the listing.
pub fn extract_model(line: &str) -> (label: String)
    ensures
        label@ == model_label_of(line@),
{
    let chars = chars_of(line);
    let marker = chars_of("model:");
    match find(chars.as_slice(), marker.as_slice(), false) {
        Some(at) => {
            let from = at + marker.len();
            let to = scan_to(chars.as_slice(), from, Stop::Whitespace);
            line.substring_char(from, to).to_owned()
        },
        None => "Unknown".to_owned(),
    }
}

/// A line of the listing names a device when `device` stands somewhere in it
/// and `List`, the mark of a header or footer, does not.
pub open spec fn is_entry_line(line: Seq<char>) -> bool {
    contains(line, "device"@, false) && !contains(line, "List"@, false)
}

/// The first whitespace-delimited token of a line; empty where the line has
/// none.
pub open spec fn serial_of(line: Seq<char>) -> Seq<char> {
    let from = scan(line, 0, Stop::NonWhitespace);
    line.subrange(from, scan(line, from, Stop::Whitespace))
}

/// The record that a line of the listing stands for, if it names a device and
/// yields a serial.
pub open spec fn candidate_of(line: Seq<char>) -> Option<DeviceView> {
    if is_entry_line(line) && serial_of(line).len() > 0 {
        Some(
            DeviceView {
                serial: serial_of(line),
                model_label: model_label_of(line),
                family_member: is_family_label(model_label_of(line)),
            },
        )
    } else {
        None
    }
}

/// A line qualifies when it stands for a device of the supported family.
pub open spec fn qualifies(line: Seq<char>) -> bool {
    candidate_of(line) matches Some(device) && device.family_member
}

/// Reads one line of the listing.
pub fn parse_line(line: &str) -> (candidate: Option<DeviceRecord>)
    ensures
        match candidate {
            Some(record) => candidate_of(line@) == Some(record@) && record.well_formed(),
            None => candidate_of(line@) is None,
        },
{
    let chars = chars_of(line);
    if !holds(&chars, "device", false) || holds(&chars, "List", false) {
        return None;
    }
    let from = scan_to(chars.as_slice(), 0, Stop::NonWhitespace);
    let to = scan_to(chars.as_slice(), from, Stop::Whitespace);
    if from == to {
        return None;
    }
    let serial = line.substring_char(from, to).to_owned();
    let model_label = extract_model(line);
    Some(DeviceRecord::new(serial, model_label))
}

/// The lines of `text` from index `from` on. A line runs up to the next line
/// feed or to the end of the text; a carriage return before the line feed
/// stays on the line, where it counts as whitespace.
pub open spec fn lines_from(text: Seq<char>, from: int) -> Seq<Seq<char>>
    decreases text.len() + 1 - from,
{
    if 0 <= from < text.len() {
        let end = scan(text, from, Stop::Newline);
        proof {
            lemma_scan_bounds(text, from, Stop::Newline);
        }
        seq![text.subrange(from, end)] + lines_from(text, end + 1)
    } else {
        Seq::empty()
    }
}

/// The lines of the listing that follow its first line, the header.
pub open spec fn entry_lines(text: Seq<char>) -> Seq<Seq<char>> {
    lines_from(text, scan(text, 0, Stop::Newline) + 1)
}

/// Some record of `records` carries `serial`.
pub open spec fn has_serial(records: Seq<DeviceView>, serial: Seq<char>) -> bool {
    exists|i: int| 0 <= i < records.len() && (#[trigger] records[i]).serial == serial
}

/// No two records carry one serial.
pub open spec fn distinct_serials(records: Seq<DeviceView>) -> bool {
    forall|i: int, j: int|
        0 <= i < j < records.len() ==> (#[trigger] records[i]).serial != (
        #[trigger] records[j]).serial
}

/// `records` after `line` was read: a qualifying line adds its record unless
/// its serial is already there.
pub open spec fn with_line(records: Seq<DeviceView>, line: Seq<char>) -> Seq<DeviceView> {
    match candidate_of(line) {
        Some(device) => if device.family_member && !has_serial(records, device.serial) {
            records.push(device)
        } else {
            records
        },
        None => records,
    }
}

/// The records that a run of lines yields, read from first to last.
pub open spec fn collect(lines: Seq<Seq<char>>) -> Seq<DeviceView>
    decreases lines.len(),
{
    if lines.len() == 0 {
        Seq::empty()
    } else {
        with_line(collect(lines.drop_last()), lines.last())
    }
}

/// What a scan of the listing `text` finds: the records of its qualifying
/// lines, in the order of the lines, each serial once.
pub open spec fn discovered(text: Seq<char>) -> Seq<DeviceView> {
    collect(entry_lines(text))
}

/// Some qualifying line among `lines` stands for `record`.
pub open spec fn yields(lines: Seq<Seq<char>>, record: DeviceView) -> bool {
    exists|k: int|
        0 <= k < lines.len() && qualifies(#[trigger] lines[k]) && candidate_of(lines[k]) == Some(
            record,
        )
}

/// What `collect` keeps and what it leaves out: every record comes from a
/// qualifying line, every qualifying line's serial is among the records, and
/// no serial occurs twice.
pub proof fn lemma_collect_sound(lines: Seq<Seq<char>>)
    ensures
        forall|i: int| 0 <= i < collect(lines).len() ==> yields(lines, #[trigger] collect(lines)[i]),
        forall|k: int|
            0 <= k < lines.len() && qualifies(#[trigger] lines[k]) ==> has_serial(
                collect(lines),
                serial_of(lines[k]),
            ),
        distinct_serials(collect(lines)),
        collect(lines).len() <= lines.len(),
    decreases lines.len(),
{
    if lines.len() > 0 {
        let front = lines.drop_last();
        let last = lines.last();
        let before = collect(front);
        let after = collect(lines);
        lemma_collect_sound(front);
        assert forall|i: int| 0 <= i < after.len() implies yields(lines, #[trigger] after[i]) by {
            if i < before.len() {
                // the line that stood for this record is a line of `front`
                let k = choose|k: int|
                    0 <= k < front.len() && qualifies(#[trigger] front[k]) && candidate_of(
                        front[k],
                    ) == Some(before[i]);
                assert(lines[k] == front[k]);
            } else {
                assert(qualifies(last) && candidate_of(last) == Some(after[i]));
            }
        }
        assert forall|k: int| 0 <= k < lines.len() && qualifies(#[trigger] lines[k]) implies has_serial(
            after,
            serial_of(lines[k]),
        ) by {
            let serial = serial_of(lines[k]);
            if k < front.len() || has_serial(before, serial) {
                // a record of `before` carries the serial, and stays
                assert(k < front.len() ==> lines[k] == front[k]);
                let i = choose|i: int| 0 <= i < before.len() && (#[trigger] before[i]).serial == serial;
                assert(after[i] == before[i]);
            } else {
                // the last line brings it
                assert(after[before.len() as int].serial == serial);
            }
        }
    }
}

/// A listing without a qualifying line yields no record.
pub proof fn lemma_no_qualifying_line(text: Seq<char>)
    requires
        forall|k: int| 0 <= k < entry_lines(text).len() ==> !qualifies(#[trigger] entry_lines(text)[k]),
    ensures
        discovered(text).len() == 0,
{
    lemma_collect_sound(entry_lines(text));
    if discovered(text).len() > 0 {
        assert(yields(entry_lines(text), discovered(text)[0]));
    }
}

/// A listing with exactly one qualifying line yields that line's record and
/// no other.
pub proof fn lemma_one_qualifying_line(text: Seq<char>, k: int)
    requires
        0 <= k < entry_lines(text).len(),
        qualifies(entry_lines(text)[k]),
        forall|j: int|
            0 <= j < entry_lines(text).len() && j != k ==> !qualifies(#[trigger] entry_lines(text)[j]),
    ensures
        discovered(text).len() == 1,
        Some(discovered(text)[0]) == candidate_of(entry_lines(text)[k]),
{
    let lines = entry_lines(text);
    let found = discovered(text);
    lemma_collect_sound(lines);
    // line `k` brings a record, every record comes from line `k`, and two
    // records would carry one serial
    assert(has_serial(found, serial_of(lines[k])));
    assert forall|i: int| 0 <= i < found.len() implies Some(#[trigger] found[i]) == candidate_of(
        lines[k],
    ) by {
        assert(yields(lines, found[i]));
    }
    if found.len() > 1 {
        assert(found[0].serial != found[1].serial);
    }
}

/// A listing in which two qualifying lines name different serials yields at
/// least two records.
pub proof fn lemma_two_qualifying_lines(text: Seq<char>, j: int, k: int)
    requires
        0 <= j < entry_lines(text).len(),
        0 <= k < entry_lines(text).len(),
        qualifies(entry_lines(text)[j]),
        qualifies(entry_lines(text)[k]),
        serial_of(entry_lines(text)[j]) != serial_of(entry_lines(text)[k]),
    ensures
        discovered(text).len() >= 2,
{
    let lines = entry_lines(text);
    let found = discovered(text);
    lemma_collect_sound(lines);
    // each of the two serials is carried by a record, and not by the same one
    assert(has_serial(found, serial_of(lines[j])));
    assert(has_serial(found, serial_of(lines[k])));
}

fn holds_serial(devices: &Vec<DeviceRecord>, serial: &String) -> (found: bool)
    ensures
        found == has_serial(records_of(devices@), serial@),
{
    let mut i: usize = 0;
    while i < devices.len()
        invariant
            i <= devices@.len(),
            forall|j: int| 0 <= j < i ==> (#[trigger] records_of(devices@)[j]).serial != serial@,
        decreases devices@.len() - i,
    {
        if devices[i].serial == *serial {
            assert(records_of(devices@)[i as int].serial == serial@);
            return true;
        }
        i = i + 1;
    }
    false
}

/// Reads the bridge's device listing: skips the header line, reads every other
/// line, and keeps the records of the supported family, each serial once, in
/// the order of the listing.
pub fn parse_devices(raw: &str) -> (devices: Vec<DeviceRecord>)
    ensures
        records_of(devices@) == discovered(raw@),
        distinct_serials(records_of(devices@)),
        forall|i: int|
            0 <= i < devices@.len() ==> (#[trigger] devices@[i]).family_member
                && devices@[i].well_formed(),
{
    let text = chars_of(raw);
    let size: usize = text.len();
    let mut devices: Vec<DeviceRecord> = Vec::new();
    let header_end = scan_to(text.as_slice(), 0, Stop::Newline);
    let mut from: usize = if header_end < size {
        header_end + 1
    } else {
        size
    };
    let ghost mut done: Seq<Seq<char>> = Seq::empty();
    while from < size
        invariant
            text@ == raw@,
            size == text@.len(),
            from <= size,
            entry_lines(raw@) == done + lines_from(raw@, from as int),
            records_of(devices@) == collect(done),
            forall|i: int|
                0 <= i < devices@.len() ==> (#[trigger] devices@[i]).family_member
                    && devices@[i].well_formed(),
        decreases size - from,
    {
        let to = scan_to(text.as_slice(), from, Stop::Newline);
        let line = raw.substring_char(from, to);
        match parse_line(line) {
            Some(record) => {
                if record.family_member && !holds_serial(&devices, &record.serial) {
                    devices.push(record);
                }
            },
            None => {},
        }
        let next: usize = if to < size {
            to + 1
        } else {
            size
        };
        proof {
            // the line just read is the first of those that were left
            assert(lines_from(raw@, to + 1) == lines_from(raw@, next as int));
            assert(done.push(line@).drop_last() =~= done);
            done = done.push(line@);
        }
        from = next;
    }
    proof {
        lemma_collect_sound(done);
    }
    devices
}

} // verus!
