//! What the device allows the controller to change: the audio HAL family
//! found at installation, recorded in a strict `key=value` file, and the
//! rule that without the traditional policy XML only managed operations
//! remain.
use vstd::prelude::*;

use crate::domain::{ExtraAction, ExtraView, ReapplyAction, ReapplyView};
use crate::text::{
    concat2, contains, contains_str, eq_str, lines, owned, push_str, split_lines, split_once,
    split_once_char, trim, trim_str, views,
};

verus! {

broadcast use vstd::string::group_string_axioms;

/// The device's audio HAL and whether the legacy controls (policy XML,
/// Bluetooth HAL, USB period) may be used.
#[derive(Clone, Debug, PartialEq, Eq)]
pub struct DeviceCapabilities {
    pub audio_hal: String,
    pub legacy_controls: bool,
    pub reason: String,
}

pub struct CapsView {
    pub audio_hal: Seq<char>,
    pub legacy_controls: bool,
    pub reason: Seq<char>,
}

impl View for DeviceCapabilities {
    type V = CapsView;

    open spec fn view(&self) -> CapsView {
        CapsView {
            audio_hal: self.audio_hal@,
            legacy_controls: self.legacy_controls,
            reason: self.reason@,
        }
    }
}

/// Capabilities without the legacy controls.
pub open spec fn limited_spec(hal: Seq<char>, reason: Seq<char>) -> CapsView {
    CapsView { audio_hal: hal, legacy_controls: false, reason }
}

/// What the evidence gathered on the device shows: an AIDL audio HAL or no
/// readable policy XML rule the legacy controls out, and so does a service
/// list that could not be read.
pub open spec fn evidence_spec(policy_readable: bool, services: Option<Seq<char>>) -> CapsView {
    match services {
        None => limited_spec("unknown"@, "audio_service_detection_unavailable"@),
        Some(list) => if contains(list, "android.hardware.audio.core.IModule/"@) {
            limited_spec("aidl"@, "aidl_legacy_controls_unavailable"@)
        } else if policy_readable {
            CapsView { audio_hal: "legacy-xml"@, legacy_controls: true, reason: Seq::empty() }
        } else {
            limited_spec("unknown"@, "traditional_policy_xml_unavailable"@)
        },
    }
}

/// Whether the capabilities allow an Extras action: without the legacy
/// controls, changing the Bluetooth HAL or setting a USB period is refused.
pub open spec fn allows_extra_spec(c: CapsView, a: ExtraView) -> bool {
    c.legacy_controls || (!(a matches ExtraView::BluetoothHal { action } && action != "status"@)
        && !(a is UsbPeriodSet))
}

/// Whether the capabilities allow a reapply step.
pub open spec fn allows_reapply_spec(c: CapsView, a: ReapplyView) -> bool {
    match a {
        ReapplyView::Policy(_) => c.legacy_controls,
        ReapplyView::Extra(e) => allows_extra_spec(c, e),
    }
}

impl DeviceCapabilities {
    /// Capabilities without the legacy controls, for `reason`.
    pub fn limited(hal: &str, reason: &str) -> (r: Self)
        ensures
            r@ == limited_spec(hal@, reason@),
    {
        DeviceCapabilities { audio_hal: owned(hal), legacy_controls: false, reason: owned(reason) }
    }

    /// Decides the capabilities from what was found on the device: whether
    /// the policy XML could be read, and the service list if it could be
    /// had.
    pub fn from_evidence(policy_readable: bool, services: Option<&str>) -> (r: Self)
        ensures
            r@ == evidence_spec(
                policy_readable,
                match services {
                    Some(s) => Some(s@),
                    None => None,
                },
            ),
    {
        let services = match services {
            None => {
                return DeviceCapabilities::limited(
                    "unknown",
                    "audio_service_detection_unavailable",
                );
            },
            Some(s) => s,
        };
        if contains_str(services, "android.hardware.audio.core.IModule/") {
            return DeviceCapabilities::limited("aidl", "aidl_legacy_controls_unavailable");
        }
        if policy_readable {
            DeviceCapabilities {
                audio_hal: owned("legacy-xml"),
                legacy_controls: true,
                reason: String::new(),
            }
        } else {
            DeviceCapabilities::limited("unknown", "traditional_policy_xml_unavailable")
        }
    }

    /// A policy may be applied only with the legacy controls.
    pub fn require_policy(&self) -> (r: Result<(), String>)
        ensures
            self.legacy_controls ==> r is Ok,
            !self.legacy_controls ==> (r matches Err(m) && m@ == "unsupported_device_capability: policy ("@
                + self.reason@ + ")"@),
    {
        if self.legacy_controls {
            Ok(())
        } else {
            let mut m = concat2("unsupported_device_capability: policy (", self.reason.as_str());
            push_str(&mut m, ")");
            Err(m)
        }
    }

    /// Whether an Extras action may run on this device.
    pub fn allows_extra(&self, action: &ExtraAction) -> (r: bool)
        ensures
            r == allows_extra_spec(self@, action@),
    {
        if self.legacy_controls {
            return true;
        }
        match action {
            ExtraAction::BluetoothHal { action } => eq_str(action.as_str(), "status"),
            ExtraAction::UsbPeriodSet { .. } => false,
            _ => true,
        }
    }

    /// Whether a reapply step may run on this device.
    pub fn allows_reapply(&self, action: &ReapplyAction) -> (r: bool)
        ensures
            r == allows_reapply_spec(self@, action@),
    {
        match action {
            ReapplyAction::Policy(_) => self.legacy_controls,
            ReapplyAction::Extra(action) => self.allows_extra(action),
        }
    }
}

// ---------------------------------------------------------------------------
// The installation record
// ---------------------------------------------------------------------------

/// The keys an installation record may hold; the fingerprints of old
/// installations are accepted and never read.
pub open spec fn record_key(k: Seq<char>) -> bool {
    k == "version"@ || k == "audio_hal"@ || k == "policy_xml_supported"@ || k
        == "build_fingerprint"@ || k == "vendor_fingerprint"@ || k == "reason"@
}

/// The keys of a list of entries.
pub open spec fn record_keys(es: Seq<(Seq<char>, Seq<char>)>) -> Seq<Seq<char>> {
    es.map_values(|e: (Seq<char>, Seq<char>)| e.0)
}

/// The entries of the first `n` lines of a record, trimmed; blank lines
/// and comments are passed over. `None` when a line is not `key=value`, or
/// a key is unknown or repeated.
pub open spec fn record_upto(ls: Seq<Seq<char>>, n: int) -> Option<Seq<(Seq<char>, Seq<char>)>>
    decreases n,
{
    if n <= 0 {
        Some(Seq::empty())
    } else {
        match record_upto(ls, n - 1) {
            None => None,
            Some(es) => {
                let line = trim(ls[n - 1]);
                if line.len() == 0 || line[0] == '#' {
                    Some(es)
                } else {
                    match split_once(line, '=') {
                        None => None,
                        Some((k, v)) => if !record_key(k) || record_keys(es).contains(k) {
                            None
                        } else {
                            Some(es.push((k, v)))
                        },
                    }
                }
            },
        }
    }
}

/// The value recorded for `k`.
pub open spec fn record_value(es: Seq<(Seq<char>, Seq<char>)>, k: Seq<char>) -> Option<Seq<char>>
    decreases es.len(),
{
    if es.len() == 0 {
        None
    } else if es.last().0 == k {
        Some(es.last().1)
    } else {
        record_value(es.drop_last(), k)
    }
}

pub open spec fn is_record_hal(h: Seq<char>) -> bool {
    h == "hidl"@ || h == "legacy-xml"@ || h == "aidl"@ || h == "mixed"@ || h == "unknown"@
}

/// What an installation record grants: version 1 with a known HAL and an
/// XML flag; an AIDL, mixed or unknown HAL, or no XML, keeps the legacy
/// controls off.
pub open spec fn parse_record_spec(record: Seq<char>) -> Option<CapsView> {
    let ls = lines(record);
    match record_upto(ls, ls.len() as int) {
        None => None,
        Some(es) => if record_value(es, "version"@) != Some("1"@) {
            None
        } else {
            match record_value(es, "audio_hal"@) {
                None => None,
                Some(hal) => if !is_record_hal(hal) {
                    None
                } else {
                    match record_value(es, "policy_xml_supported"@) {
                        None => None,
                        Some(xml) => if xml != "0"@ && xml != "1"@ {
                            None
                        } else if hal == "aidl"@ || hal == "mixed"@ || hal == "unknown"@ || xml
                            == "0"@ {
                            Some(
                                limited_spec(
                                    hal,
                                    match record_value(es, "reason"@) {
                                        Some(r) => if r.len() > 0 {
                                            r
                                        } else {
                                            "device_record_restricts_legacy_controls"@
                                        },
                                        None => "device_record_restricts_legacy_controls"@,
                                    },
                                ),
                            )
                        } else {
                            Some(CapsView { audio_hal: hal, legacy_controls: true, reason: Seq::empty() })
                        },
                    }
                },
            }
        },
    }
}

fn is_record_key(k: &str) -> (r: bool)
    ensures
        r == record_key(k@),
{
    eq_str(k, "version") || eq_str(k, "audio_hal") || eq_str(k, "policy_xml_supported") || eq_str(
        k,
        "build_fingerprint",
    ) || eq_str(k, "vendor_fingerprint") || eq_str(k, "reason")
}

pub open spec fn pairs_view(v: Seq<(String, String)>) -> Seq<(Seq<char>, Seq<char>)> {
    v.map_values(|e: (String, String)| (e.0@, e.1@))
}

fn lookup(entries: &Vec<(String, String)>, key: &str) -> (r: Option<String>)
    ensures
        match record_value(pairs_view(entries@), key@) {
            Some(v) => r matches Some(x) && x@ == v,
            None => r is None,
        },
{
    let mut n: usize = entries.len();
    assert(pairs_view(entries@).take(n as int) =~= pairs_view(entries@));
    while n > 0
        invariant
            n <= entries@.len(),
            record_value(pairs_view(entries@), key@) == record_value(
                pairs_view(entries@).take(n as int),
                key@,
            ),
        decreases n,
    {
        let ghost pre = pairs_view(entries@).take(n as int);
        assert(pre.last() == (entries@[n - 1].0@, entries@[n - 1].1@));
        assert(pre.drop_last() =~= pairs_view(entries@).take(n - 1));
        if eq_str(entries[n - 1].0.as_str(), key) {
            return Some(entries[n - 1].1.clone());
        }
        n -= 1;
    }
    None
}

fn has_record_key(entries: &Vec<(String, String)>, key: &str) -> (r: bool)
    ensures
        r == record_keys(pairs_view(entries@)).contains(key@),
{
    let mut i: usize = 0;
    while i < entries.len()
        invariant
            i <= entries@.len(),
            forall|j: int| 0 <= j < i ==> (#[trigger] entries@[j]).0@ != key@,
        decreases entries@.len() - i,
    {
        if eq_str(entries[i].0.as_str(), key) {
            assert(record_keys(pairs_view(entries@))[i as int] == key@);
            return true;
        }
        i += 1;
    }
    proof {
        if record_keys(pairs_view(entries@)).contains(key@) {
            let j = choose|j: int|
                0 <= j < record_keys(pairs_view(entries@)).len() && record_keys(
                    pairs_view(entries@),
                )[j] == key@;
            assert(entries@[j].0@ == key@);
        }
    }
    false
}

proof fn lemma_record_upto_none(ls: Seq<Seq<char>>, n: int)
    requires
        0 <= n <= ls.len(),
        record_upto(ls, n) is None,
    ensures
        record_upto(ls, ls.len() as int) is None,
    decreases ls.len() - n,
{
    if n < ls.len() {
        lemma_record_upto_none(ls, n + 1);
    }
}

/// Line `i` of a record, trimmed, is neither blank nor a comment, and is not
/// `key=value` with a key a record may hold.
pub open spec fn bad_record_line(ls: Seq<Seq<char>>, i: int) -> bool {
    let l = trim(ls[i]);
    &&& l.len() > 0
    &&& l[0] != '#'
    &&& match split_once(l, '=') {
        None => true,
        Some((k, _)) => !record_key(k),
    }
}

/// A record with a line that is neither blank, a comment, nor `key=value`
/// with a known key is refused.
pub proof fn lemma_record_bad_line_refused(record: Seq<char>, i: int)
    requires
        0 <= i < lines(record).len(),
        bad_record_line(lines(record), i),
    ensures
        parse_record_spec(record) is None,
{
    let ls = lines(record);
    assert(record_upto(ls, i + 1) is None);
    lemma_record_upto_none(ls, i + 1);
}

/// The key of line `i` of a record, when the line, trimmed, is neither
/// blank nor a comment and holds `=`.
pub open spec fn record_line_key(ls: Seq<Seq<char>>, i: int) -> Option<Seq<char>> {
    let l = trim(ls[i]);
    if l.len() > 0 && l[0] != '#' {
        match split_once(l, '=') {
            Some((k, _)) => Some(k),
            None => None,
        }
    } else {
        None
    }
}

proof fn lemma_record_key_kept(ls: Seq<Seq<char>>, n: int, i: int)
    requires
        0 <= i < n <= ls.len(),
        record_upto(ls, n) is Some,
        record_line_key(ls, i) is Some,
    ensures
        record_keys(record_upto(ls, n)->Some_0).contains(record_line_key(ls, i)->Some_0),
    decreases n,
{
    let k = record_line_key(ls, i)->Some_0;
    if n - 1 == i {
        let es0 = record_upto(ls, i)->Some_0;
        let v = split_once(trim(ls[i]), '=')->Some_0.1;
        assert(record_upto(ls, n) == Some(es0.push((k, v))));
        assert(record_keys(es0.push((k, v)))[es0.len() as int] == k);
    } else {
        lemma_record_key_kept(ls, n - 1, i);
        let es0 = record_upto(ls, n - 1)->Some_0;
        let es = record_upto(ls, n)->Some_0;
        let j = choose|j: int| 0 <= j < record_keys(es0).len() && record_keys(es0)[j] == k;
        if es != es0 {
            assert(es == es0.push(es.last()));
            assert(record_keys(es)[j] == record_keys(es0)[j]);
        }
    }
}

/// A record that names a key on two lines is refused.
pub proof fn lemma_record_repeated_key_refused(record: Seq<char>, i: int, j: int)
    requires
        0 <= i < j < lines(record).len(),
        record_line_key(lines(record), i) is Some,
        record_line_key(lines(record), i) == record_line_key(lines(record), j),
    ensures
        parse_record_spec(record) is None,
{
    let ls = lines(record);
    if record_upto(ls, j) is Some {
        lemma_record_key_kept(ls, j, i);
    }
    assert(record_upto(ls, j + 1) is None);
    lemma_record_upto_none(ls, j + 1);
}

/// A record is refused unless it is version 1, names a known HAL and an XML
/// flag of 0 or 1; it grants the legacy controls only for a HIDL or
/// legacy-XML HAL with XML support.
pub proof fn lemma_record_grants(record: Seq<char>)
    ensures
        parse_record_spec(record) is Some ==> ({
            let es = record_upto(lines(record), lines(record).len() as int)->Some_0;
            &&& record_value(es, "version"@) == Some("1"@)
            &&& record_value(es, "audio_hal"@) matches Some(h) && is_record_hal(h)
            &&& record_value(es, "policy_xml_supported"@) matches Some(x) && (x == "0"@ || x == "1"@)
        }),
        parse_record_spec(record) matches Some(c) && c.legacy_controls ==> ({
            let es = record_upto(lines(record), lines(record).len() as int)->Some_0;
            &&& (record_value(es, "audio_hal"@) == Some("hidl"@) || record_value(es, "audio_hal"@)
                == Some("legacy-xml"@))
            &&& record_value(es, "policy_xml_supported"@) == Some("1"@)
        }),
{
}

/// Reads an installation record strictly, so that a damaged record never
/// enables a control.
pub fn parse_record(record: &str) -> (r: Result<DeviceCapabilities, ()>)
    ensures
        match parse_record_spec(record@) {
            Some(c) => r matches Ok(x) && x@ == c,
            None => r is Err,
        },
{
    let ls = split_lines(record);
    let mut entries: Vec<(String, String)> = Vec::new();
    let mut i: usize = 0;
    assert(pairs_view(entries@) =~= Seq::<(Seq<char>, Seq<char>)>::empty());
    while i < ls.len()
        invariant
            i <= ls@.len(),
            views(ls@) == lines(record@),
            record_upto(lines(record@), i as int) == Some(pairs_view(entries@)),
        decreases ls@.len() - i,
    {
        assert(ls@[i as int]@ == lines(record@)[i as int]);
        let line = trim_str(ls[i].as_str());
        if !(line.as_str().is_empty() || line.as_str().get_char(0) == '#') {
            match split_once_char(line.as_str(), '=') {
                None => {
                    proof {
                        lemma_record_upto_none(lines(record@), i + 1);
                    }
                    return Err(());
                },
                Some((key, value)) => {
                    if !is_record_key(key.as_str()) || has_record_key(&entries, key.as_str()) {
                        proof {
                            lemma_record_upto_none(lines(record@), i + 1);
                        }
                        return Err(());
                    }
                    let ghost before = entries@;
                    entries.push((key, value));
                    assert(pairs_view(entries@) =~= pairs_view(before).push(
                        (entries@.last().0@, entries@.last().1@),
                    ));
                },
            }
        }
        i += 1;
    }
    assert(lines(record@).len() == ls@.len());
    let version = lookup(&entries, "version");
    match version {
        Some(v) => {
            if !eq_str(v.as_str(), "1") {
                return Err(());
            }
        },
        None => {
            return Err(());
        },
    }
    let hal = match lookup(&entries, "audio_hal") {
        Some(h) => h,
        None => {
            return Err(());
        },
    };
    let h = hal.as_str();
    if !(eq_str(h, "hidl") || eq_str(h, "legacy-xml") || eq_str(h, "aidl") || eq_str(h, "mixed")
        || eq_str(h, "unknown")) {
        return Err(());
    }
    let xml = match lookup(&entries, "policy_xml_supported") {
        Some(x) => x,
        None => {
            return Err(());
        },
    };
    if !eq_str(xml.as_str(), "0") && !eq_str(xml.as_str(), "1") {
        return Err(());
    }
    if eq_str(h, "aidl") || eq_str(h, "mixed") || eq_str(h, "unknown") || eq_str(xml.as_str(), "0") {
        let reason = match lookup(&entries, "reason") {
            Some(r) => if r.as_str().is_empty() {
                owned("device_record_restricts_legacy_controls")
            } else {
                r
            },
            None => owned("device_record_restricts_legacy_controls"),
        };
        Ok(DeviceCapabilities { audio_hal: hal, legacy_controls: false, reason })
    } else {
        Ok(DeviceCapabilities { audio_hal: hal, legacy_controls: true, reason: String::new() })
    }
}

/// The installation record of a set of capabilities.
pub open spec fn record_text(c: CapsView) -> Seq<char> {
    "version=1\naudio_hal="@ + c.audio_hal + "\npolicy_xml_supported="@ + (if c.legacy_controls {
        "1"@
    } else {
        "0"@
    }) + "\nreason="@ + c.reason + "\n"@
}

/// Writes the installation record of a set of capabilities.
pub fn render_record(caps: &DeviceCapabilities) -> (r: String)
    ensures
        r@ == record_text(caps@),
{
    let mut out = concat2("version=1\naudio_hal=", caps.audio_hal.as_str());
    push_str(&mut out, "\npolicy_xml_supported=");
    push_str(
        &mut out,
        if caps.legacy_controls {
            "1"
        } else {
            "0"
        },
    );
    push_str(&mut out, "\nreason=");
    push_str(&mut out, caps.reason.as_str());
    push_str(&mut out, "\n");
    out
}

/// Where `dumpsys media.audio_policy` says the policy was read from: the
/// text after `Config source:` on the first line, trimmed, that has it.
pub open spec fn config_source_from(ls: Seq<Seq<char>>, i: int) -> Option<Seq<char>>
    decreases ls.len() - i,
{
    if i < 0 || i >= ls.len() {
        None
    } else {
        match crate::text::strip_prefix(trim(ls[i]), "Config source:"@) {
            Some(rest) => Some(trim(rest)),
            None => config_source_from(ls, i + 1),
        }
    }
}

/// The policy file named by an audio policy dump, if any.
pub fn config_source_path(dump: &str) -> (r: Option<String>)
    ensures
        match config_source_from(lines(dump@), 0) {
            Some(p) => r matches Some(x) && x@ == p,
            None => r is None,
        },
{
    let ls = split_lines(dump);
    let mut i: usize = 0;
    while i < ls.len()
        invariant
            i <= ls@.len(),
            views(ls@) == lines(dump@),
            config_source_from(lines(dump@), 0) == config_source_from(lines(dump@), i as int),
        decreases ls@.len() - i,
    {
        assert(ls@[i as int]@ == lines(dump@)[i as int]);
        let line = trim_str(ls[i].as_str());
        if let Some(rest) = crate::text::strip_prefix_str(line.as_str(), "Config source:") {
            return Some(trim_str(rest.as_str()));
        }
        i += 1;
    }
    None
}

/// A policy path that can be the traditional policy XML: absolute and
/// ending in `.xml`; whether it is a readable file is for the caller.
pub open spec fn policy_path_shape(p: Seq<char>) -> bool {
    p.len() > 0 && p[0] == '/' && crate::text::ends_with(p, ".xml"@)
}

pub fn is_policy_path(p: &str) -> (r: bool)
    ensures
        r == policy_path_shape(p@),
{
    if p.is_empty() || p.get_char(0) != '/' {
        return false;
    }
    crate::text::strip_suffix_str(p, ".xml").is_some()
}

// ---------------------------------------------------------------------------
// Reading the installation record
// ---------------------------------------------------------------------------

/// What reading the installation record file gave.
pub enum RecordRead {
    Missing,
    Unreadable,
    Content(String),
}

/// The capabilities an installation record grants, or why there are none:
/// `device_capabilities_missing`, `device_capabilities_unreadable` or
/// `invalid_device_capabilities`.
pub fn record_outcome(read: RecordRead) -> (r: Result<DeviceCapabilities, &'static str>)
    ensures
        match read {
            RecordRead::Missing => r matches Err(m) && m@ == "device_capabilities_missing"@,
            RecordRead::Unreadable => r matches Err(m) && m@ == "device_capabilities_unreadable"@,
            RecordRead::Content(text) => match parse_record_spec(text@) {
                Some(c) => r matches Ok(x) && x@ == c,
                None => r matches Err(m) && m@ == "invalid_device_capabilities"@,
            },
        },
{
    match read {
        RecordRead::Missing => Err("device_capabilities_missing"),
        RecordRead::Unreadable => Err("device_capabilities_unreadable"),
        RecordRead::Content(text) => match parse_record(text.as_str()) {
            Ok(c) => Ok(c),
            Err(()) => Err("invalid_device_capabilities"),
        },
    }
}

/// What a read of the record settles: the record when its HAL is known,
/// the restricted capabilities with the reason when there is no record;
/// `None` while the record leaves the HAL unknown.
pub fn settled_record(read: &Result<DeviceCapabilities, &'static str>) -> (r: Option<DeviceCapabilities>)
    ensures
        match read {
            Ok(c) => if c.audio_hal@ == "unknown"@ {
                r is None
            } else {
                r matches Some(x) && x@ == c@
            },
            Err(reason) => r matches Some(x) && x@ == limited_spec("unknown"@, reason@),
        },
{
    match read {
        Ok(c) => {
            if eq_str(c.audio_hal.as_str(), "unknown") {
                None
            } else {
                Some(DeviceCapabilities {
                    audio_hal: c.audio_hal.clone(),
                    legacy_controls: c.legacy_controls,
                    reason: c.reason.clone(),
                })
            }
        },
        Err(reason) => Some(DeviceCapabilities::limited("unknown", reason)),
    }
}

/// Whether the device has finished booting and audioserver runs, from the
/// two properties read (`None` when a read failed).
pub fn audio_ready(boot_completed: Option<&str>, audioserver: Option<&str>) -> (r: bool)
    ensures
        r == ((match boot_completed {
            Some(v) => trim(v@) == "1"@,
            None => false,
        }) && (match audioserver {
            Some(v) => trim(v@) == "running"@,
            None => false,
        })),
{
    let boot = match boot_completed {
        Some(v) => eq_str(trim_str(v).as_str(), "1"),
        None => false,
    };
    let running = match audioserver {
        Some(v) => eq_str(trim_str(v).as_str(), "running"),
        None => false,
    };
    boot && running
}

/// The capabilities when the record lock cannot be taken.
pub fn retry_pending() -> (r: DeviceCapabilities)
    ensures
        r@ == limited_spec("unknown"@, "device_capabilities_retry_pending"@),
{
    DeviceCapabilities::limited("unknown", "device_capabilities_retry_pending")
}

/// What a live detection yields once its record was (or could not be)
/// saved.
pub fn after_save(resolved: DeviceCapabilities, saved: bool) -> (r: DeviceCapabilities)
    ensures
        if saved {
            r@ == resolved@
        } else {
            r@ == limited_spec("unknown"@, "device_capabilities_save_failed"@)
        },
{
    if saved {
        resolved
    } else {
        DeviceCapabilities::limited("unknown", "device_capabilities_save_failed")
    }
}

// ---------------------------------------------------------------------------
// Reading back what was written
// ---------------------------------------------------------------------------

/// A record line `key=value`, as the reader sees it.
proof fn lemma_record_line(key: Seq<char>, value: Seq<char>)
    requires
        key.len() > 0,
        crate::text::lacks(key, '='),
        crate::text::lacks(key, '\n'),
        crate::text::lacks(value, '\n'),
        !crate::text::is_ws(key[0]),
        key[0] != '#',
        value.len() == 0 || !crate::text::is_ws(value.last()),
    ensures
        crate::text::lacks(key + seq!['='] + value, '\n'),
        crate::text::strip_cr(key + seq!['='] + value) == key + seq!['='] + value,
        trim(key + seq!['='] + value) == key + seq!['='] + value,
        (key + seq!['='] + value)[0] != '#',
        split_once(key + seq!['='] + value, '=') == Some((key, value)),
{
    let l = key + seq!['='] + value;
    assert(l[0] == key[0]);
    if value.len() > 0 {
        assert(l.last() == value.last());
    } else {
        assert(l.last() == '=');
    }
    crate::text::lemma_trim_plain(l);
    assert forall|j: int| 0 <= j < l.len() implies l[j] != '\n' by {
        if j < key.len() {
            assert(l[j] == key[j]);
        } else if j > key.len() {
            assert(l[j] == value[j - key.len() - 1]);
        }
    }
    crate::text::lemma_split_once_join(key, '=', value);
}

/// A plain word: not empty, no newline, no `=`, and no whitespace at
/// either end.
pub open spec fn plain_word(w: Seq<char>) -> bool {
    &&& w.len() > 0
    &&& crate::text::lacks(w, '\n')
    &&& crate::text::lacks(w, '=')
    &&& !crate::text::is_ws(w[0])
    &&& !crate::text::is_ws(w.last())
    &&& w[0] != '#'
}

proof fn lemma_plain_words()
    ensures
        plain_word("version"@),
        plain_word("audio_hal"@),
        plain_word("policy_xml_supported"@),
        plain_word("reason"@),
        plain_word("1"@),
        plain_word("0"@),
        plain_word("hidl"@),
        plain_word("legacy-xml"@),
        plain_word("aidl"@),
        plain_word("mixed"@),
        plain_word("unknown"@),
{
    reveal_strlit("version");
    reveal_strlit("audio_hal");
    reveal_strlit("policy_xml_supported");
    reveal_strlit("reason");
    reveal_strlit("1");
    reveal_strlit("0");
    reveal_strlit("hidl");
    reveal_strlit("legacy-xml");
    reveal_strlit("aidl");
    reveal_strlit("mixed");
    reveal_strlit("unknown");
}

/// An installation record reads back as the capabilities it was written
/// from, for every set of capabilities a record can express: a known HAL;
/// the legacy controls only with a HIDL or legacy-XML HAL, and then no
/// reason; otherwise a reason on one line that does not end in whitespace.
pub proof fn lemma_record_round_trip(c: CapsView)
    requires
        is_record_hal(c.audio_hal),
        c.legacy_controls ==> (c.audio_hal == "hidl"@ || c.audio_hal == "legacy-xml"@) && c.reason.len() == 0,
        !c.legacy_controls ==> c.reason.len() > 0,
        crate::text::lacks(c.reason, '\n'),
        c.reason.len() == 0 || !crate::text::is_ws(c.reason.last()),
    ensures
        parse_record_spec(record_text(c)) == Some(c),
{
    reveal_strlit("version=1\naudio_hal=");
    reveal_strlit("\npolicy_xml_supported=");
    reveal_strlit("\nreason=");
    reveal_strlit("\n");
    reveal_strlit("version");
    reveal_strlit("audio_hal");
    reveal_strlit("policy_xml_supported");
    reveal_strlit("reason");
    reveal_strlit("1");
    reveal_strlit("0");
    lemma_plain_words();
    let hal = c.audio_hal;
    let x = if c.legacy_controls { "1"@ } else { "0"@ };
    let k0 = "version"@;
    let k1 = "audio_hal"@;
    let k2 = "policy_xml_supported"@;
    let k3 = "reason"@;
    let l0 = k0 + seq!['='] + "1"@;
    let l1 = k1 + seq!['='] + hal;
    let l2 = k2 + seq!['='] + x;
    let l3 = k3 + seq!['='] + c.reason;
    assert(record_text(c) =~= l0 + "\n"@ + (l1 + "\n"@ + (l2 + "\n"@ + (l3 + "\n"@ + Seq::<char>::empty()))));
    lemma_record_line(k0, "1"@);
    lemma_record_line(k1, hal);
    lemma_record_line(k2, x);
    lemma_record_line(k3, c.reason);
    crate::text::lemma_lines_line(l3, Seq::<char>::empty());
    crate::text::lemma_lines_line(l2, l3 + "\n"@ + Seq::<char>::empty());
    crate::text::lemma_lines_line(l1, l2 + "\n"@ + (l3 + "\n"@ + Seq::<char>::empty()));
    crate::text::lemma_lines_line(l0, l1 + "\n"@ + (l2 + "\n"@ + (l3 + "\n"@ + Seq::<char>::empty())));
    assert(lines(Seq::<char>::empty()) =~= Seq::<Seq<char>>::empty());
    let ls = lines(record_text(c));
    assert(ls =~= seq![l0, l1, l2, l3]);
    let es = seq![(k0, "1"@), (k1, hal), (k2, x), (k3, c.reason)];
    assert(k0.len() == 7 && k1.len() == 9 && k2.len() == 20 && k3.len() == 6);
    assert(record_upto(ls, 0) == Some(Seq::<(Seq<char>, Seq<char>)>::empty()));
    assert(record_keys(Seq::<(Seq<char>, Seq<char>)>::empty()) =~= Seq::<Seq<char>>::empty());
    assert(record_upto(ls, 1) == Some(es.take(1)));
    assert(record_keys(es.take(1)) =~= seq![k0]);
    assert(record_upto(ls, 2) == Some(es.take(2)));
    assert(record_keys(es.take(2)) =~= seq![k0, k1]);
    assert(record_upto(ls, 3) == Some(es.take(3)));
    assert(record_keys(es.take(3)) =~= seq![k0, k1, k2]);
    assert(record_upto(ls, 4) == Some(es));
    assert(es.drop_last() =~= es.take(3));
    assert(es.take(3).drop_last() =~= es.take(2));
    assert(es.take(2).drop_last() =~= es.take(1));
    assert(record_value(es, k3) == Some(c.reason));
    assert(record_value(es.take(3), k2) == Some(x));
    assert(record_value(es, k2) == Some(x));
    assert(record_value(es.take(2), k1) == Some(hal));
    assert(record_value(es.take(3), k1) == Some(hal));
    assert(record_value(es, k1) == Some(hal));
    assert(record_value(es.take(1), k0) == Some("1"@));
    assert(record_value(es.take(2), k0) == Some("1"@));
    assert(record_value(es.take(3), k0) == Some("1"@));
    assert(record_value(es, k0) == Some("1"@));
    reveal_strlit("hidl");
    reveal_strlit("legacy-xml");
    reveal_strlit("aidl");
    reveal_strlit("mixed");
    reveal_strlit("unknown");
    if c.legacy_controls {
        assert(c.reason =~= Seq::<char>::empty());
        assert(hal != "aidl"@ && hal != "mixed"@ && hal != "unknown"@) by {
            assert(hal.len() == 4 ==> hal[0] == 'h');
        }
        assert(x != "0"@);
    } else {
        assert(x == "0"@);
    }
}

} // verus!
