//! The text forms of `status` and `schema`: one `key=value` line per fact,
//! read by the shell scripts and by older WebUI clients.
use vstd::prelude::*;

use crate::android::A2dpState;
use crate::capabilities::{CapsView, DeviceCapabilities};
use crate::catalog::{BIT_DEPTHS, DOCUMENTED_RATES, JITTER_FEATURES, POLICIES};
use crate::domain::{opt_view, NamespaceInfo, Settings, SettingsView, StoredSettings, StoredView};
use crate::state_file::{StateSnapshot, SnapshotView};
use crate::state::bool_text;
use crate::text::{decimal, push_str, u32_to_string};

verus! {

broadcast use vstd::string::group_string_axioms;

/// `key=value` and a newline, after `o`.
pub open spec fn line(o: Seq<char>, key: Seq<char>, value: Seq<char>) -> Seq<char> {
    o + key + "="@ + value + "\n"@
}

fn push_line(out: &mut String, key: &str, value: &str)
    ensures
        final(out)@ == line(old(out)@, key@, value@),
{
    push_str(out, key);
    push_str(out, "=");
    push_str(out, value);
    push_str(out, "\n");
}

fn flag(b: bool) -> (r: &'static str)
    ensures
        r@ == bool_text(b),
{
    if b {
        "1"
    } else {
        "0"
    }
}

// ---------------------------------------------------------------------------
// Capabilities
// ---------------------------------------------------------------------------

/// The device's audio HAL and which controls it allows.
pub open spec fn capabilities_lines(o: Seq<char>, c: CapsView) -> Seq<char> {
    let f = bool_text(c.legacy_controls);
    let o1 = line(o, "audio_hal"@, c.audio_hal);
    let o2 = line(o1, "capability_mode"@, if c.legacy_controls { "full"@ } else { "limited"@ });
    let o3 = line(o2, "capability_reason"@, c.reason);
    let o4 = line(o3, "policy_available"@, f);
    let o5 = line(o4, "bluetooth_hal_available"@, f);
    line(o5, "usb_period_available"@, f)
}

pub fn push_capabilities(out: &mut String, caps: &DeviceCapabilities)
    ensures
        final(out)@ == capabilities_lines(old(out)@, caps@),
{
    let f = flag(caps.legacy_controls);
    push_line(out, "audio_hal", caps.audio_hal.as_str());
    push_line(out, "capability_mode", if caps.legacy_controls { "full" } else { "limited" });
    push_line(out, "capability_reason", caps.reason.as_str());
    push_line(out, "policy_available", f);
    push_line(out, "bluetooth_hal_available", f);
    push_line(out, "usb_period_available", f);
}

// ---------------------------------------------------------------------------
// Settings
// ---------------------------------------------------------------------------

/// The policy settings, with the Bluetooth media route's state; the
/// boolean `bluetooth_a2dp_connected` is kept for older clients and is
/// never set for an unknown state.
pub open spec fn settings_lines(o: Seq<char>, s: SettingsView, a2dp: A2dpState) -> Seq<char> {
    let o1 = line(o, "policy"@, s.policy);
    let o2 = line(o1, "sample_rate"@, decimal(s.sample_rate as nat));
    let o3 = line(o2, "bit_depth"@, s.bit_depth);
    let o4 = line(o3, "drc"@, bool_text(s.drc));
    let o5 = line(o4, "force_usbv2"@, bool_text(s.force_usbv2));
    let o6 = line(o5, "force_bluetooth_qti"@, bool_text(s.force_bluetooth_qti));
    let o7 = line(o6, "bluetooth_a2dp_state"@, a2dp.label_spec());
    let o8 = line(o7, "bluetooth_a2dp_connected"@, bool_text(a2dp == A2dpState::Connected));
    let o9 = line(o8, "amzm"@, bool_text(s.amzm));
    let o10 = line(o9, "test"@, bool_text(s.test));
    line(o10, "test_template"@, match s.test_template {
        Some(t) => t,
        None => Seq::empty(),
    })
}

pub fn push_settings(out: &mut String, s: &Settings, a2dp: A2dpState)
    ensures
        final(out)@ == settings_lines(old(out)@, s@, a2dp),
{
    push_line(out, "policy", s.policy.as_str());
    push_line(out, "sample_rate", u32_to_string(s.sample_rate).as_str());
    push_line(out, "bit_depth", s.bit_depth.as_str());
    push_line(out, "drc", flag(s.drc));
    push_line(out, "force_usbv2", flag(s.force_usbv2));
    push_line(out, "force_bluetooth_qti", flag(s.force_bluetooth_qti));
    push_line(out, "bluetooth_a2dp_state", a2dp.label());
    let connected = match a2dp {
        A2dpState::Connected => true,
        _ => false,
    };
    push_line(out, "bluetooth_a2dp_connected", flag(connected));
    push_line(out, "amzm", flag(s.amzm));
    push_line(out, "test", flag(s.test));
    match &s.test_template {
        Some(t) => push_line(out, "test_template", t.as_str()),
        None => {
            proof {
                reveal_strlit("");
            }
            push_line(out, "test_template", "");
        },
    }
}

/// Two lines per jitter feature: whether it is on and whether it was set.
pub open spec fn jitter_lines(o: Seq<char>, values: Seq<bool>, configured: Seq<bool>, n: int) -> Seq<char>
    decreases n,
{
    if n <= 0 {
        o
    } else {
        let f = JITTER_FEATURES@[n - 1]@;
        let before = jitter_lines(o, values, configured, n - 1);
        line(
            line(before, "jitter_"@ + f, bool_text(values[n - 1])),
            "jitter_"@ + f + "_configured"@,
            bool_text(configured[n - 1]),
        )
    }
}

/// The remembered settings of every feature.
pub open spec fn stored_lines(o: Seq<char>, t: StoredView, priority: bool) -> Seq<char> {
    let o1 = line(o, "policy_configured"@, bool_text(t.policy_configured));
    let o2 = line(o1, "bluetooth_hal"@, t.bluetooth_hal);
    let o3 = line(o2, "bluetooth_hal_configured"@, bool_text(t.bluetooth_hal_configured));
    let o4 = line(o3, "resampler_preset"@, t.resampler_preset);
    let o5 = line(o4, "resampler_configured"@, bool_text(t.resampler_configured));
    let o6 = line(o5, "resampler_bypass"@, t.resampler_bypass);
    let o7 = line(o6, "resampler_cheat"@, bool_text(t.resampler_cheat));
    let o8 = line(o7, "resampler_stop_band"@, decimal(t.resampler_stop_band as nat));
    let o9 = line(o8, "resampler_half_length"@, decimal(t.resampler_half_length as nat));
    let o10 = line(o9, "resampler_percent"@, decimal(t.resampler_percent as nat));
    let o11 = line(o10, "usb_period"@, decimal(t.usb_period as nat));
    let o12 = line(o11, "usb_period_configured"@, bool_text(t.usb_period_configured));
    let o13 = line(o12, "diagnostic"@, t.diagnostic);
    let o14 = line(o13, "diagnostic_all"@, bool_text(t.diagnostic_all));
    let o15 = line(o14, "io_scheduler"@, t.io_scheduler);
    let o16 = line(o15, "io_tone"@, t.io_tone);
    let o17 = line(o16, "wifi_no_restart"@, bool_text(t.wifi_no_restart));
    let o18 = line(o17, "auto_reapply"@, bool_text(t.auto_reapply));
    let o19 = line(o18, "audioserver_priority"@, bool_text(priority));
    jitter_lines(o19, t.jitter_values, t.jitter_configured, JITTER_FEATURES@.len() as int)
}

fn flag_at(v: &Vec<bool>, i: usize) -> (r: bool)
    ensures
        r == crate::domain::flag_at(v@, i as int),
{
    if i < v.len() {
        v[i]
    } else {
        false
    }
}

pub fn push_stored(out: &mut String, t: &StoredSettings, priority: bool)
    ensures
        final(out)@ == stored_lines(old(out)@, t@, priority),
{
    push_line(out, "policy_configured", flag(t.policy_configured));
    push_line(out, "bluetooth_hal", t.bluetooth_hal.as_str());
    push_line(out, "bluetooth_hal_configured", flag(t.bluetooth_hal_configured));
    push_line(out, "resampler_preset", t.resampler_preset.as_str());
    push_line(out, "resampler_configured", flag(t.resampler_configured));
    push_line(out, "resampler_bypass", t.resampler_bypass.as_str());
    push_line(out, "resampler_cheat", flag(t.resampler_cheat));
    push_line(out, "resampler_stop_band", u32_to_string(t.resampler_stop_band).as_str());
    push_line(out, "resampler_half_length", u32_to_string(t.resampler_half_length).as_str());
    push_line(out, "resampler_percent", u32_to_string(t.resampler_percent).as_str());
    push_line(out, "usb_period", u32_to_string(t.usb_period).as_str());
    push_line(out, "usb_period_configured", flag(t.usb_period_configured));
    push_line(out, "diagnostic", t.diagnostic.as_str());
    push_line(out, "diagnostic_all", flag(t.diagnostic_all));
    push_line(out, "io_scheduler", t.io_scheduler.as_str());
    push_line(out, "io_tone", t.io_tone.as_str());
    push_line(out, "wifi_no_restart", flag(t.wifi_no_restart));
    push_line(out, "auto_reapply", flag(t.auto_reapply));
    push_line(out, "audioserver_priority", flag(priority));
    let ghost o = out@;
    let features = JITTER_FEATURES;
    let mut i: usize = 0;
    while i < features.len()
        invariant
            i <= features@.len(),
            features@ == JITTER_FEATURES@,
            out@ == jitter_lines(o, t@.jitter_values, t@.jitter_configured, i as int),
        decreases features@.len() - i,
    {
        let f = features[i];
        let key = crate::text::concat2("jitter_", f);
        push_line(out, key.as_str(), flag(flag_at(&t.jitter_values, i)));
        let key2 = crate::text::concat3("jitter_", f, "_configured");
        push_line(out, key2.as_str(), flag(flag_at(&t.jitter_configured, i)));
        i += 1;
    }
}

// ---------------------------------------------------------------------------
// Templates and the schema
// ---------------------------------------------------------------------------

pub open spec fn template_lines(o: Seq<char>, t: Seq<Seq<char>>, n: int) -> Seq<char>
    decreases n,
{
    if n <= 0 {
        o
    } else {
        line(template_lines(o, t, n - 1), "template"@, t[n - 1])
    }
}

/// The policy templates, between a begin and an end line.
pub open spec fn templates_block(o: Seq<char>, t: Seq<Seq<char>>) -> Seq<char> {
    template_lines(o + "templates_begin\n"@, t, t.len() as int) + "templates_end\n"@
}

pub fn push_templates(out: &mut String, templates: &Vec<String>)
    ensures
        final(out)@ == templates_block(old(out)@, crate::text::views(templates@)),
{
    let ghost o = out@;
    push_str(out, "templates_begin\n");
    let ghost start = out@;
    let mut i: usize = 0;
    while i < templates.len()
        invariant
            i <= templates@.len(),
            out@ == template_lines(start, crate::text::views(templates@), i as int),
            start == o + "templates_begin\n"@,
        decreases templates@.len() - i,
    {
        push_line(out, "template", templates[i].as_str());
        i += 1;
    }
    push_str(out, "templates_end\n");
}

/// `<prefix><value>|<flag>|<label>` per policy.
pub open spec fn policy_lines(o: Seq<char>, n: int) -> Seq<char>
    decreases n,
{
    if n <= 0 {
        o
    } else {
        let p = POLICIES@[n - 1];
        line(policy_lines(o, n - 1), "policy"@, p.0@ + "|"@ + p.1@ + "|"@ + p.2@)
    }
}

pub open spec fn rate_lines(o: Seq<char>, n: int) -> Seq<char>
    decreases n,
{
    if n <= 0 {
        o
    } else {
        let r = DOCUMENTED_RATES@[n - 1];
        line(rate_lines(o, n - 1), "rate"@, decimal(r.0 as nat) + "|"@ + r.1@)
    }
}

pub open spec fn bit_depth_lines(o: Seq<char>, n: int) -> Seq<char>
    decreases n,
{
    if n <= 0 {
        o
    } else {
        let b = BIT_DEPTHS@[n - 1];
        line(bit_depth_lines(o, n - 1), "bit_depth"@, b.0@ + "|"@ + b.1@)
    }
}

/// The fixed switches and the reset action of the text schema.
pub open spec fn switch_text() -> Seq<char> {
    "switch=drc|--drc\nswitch=force_usbv2|--force-usbv2\nswitch=force_bluetooth_qti|--force-bluetooth-qti\nswitch=amzm|--amzm\nswitch=test|--test\naction=reset|--reset\n"@
}

/// The text schema: the capabilities, then, where the legacy controls are
/// allowed, the rates, policies, bit depths, switches and templates.
pub open spec fn schema_text(c: CapsView, templates: Seq<Seq<char>>) -> Seq<char> {
    let head = capabilities_lines(Seq::empty(), c) + "schema_version=1\n"@;
    if !c.legacy_controls {
        head
    } else {
        let o1 = policy_lines(head + "custom_rate_min=44100\ncustom_rate_max=768000\npolicies_begin\n"@, POLICIES@.len() as int)
            + "policies_end\nrates_begin\n"@;
        let o2 = rate_lines(o1, DOCUMENTED_RATES@.len() as int) + "rates_end\nbit_depths_begin\n"@;
        let o3 = bit_depth_lines(o2, BIT_DEPTHS@.len() as int) + "bit_depths_end\n"@ + switch_text();
        templates_block(o3, templates)
    }
}

/// Renders the text schema.
pub fn render_schema(caps: &DeviceCapabilities, templates: &Vec<String>) -> (r: String)
    ensures
        r@ == schema_text(caps@, crate::text::views(templates@)),
{
    let mut out = String::new();
    push_capabilities(&mut out, caps);
    push_str(&mut out, "schema_version=1\n");
    if !caps.legacy_controls {
        return out;
    }
    push_str(&mut out, "custom_rate_min=44100\ncustom_rate_max=768000\npolicies_begin\n");
    let ghost o = out@;
    let policies = POLICIES;
    let mut i: usize = 0;
    while i < policies.len()
        invariant
            i <= policies@.len(),
            policies@ == POLICIES@,
            out@ == policy_lines(o, i as int),
        decreases policies@.len() - i,
    {
        let (value, flag, label) = policies[i];
        let mut v = crate::text::concat3(value, "|", flag);
        push_str(&mut v, "|");
        push_str(&mut v, label);
        push_line(&mut out, "policy", v.as_str());
        i += 1;
    }
    push_str(&mut out, "policies_end\nrates_begin\n");
    let ghost o = out@;
    let rates = DOCUMENTED_RATES;
    let mut i: usize = 0;
    while i < rates.len()
        invariant
            i <= rates@.len(),
            rates@ == DOCUMENTED_RATES@,
            out@ == rate_lines(o, i as int),
        decreases rates@.len() - i,
    {
        let (value, label) = rates[i];
        let v = crate::text::concat3(u32_to_string(value).as_str(), "|", label);
        push_line(&mut out, "rate", v.as_str());
        i += 1;
    }
    push_str(&mut out, "rates_end\nbit_depths_begin\n");
    let ghost o = out@;
    let depths = BIT_DEPTHS;
    let mut i: usize = 0;
    while i < depths.len()
        invariant
            i <= depths@.len(),
            depths@ == BIT_DEPTHS@,
            out@ == bit_depth_lines(o, i as int),
        decreases depths@.len() - i,
    {
        let (value, label) = depths[i];
        let v = crate::text::concat3(value, "|", label);
        push_line(&mut out, "bit_depth", v.as_str());
        i += 1;
    }
    push_str(&mut out, "bit_depths_end\n");
    push_str(&mut out, "switch=drc|--drc\nswitch=force_usbv2|--force-usbv2\nswitch=force_bluetooth_qti|--force-bluetooth-qti\nswitch=amzm|--amzm\nswitch=test|--test\naction=reset|--reset\n");
    push_templates(&mut out, templates);
    out
}

// ---------------------------------------------------------------------------
// Status
// ---------------------------------------------------------------------------

/// The state's health and where it came from; reasons are kept on one
/// line.
pub open spec fn state_lines(o: Seq<char>, snap: SnapshotView) -> Seq<char> {
    let o1 = line(o, "state_degraded"@, bool_text(snap.degraded is Some));
    let o2 = match snap.degraded {
        Some(r) => line(o1, "state_degraded_reason"@, crate::entry::one_line(r)),
        None => o1,
    };
    let o3 = match snap.migrated_from {
        Some(v) => line(o2, "state_migration"@, "v"@ + decimal(v as nat) + "->v3"@),
        None => if snap.recovery_reason is Some {
            line(o2, "state_migration"@, "unversioned->v3"@)
        } else {
            o2
        },
    };
    match snap.recovery_reason {
        Some(r) => line(o3, "state_recovery_reason"@, crate::entry::one_line(r)),
        None => o3,
    }
}

fn push_state(out: &mut String, snap: &StateSnapshot)
    ensures
        final(out)@ == state_lines(old(out)@, snap@),
{
    push_line(out, "state_degraded", flag(snap.health.is_degraded()));
    match snap.health.reason() {
        Some(r) => push_line(out, "state_degraded_reason", crate::entry::single_line(r).as_str()),
        None => {},
    }
    match snap.migrated_from {
        Some(v) => {
            let text = crate::text::concat3("v", u32_to_string(v).as_str(), "->v3");
            push_line(out, "state_migration", text.as_str());
        },
        None => {
            if snap.recovery_reason.is_some() {
                push_line(out, "state_migration", "unversioned->v3");
            }
        },
    }
    match &snap.recovery_reason {
        Some(r) => push_line(out, "state_recovery_reason", crate::entry::single_line(r.as_str()).as_str()),
        None => {},
    }
}

/// An optional text, empty when absent.
pub open spec fn or_empty(o: Option<Seq<char>>) -> Seq<char> {
    match o {
        Some(t) => t,
        None => Seq::empty(),
    }
}

/// The mount namespaces, and whether the controller runs in the global one
/// (`unknown` when that cannot be told).
pub open spec fn namespace_lines(o: Seq<char>, ns: NamespaceInfo) -> Seq<char> {
    let o1 = line(o, "audioserver_pid"@, match ns.audio_pid {
        Some(p) => decimal(p as nat),
        None => Seq::empty(),
    });
    let o2 = line(o1, "self_ns"@, or_empty(opt_view(ns.self_ns)));
    let o3 = line(o2, "init_ns"@, or_empty(opt_view(ns.init_ns)));
    let o4 = line(o3, "audio_ns"@, or_empty(opt_view(ns.audio_ns)));
    line(o4, "namespace_ok"@, match ns.is_global_spec() {
        Some(true) => "1"@,
        Some(false) => "0"@,
        None => "unknown"@,
    })
}

fn text_or_empty(o: &Option<String>) -> (r: &str)
    ensures
        r@ == or_empty(opt_view(*o)),
{
    match o {
        Some(t) => t.as_str(),
        None => {
            proof {
                reveal_strlit("");
            }
            ""
        },
    }
}

fn push_namespace(out: &mut String, ns: &NamespaceInfo)
    ensures
        final(out)@ == namespace_lines(old(out)@, *ns),
{
    match ns.audio_pid {
        Some(p) => push_line(out, "audioserver_pid", u32_to_string(p).as_str()),
        None => {
            proof {
                reveal_strlit("");
            }
            push_line(out, "audioserver_pid", "");
        },
    }
    push_line(out, "self_ns", text_or_empty(&ns.self_ns));
    push_line(out, "init_ns", text_or_empty(&ns.init_ns));
    push_line(out, "audio_ns", text_or_empty(&ns.audio_ns));
    let ok = match ns.is_global() {
        Some(true) => "1",
        Some(false) => "0",
        None => "unknown",
    };
    push_line(out, "namespace_ok", ok);
}

/// The `status` report: the state, the controller, the settings, the
/// namespaces, the last operation's status as it was written, the
/// templates and the capabilities.
pub open spec fn status_text(
    snap: SnapshotView,
    script_version: Seq<char>,
    module_dir: Seq<char>,
    a2dp: A2dpState,
    priority: bool,
    ns: NamespaceInfo,
    last_status: Option<Seq<char>>,
    templates: Seq<Seq<char>>,
    caps: CapsView,
) -> Seq<char> {
    let o1 = state_lines(Seq::empty(), snap);
    let o2 = line(o1, "controller_version"@, crate::protocol::CONTROLLER_VERSION@);
    let o3 = line(o2, "last_command_log"@, crate::paths::LOG_ROOT@ + "/last-command.log"@);
    let o4 = line(o3, "script_version"@, script_version);
    let o5 = line(o4, "module_dir"@, module_dir);
    let o6 = stored_lines(settings_lines(o5, snap.settings.policy, a2dp), snap.settings, priority);
    let o7 = namespace_lines(o6, ns);
    capabilities_lines(templates_block(o7 + or_empty(last_status), templates), caps)
}

/// Renders the `status` report.
pub fn render_status(
    snap: &StateSnapshot,
    script_version: &str,
    module_dir: &str,
    a2dp: A2dpState,
    priority: bool,
    ns: &NamespaceInfo,
    last_status: &Option<String>,
    templates: &Vec<String>,
    caps: &DeviceCapabilities,
) -> (r: String)
    ensures
        r@ == status_text(
            snap@,
            script_version@,
            module_dir@,
            a2dp,
            priority,
            *ns,
            opt_view(*last_status),
            crate::text::views(templates@),
            caps@,
        ),
{
    let mut out = String::new();
    push_state(&mut out, snap);
    push_line(&mut out, "controller_version", crate::protocol::CONTROLLER_VERSION);
    let log = crate::text::concat2(crate::paths::LOG_ROOT, "/last-command.log");
    push_line(&mut out, "last_command_log", log.as_str());
    push_line(&mut out, "script_version", script_version);
    push_line(&mut out, "module_dir", module_dir);
    push_settings(&mut out, &snap.settings.policy, a2dp);
    push_stored(&mut out, &snap.settings, priority);
    push_namespace(&mut out, ns);
    push_str(&mut out, text_or_empty(last_status));
    push_templates(&mut out, templates);
    push_capabilities(&mut out, caps);
    out
}

// ---------------------------------------------------------------------------
// The upstream script's version
// ---------------------------------------------------------------------------

/// The version a line declares: `# Version: <v>`, surrounding blanks
/// dropped, when `<v>` is not empty.
pub open spec fn declared_version(l: Seq<char>) -> Option<Seq<char>> {
    match crate::text::strip_prefix(crate::text::trim(l), "# Version:"@) {
        Some(rest) => if crate::text::trim(rest).len() > 0 {
            Some(crate::text::trim(rest))
        } else {
            None
        },
        None => None,
    }
}

/// The first version declared from line `i` on.
pub open spec fn first_version(ls: Seq<Seq<char>>, i: int) -> Option<Seq<char>>
    decreases ls.len() - i,
{
    if i < 0 || i >= ls.len() {
        None
    } else {
        match declared_version(ls[i]) {
            Some(v) => Some(v),
            None => first_version(ls, i + 1),
        }
    }
}

/// The upstream script's version, `unknown` when the script could not be
/// read or declares none.
pub open spec fn script_version_spec(source: Option<Seq<char>>) -> Seq<char> {
    match source {
        Some(s) => match first_version(crate::text::lines(s), 0) {
            Some(v) => v,
            None => "unknown"@,
        },
        None => "unknown"@,
    }
}

fn line_version(l: &str) -> (r: Option<String>)
    ensures
        opt_view(r) == declared_version(l@),
{
    let t = crate::text::trim_str(l);
    match crate::text::strip_prefix_str(t.as_str(), "# Version:") {
        Some(rest) => {
            let v = crate::text::trim_str(rest.as_str());
            proof {
                reveal_strlit("");
            }
            if crate::text::eq_str(v.as_str(), "") {
                None
            } else {
                proof {
                    if v@.len() == 0 {
                        assert(v@ =~= ""@);
                    }
                }
                Some(v)
            }
        },
        None => None,
    }
}

/// Reads the version the upstream script declares.
pub fn script_version(source: Option<&str>) -> (r: String)
    ensures
        r@ == script_version_spec(match source {
            Some(s) => Some(s@),
            None => None,
        }),
{
    let s = match source {
        Some(s) => s,
        None => return crate::text::owned("unknown"),
    };
    let ls = crate::text::split_lines(s);
    let ghost lv = crate::text::lines(s@);
    let mut i: usize = 0;
    while i < ls.len()
        invariant
            i <= ls@.len(),
            crate::text::views(ls@) == lv,
            lv == crate::text::lines(s@),
            first_version(lv, 0) == first_version(lv, i as int),
            source == Some(s),
        decreases ls@.len() - i,
    {
        assert(ls@[i as int]@ == lv[i as int]);
        match line_version(ls[i].as_str()) {
            Some(v) => {
                assert(declared_version(lv[i as int]) == Some(v@));
                assert(first_version(lv, i as int) == Some(v@));
                return v;
            },
            None => {},
        }
        i += 1;
    }
    crate::text::owned("unknown")
}

// ---------------------------------------------------------------------------
// The template list
// ---------------------------------------------------------------------------

/// The template that only the dedicated generator may use; it is never
/// offered.
pub const DYNAMIC_TEMPLATE: &'static str = "offload_direct_dynamic_template.xml";

/// Whether a file name has the `xml` extension as `Path::extension` reads
/// it: a last dot, with something before it.
pub fn is_xml_name(name: &str) -> (r: bool)
    ensures
        r == (crate::text::ends_with(name@, ".xml"@) && name@.len() > 4),
{
    proof {
        reveal_strlit(".xml");
    }
    let v = crate::text::chars_of(name);
    if v.len() <= 4 {
        return false;
    }
    let r = crate::text::chars_eq(&v, v.len() - 4, v.len(), ".xml");
    assert(v@.subrange(v@.len() - 4, v@.len() as int) =~= name@.skip(name@.len() - 4));
    r
}

/// `a` sorts before `b`: the first differing character is smaller, or `a`
/// is a proper prefix of `b`. On UTF-8 text this is the byte order that
/// `String`'s `Ord` uses.
pub open spec fn name_before(a: Seq<char>, b: Seq<char>) -> bool
    decreases a.len(),
{
    if a.len() == 0 {
        b.len() > 0
    } else if b.len() == 0 {
        false
    } else if a[0] == b[0] {
        name_before(a.drop_first(), b.drop_first())
    } else {
        (a[0] as u32) < (b[0] as u32)
    }
}

pub proof fn lemma_name_before_irreflexive(a: Seq<char>)
    ensures
        !name_before(a, a),
    decreases a.len(),
{
    if a.len() > 0 {
        lemma_name_before_irreflexive(a.drop_first());
    }
}

pub proof fn lemma_name_before_transitive(a: Seq<char>, b: Seq<char>, c: Seq<char>)
    requires
        name_before(a, b),
        name_before(b, c),
    ensures
        name_before(a, c),
    decreases a.len(),
{
    if a.len() > 0 && b.len() > 0 && c.len() > 0 && a[0] == b[0] && b[0] == c[0] {
        lemma_name_before_transitive(a.drop_first(), b.drop_first(), c.drop_first());
    }
}

/// No name sorts before one that comes earlier.
pub open spec fn names_sorted(t: Seq<Seq<char>>) -> bool {
    forall|i: int, j: int| 0 <= i < j < t.len() ==> !name_before(#[trigger] t[j], #[trigger] t[i])
}

/// The templates that are offered, in the order they were found: all but
/// the dynamic one, with `/` as the separator.
pub open spec fn offered(found: Seq<Seq<char>>, n: int) -> Seq<Seq<char>>
    decreases n,
{
    if n <= 0 {
        Seq::empty()
    } else if found[n - 1] == DYNAMIC_TEMPLATE@ {
        offered(found, n - 1)
    } else {
        offered(found, n - 1).push(crate::text::replace_all(found[n - 1], "\\"@, "/"@))
    }
}

fn sorts_before(a: &str, b: &str) -> (r: bool)
    ensures
        r == name_before(a@, b@),
{
    let x = crate::text::chars_of(a);
    let y = crate::text::chars_of(b);
    let mut i: usize = 0;
    assert(a@.skip(0) =~= a@);
    assert(b@.skip(0) =~= b@);
    while i < x.len() && i < y.len() && x[i] == y[i]
        invariant
            i <= x@.len(),
            i <= y@.len(),
            x@ == a@,
            y@ == b@,
            name_before(a@, b@) == name_before(a@.skip(i as int), b@.skip(i as int)),
        decreases x@.len() - i,
    {
        let ghost u = a@.skip(i as int);
        let ghost w = b@.skip(i as int);
        assert(u.drop_first() =~= a@.skip(i + 1));
        assert(w.drop_first() =~= b@.skip(i + 1));
        i += 1;
    }
    if i == x.len() {
        i < y.len()
    } else if i == y.len() {
        false
    } else {
        (x[i] as u32) < (y[i] as u32)
    }
}

/// Where `x` goes in a sorted list: before the first name it sorts before.
fn insert_position(out: &Vec<String>, x: &str) -> (p: usize)
    ensures
        p <= out@.len(),
        forall|q: int| 0 <= q < p ==> !name_before(x@, #[trigger] crate::text::views(out@)[q]),
        p < out@.len() ==> name_before(x@, crate::text::views(out@)[p as int]),
{
    let mut p: usize = 0;
    while p < out.len()
        invariant
            p <= out@.len(),
            forall|q: int| 0 <= q < p ==> !name_before(x@, #[trigger] crate::text::views(out@)[q]),
        decreases out@.len() - p,
    {
        if sorts_before(x, out[p].as_str()) {
            return p;
        }
        p += 1;
    }
    p
}

proof fn lemma_insert_sorted(t: Seq<Seq<char>>, p: int, x: Seq<char>)
    requires
        names_sorted(t),
        0 <= p <= t.len(),
        forall|q: int| 0 <= q < p ==> !name_before(x, #[trigger] t[q]),
        p < t.len() ==> name_before(x, t[p]),
    ensures
        names_sorted(t.insert(p, x)),
{
    let r = t.insert(p, x);
    assert forall|i: int, j: int| 0 <= i < j < r.len() implies !name_before(#[trigger] r[j], #[trigger] r[i]) by {
        if j < p {
            assert(r[i] == t[i] && r[j] == t[j]);
        } else if j == p {
            assert(r[i] == t[i]);
        } else if i < p {
            assert(r[i] == t[i] && r[j] == t[j - 1]);
        } else if i == p {
            assert(r[j] == t[j - 1]);
            if name_before(t[j - 1], x) {
                lemma_name_before_transitive(t[j - 1], x, t[p]);
                if j - 1 == p {
                    lemma_name_before_irreflexive(t[p]);
                }
            }
        } else {
            assert(r[i] == t[i - 1] && r[j] == t[j - 1]);
        }
    }
}

/// The templates to offer, from the relative paths of the `.xml` files
/// found under the template directory: the dynamic template left out, `/`
/// as the separator, sorted.
pub fn template_list(found: &Vec<String>) -> (r: Vec<String>)
    ensures
        names_sorted(crate::text::views(r@)),
        crate::text::views(r@).to_multiset() == offered(crate::text::views(found@), found@.len() as int).to_multiset(),
{
    let mut out: Vec<String> = Vec::new();
    let mut i: usize = 0;
    proof {
        reveal_strlit("\\");
    }
    assert(crate::text::views(out@) =~= Seq::<Seq<char>>::empty());
    while i < found.len()
        invariant
            i <= found@.len(),
            names_sorted(crate::text::views(out@)),
            crate::text::views(out@).to_multiset() == offered(crate::text::views(found@), i as int).to_multiset(),
            "\\"@.len() > 0,
        decreases found@.len() - i,
    {
        let ghost before = crate::text::views(out@);
        assert(crate::text::views(found@)[i as int] == found@[i as int]@);
        if !crate::text::eq_str(found[i].as_str(), DYNAMIC_TEMPLATE) {
            let fixed = crate::text::replace_str(found[i].as_str(), "\\", "/");
            let p = insert_position(&out, fixed.as_str());
            out.insert(p, fixed);
            proof {
                assert(crate::text::views(out@) =~= before.insert(p as int, fixed@));
                lemma_insert_sorted(before, p as int, fixed@);
                vstd::seq_lib::to_multiset_insert(before, p as int, fixed@);
                let prev = offered(crate::text::views(found@), i as int);
                vstd::seq_lib::to_multiset_build(prev, fixed@);
            }
        }
        i += 1;
    }
    out
}

} // verus!
