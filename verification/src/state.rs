//! The persisted controller state: its strict `key=value` format (version
//! 3), the migration of older and unversioned files, and how each operation
//! changes it.
use vstd::prelude::*;

use crate::catalog::{
    canonical_preset, canonical_resampler_preset, index_from, is_listed, listed, lemma_index_from,
    position, preset_table, IO_SCHEDULERS, IO_TONES, JITTER_FEATURES, POLICIES,
    RESAMPLER_DEFAULT_PRESET, RESAMPLER_PRESET_NAMES,
};
use crate::cli::{normalize_rate_spec, normalize_sample_rate};
use crate::domain::{
    default_settings, default_stored, feature_index, flags_view, get_flag, opt_view, set_flag,
    ExtraAction, ExtraView, Settings, SettingsView, StoredSettings, StoredView,
};
use crate::text::{
    concat2, concat3, decimal, eq_str, has_char, lacks, owned, parse_u32, parse_u32_spec, push_str,
    strip_prefix, strip_prefix_str, strip_suffix, strip_suffix_str, u32_to_string,
};

verus! {

broadcast use vstd::string::group_string_axioms;

// ---------------------------------------------------------------------------
// Values
// ---------------------------------------------------------------------------

/// How a flag is written in the state file.
pub open spec fn bool_text(b: bool) -> Seq<char> {
    if b {
        "1"@
    } else {
        "0"@
    }
}

/// `1` for true, `0` for false.
pub fn bool_number(value: bool) -> (r: u8)
    ensures
        r == (if value {
            1u8
        } else {
            0u8
        }),
{
    if value {
        1
    } else {
        0
    }
}

pub open spec fn parse_bool_spec(key: Seq<char>, value: Seq<char>) -> Result<bool, Seq<char>> {
    if value == "0"@ {
        Ok(false)
    } else if value == "1"@ {
        Ok(true)
    } else {
        Err("invalid boolean state value for "@ + key + ": "@ + value)
    }
}

/// Reads a stored flag: exactly `0` or `1`.
pub fn parse_bool(key: &str, value: &str) -> (r: Result<bool, String>)
    ensures
        match r {
            Ok(b) => parse_bool_spec(key@, value@) == Ok::<bool, Seq<char>>(b),
            Err(e) => parse_bool_spec(key@, value@) == Err::<bool, Seq<char>>(e@),
        },
{
    if eq_str(value, "0") {
        Ok(false)
    } else if eq_str(value, "1") {
        Ok(true)
    } else {
        let head = concat3("invalid boolean state value for ", key, ": ");
        Err(concat2(head.as_str(), value))
    }
}

pub open spec fn validate_u32_spec(value: Seq<char>, lo: u32, hi: u32, label: Seq<char>) -> Result<
    u32,
    Seq<char>,
> {
    match parse_u32_spec(value) {
        None => Err("invalid "@ + label + ": "@ + value),
        Some(n) => if lo <= n <= hi {
            Ok(n)
        } else {
            Err(label + " out of range: "@ + decimal(n as nat))
        },
    }
}

/// Reads a stored number that must lie in `lo..=hi`.
pub fn validate_u32(value: &str, lo: u32, hi: u32, label: &str) -> (r: Result<u32, String>)
    ensures
        match r {
            Ok(n) => validate_u32_spec(value@, lo, hi, label@) == Ok::<u32, Seq<char>>(n),
            Err(e) => validate_u32_spec(value@, lo, hi, label@) == Err::<u32, Seq<char>>(e@),
        },
{
    match parse_u32(value) {
        None => {
            let head = concat3("invalid ", label, ": ");
            Err(concat2(head.as_str(), value))
        },
        Some(n) => {
            if lo <= n && n <= hi {
                Ok(n)
            } else {
                let digits = u32_to_string(n);
                Err(concat3(label, " out of range: ", digits.as_str()))
            }
        },
    }
}

/// The percent of the resampler's cutoff (at most 100) or cheat (at most
/// 200) mode lies in range.
pub open spec fn resampler_mode_spec(s: StoredView) -> Result<(), Seq<char>> {
    let maximum: u32 = if s.resampler_cheat {
        200
    } else {
        100
    };
    if 1 <= s.resampler_percent <= maximum {
        Ok(())
    } else {
        Err(
            "resampler percent out of range for "@ + (if s.resampler_cheat {
                "cheat"@
            } else {
                "cutoff"@
            }) + " mode: "@ + decimal(s.resampler_percent as nat),
        )
    }
}

pub fn validate_resampler_mode(settings: &StoredSettings) -> (r: Result<(), String>)
    ensures
        match r {
            Ok(()) => resampler_mode_spec(settings@) == Ok::<(), Seq<char>>(()),
            Err(e) => resampler_mode_spec(settings@) == Err::<(), Seq<char>>(e@),
        },
{
    let maximum: u32 = if settings.resampler_cheat {
        200
    } else {
        100
    };
    if 1 <= settings.resampler_percent && settings.resampler_percent <= maximum {
        Ok(())
    } else {
        let mode = if settings.resampler_cheat {
            "cheat"
        } else {
            "cutoff"
        };
        let head = concat3("resampler percent out of range for ", mode, " mode: ");
        let digits = u32_to_string(settings.resampler_percent);
        Err(concat2(head.as_str(), digits.as_str()))
    }
}

/// The resampler fields of the defaults, unconfigured.
pub open spec fn reset_resampler_spec(s: StoredView) -> StoredView {
    let d = default_stored();
    StoredView {
        resampler_preset: d.resampler_preset,
        resampler_configured: false,
        resampler_bypass: d.resampler_bypass,
        resampler_cheat: d.resampler_cheat,
        resampler_stop_band: d.resampler_stop_band,
        resampler_half_length: d.resampler_half_length,
        resampler_percent: d.resampler_percent,
        ..s
    }
}

/// Falls back to the canonical default preset, unconfigured.
pub fn reset_resampler_to_canonical_default(settings: &mut StoredSettings)
    ensures
        old(settings).jitter_complete() ==> final(settings).jitter_complete(),
        final(settings)@ == reset_resampler_spec(old(settings)@),
{
    let defaults = StoredSettings::default();
    settings.resampler_preset = defaults.resampler_preset;
    settings.resampler_configured = false;
    settings.resampler_bypass = defaults.resampler_bypass;
    settings.resampler_cheat = defaults.resampler_cheat;
    settings.resampler_stop_band = defaults.resampler_stop_band;
    settings.resampler_half_length = defaults.resampler_half_length;
    settings.resampler_percent = defaults.resampler_percent;
}

// ---------------------------------------------------------------------------
// Keys
// ---------------------------------------------------------------------------

/// The fixed keys of a version 3 state file, in the order they are written.
pub const FIXED_STATE_KEYS: [&'static str; 28] = [
    "version",
    "policy_configured",
    "policy",
    "sample_rate",
    "bit_depth",
    "drc",
    "force_usbv2",
    "force_bluetooth_qti",
    "amzm",
    "test",
    "test_template",
    "bluetooth_hal_configured",
    "bluetooth_hal",
    "resampler_configured",
    "resampler_preset",
    "resampler_bypass",
    "resampler_cheat",
    "resampler_stop_band",
    "resampler_half_length",
    "resampler_percent",
    "usb_period_configured",
    "usb_period",
    "diagnostic",
    "diagnostic_all",
    "io_scheduler",
    "io_tone",
    "wifi_no_restart",
    "auto_reapply",
];

/// The keys of the custom resampler group, which only count together.
pub const RESAMPLER_CUSTOM_KEYS: [&'static str; 5] = [
    "resampler_bypass",
    "resampler_cheat",
    "resampler_stop_band",
    "resampler_half_length",
    "resampler_percent",
];

/// The feature named by a per-feature key: `jitter_F` or
/// `jitter_F_configured`.
pub open spec fn jitter_key_feature(key: Seq<char>) -> Option<Seq<char>> {
    match strip_prefix(key, "jitter_"@) {
        None => None,
        Some(name) => match strip_suffix(name, "_configured"@) {
            Some(f) => Some(f),
            None => Some(name),
        },
    }
}

/// A key that a state file may hold.
pub open spec fn known_key(key: Seq<char>) -> bool {
    listed(FIXED_STATE_KEYS@, key) || (jitter_key_feature(key) matches Some(f) && listed(
        JITTER_FEATURES@,
        f,
    ))
}

/// Whether a state file may hold `key`.
pub fn is_known_state_key(key: &str) -> (r: bool)
    ensures
        r == known_key(key@),
{
    if is_listed(&FIXED_STATE_KEYS, key) {
        return true;
    }
    match strip_prefix_str(key, "jitter_") {
        None => false,
        Some(name) => match strip_suffix_str(name.as_str(), "_configured") {
            Some(f) => is_listed(&JITTER_FEATURES, f.as_str()),
            None => is_listed(&JITTER_FEATURES, name.as_str()),
        },
    }
}

/// The per-feature keys, value then configured flag for each feature.
pub open spec fn jitter_keys() -> Seq<Seq<char>> {
    Seq::new(
        22,
        |i: int|
            if i % 2 == 0 {
                "jitter_"@ + JITTER_FEATURES[i / 2]@
            } else {
                "jitter_"@ + JITTER_FEATURES[i / 2]@ + "_configured"@
            },
    )
}

/// Every key a complete version 3 file holds, in order.
pub open spec fn required_keys() -> Seq<Seq<char>> {
    Seq::new(28, |i: int| FIXED_STATE_KEYS[i]@) + jitter_keys()
}

/// The keys a complete version 3 file must hold.
pub fn required_state_keys() -> (r: Vec<String>)
    ensures
        crate::text::views(r@) == required_keys(),
{
    let mut keys: Vec<String> = Vec::new();
    let fixed = FIXED_STATE_KEYS;
    let mut i: usize = 0;
    while i < 28
        invariant
            i <= 28,
            fixed == FIXED_STATE_KEYS,
            crate::text::views(keys@) == Seq::new(i as nat, |j: int| FIXED_STATE_KEYS[j]@),
        decreases 28 - i,
    {
        let ghost before = keys@;
        keys.push(owned(fixed[i]));
        assert(crate::text::views(keys@) =~= crate::text::views(before).push(FIXED_STATE_KEYS[i as int]@));
        assert(crate::text::views(keys@) =~= Seq::new((i + 1) as nat, |j: int| FIXED_STATE_KEYS[j]@));
        i += 1;
    }
    let features = JITTER_FEATURES;
    let mut k: usize = 0;
    while k < 11
        invariant
            k <= 11,
            features == JITTER_FEATURES,
            crate::text::views(keys@) == Seq::new(28, |j: int| FIXED_STATE_KEYS[j]@)
                + jitter_keys().take(2 * k),
        decreases 11 - k,
    {
        let ghost before = keys@;
        keys.push(concat2("jitter_", features[k]));
        keys.push(concat3("jitter_", features[k], "_configured"));
        assert(crate::text::views(keys@) =~= crate::text::views(before).push(
            "jitter_"@ + JITTER_FEATURES[k as int]@,
        ).push("jitter_"@ + JITTER_FEATURES[k as int]@ + "_configured"@));
        assert(jitter_keys().take(2 * k + 2) =~= jitter_keys().take(2 * k).push(
            "jitter_"@ + JITTER_FEATURES[k as int]@,
        ).push("jitter_"@ + JITTER_FEATURES[k as int]@ + "_configured"@));
        assert(crate::text::views(keys@) =~= Seq::new(28, |j: int| FIXED_STATE_KEYS[j]@)
            + jitter_keys().take(2 * k + 2));
        k += 1;
    }
    assert(jitter_keys().take(22) =~= jitter_keys());
    keys
}

// ---------------------------------------------------------------------------
// Applying one stored value
// ---------------------------------------------------------------------------

pub open spec fn is_bluetooth_hal(v: Seq<char>) -> bool {
    v == "aosp"@ || v == "legacy"@ || v == "offload"@ || v == "sysbta"@
}

pub open spec fn is_bypass(v: Seq<char>) -> bool {
    v == "none"@ || v == "48"@ || v == "96"@
}

pub open spec fn is_diagnostic(v: Seq<char>) -> bool {
    v == "audio"@ || v == "bluetooth"@ || v == "config"@ || v == "alsa"@
}

pub open spec fn is_policy(v: Seq<char>) -> bool {
    exists|i: int| 0 <= i < 22 && #[trigger] POLICIES[i].0@ == v
}

/// A preset name that may be stored: a catalog preset or `custom`.
pub open spec fn is_stored_preset(v: Seq<char>) -> bool {
    v == "custom"@ || preset_table(v) is Some
}

/// The effect of an entry of the policy's settings, `None` for another key.
pub open spec fn settings_value_spec(p: SettingsView, key: Seq<char>, value: Seq<char>) -> Option<
    Result<SettingsView, Seq<char>>,
> {
    if key == "policy"@ {
        Some(
            if is_policy(value) {
                Ok(SettingsView { policy: value, ..p })
            } else {
                Err("unsupported policy in state: "@ + value)
            },
        )
    } else if key == "sample_rate"@ {
        Some(
            match parse_u32_spec(value) {
                None => Err("invalid state sample rate: "@ + value),
                Some(_) => match normalize_rate_spec(value) {
                    Ok(n) => Ok(SettingsView { sample_rate: n, ..p }),
                    Err(e) => Err("invalid state sample rate: "@ + e),
                },
            },
        )
    } else if key == "bit_depth"@ {
        Some(
            if crate::catalog::is_bit_depth(value) {
                Ok(SettingsView { bit_depth: value, ..p })
            } else {
                Err("unsupported bit depth in state: "@ + value)
            },
        )
    } else if key == "test_template"@ {
        Some(
            if !lacks(value, '\n') || !lacks(value, '\r') {
                Err("invalid test template in state"@)
            } else {
                Ok(
                    SettingsView {
                        test_template: if value.len() == 0 {
                            None
                        } else {
                            Some(value)
                        },
                        ..p
                    },
                )
            },
        )
    } else {
        settings_flag_spec(p, key, value)
    }
}

/// The effect of an entry holding one of the policy's flags, `None` for
/// another key.
pub open spec fn settings_flag_spec(p: SettingsView, key: Seq<char>, value: Seq<char>) -> Option<
    Result<SettingsView, Seq<char>>,
> {
    let flag = parse_bool_spec(key, value);
    if key == "drc"@ {
        Some(
            match flag {
                Ok(b) => Ok(SettingsView { drc: b, ..p }),
                Err(e) => Err(e),
            },
        )
    } else if key == "force_usbv2"@ {
        Some(
            match flag {
                Ok(b) => Ok(SettingsView { force_usbv2: b, ..p }),
                Err(e) => Err(e),
            },
        )
    } else if key == "force_bluetooth_qti"@ {
        Some(
            match flag {
                Ok(b) => Ok(SettingsView { force_bluetooth_qti: b, ..p }),
                Err(e) => Err(e),
            },
        )
    } else if key == "amzm"@ {
        Some(
            match flag {
                Ok(b) => Ok(SettingsView { amzm: b, ..p }),
                Err(e) => Err(e),
            },
        )
    } else if key == "test"@ {
        Some(
            match flag {
                Ok(b) => Ok(SettingsView { test: b, ..p }),
                Err(e) => Err(e),
            },
        )
    } else {
        None
    }
}

/// The effect of an entry of the policy group on the whole state, `None`
/// for another key.
pub open spec fn policy_value_spec(s: StoredView, key: Seq<char>, value: Seq<char>) -> Option<
    Result<StoredView, Seq<char>>,
> {
    if key == "policy_configured"@ {
        Some(
            match parse_bool_spec(key, value) {
                Ok(b) => Ok(StoredView { policy_configured: b, ..s }),
                Err(e) => Err(e),
            },
        )
    } else {
        match settings_value_spec(s.policy, key, value) {
            Some(Ok(p)) => Some(Ok(StoredView { policy: p, ..s })),
            Some(Err(e)) => Some(Err(e)),
            None => None,
        }
    }
}

/// The effect of an entry of the Bluetooth and resampler group, `None` for
/// another key.
pub open spec fn resampler_value_spec(s: StoredView, key: Seq<char>, value: Seq<char>) -> Option<
    Result<StoredView, Seq<char>>,
> {
    if key == "bluetooth_hal_configured"@ {
        Some(
            match parse_bool_spec(key, value) {
                Ok(b) => Ok(StoredView { bluetooth_hal_configured: b, ..s }),
                Err(e) => Err(e),
            },
        )
    } else if key == "bluetooth_hal"@ {
        Some(
            if is_bluetooth_hal(value) {
                Ok(StoredView { bluetooth_hal: value, ..s })
            } else {
                Err("unsupported Bluetooth HAL in state: "@ + value)
            },
        )
    } else if key == "resampler_configured"@ {
        Some(
            match parse_bool_spec(key, value) {
                Ok(b) => Ok(StoredView { resampler_configured: b, ..s }),
                Err(e) => Err(e),
            },
        )
    } else if key == "resampler_preset"@ {
        let canonical = canonical_preset(value);
        Some(
            if !is_stored_preset(canonical) {
                Err("unsupported resampler preset in state: "@ + value)
            } else {
                Ok(StoredView { resampler_preset: canonical, ..s })
            },
        )
    } else if key == "resampler_bypass"@ {
        Some(
            if is_bypass(value) {
                Ok(StoredView { resampler_bypass: value, ..s })
            } else {
                Err("unsupported resampler bypass in state: "@ + value)
            },
        )
    } else if key == "resampler_cheat"@ {
        Some(
            match parse_bool_spec(key, value) {
                Ok(b) => Ok(StoredView { resampler_cheat: b, ..s }),
                Err(e) => Err(e),
            },
        )
    } else if key == "resampler_stop_band"@ {
        Some(
            match validate_u32_spec(value, 20, 242, "resampler stop band"@) {
                Ok(n) => Ok(StoredView { resampler_stop_band: n, ..s }),
                Err(e) => Err(e),
            },
        )
    } else if key == "resampler_half_length"@ {
        Some(
            match validate_u32_spec(value, 8, 640, "resampler half length"@) {
                Ok(n) => if n % 8 != 0 {
                    Err("resampler half length is not a multiple of 8: "@ + decimal(n as nat))
                } else {
                    Ok(StoredView { resampler_half_length: n, ..s })
                },
                Err(e) => Err(e),
            },
        )
    } else if key == "resampler_percent"@ {
        Some(
            match validate_u32_spec(value, 1, 200, "resampler percent"@) {
                Ok(n) => Ok(StoredView { resampler_percent: n, ..s }),
                Err(e) => Err(e),
            },
        )
    } else {
        None
    }
}

/// The effect of an entry of the USB, diagnostic and jitter option group,
/// `None` for another key.
pub open spec fn device_value_spec(s: StoredView, key: Seq<char>, value: Seq<char>) -> Option<
    Result<StoredView, Seq<char>>,
> {
    if key == "usb_period_configured"@ {
        Some(
            match parse_bool_spec(key, value) {
                Ok(b) => Ok(StoredView { usb_period_configured: b, ..s }),
                Err(e) => Err(e),
            },
        )
    } else if key == "usb_period"@ {
        Some(
            match validate_u32_spec(value, 125, 50_000, "USB period"@) {
                Ok(n) => if n % 125 != 0 {
                    Err("USB period is not a multiple of 125: "@ + decimal(n as nat))
                } else {
                    Ok(StoredView { usb_period: n, ..s })
                },
                Err(e) => Err(e),
            },
        )
    } else if key == "diagnostic"@ {
        Some(
            if is_diagnostic(value) {
                Ok(StoredView { diagnostic: value, ..s })
            } else {
                Err("unsupported diagnostic in state: "@ + value)
            },
        )
    } else if key == "diagnostic_all"@ {
        Some(
            match parse_bool_spec(key, value) {
                Ok(b) => Ok(StoredView { diagnostic_all: b, ..s }),
                Err(e) => Err(e),
            },
        )
    } else if key == "io_scheduler"@ {
        Some(
            if listed(IO_SCHEDULERS@, value) {
                Ok(StoredView { io_scheduler: value, ..s })
            } else {
                Err("unsupported I/O scheduler in state: "@ + value)
            },
        )
    } else if key == "io_tone"@ {
        Some(
            if listed(IO_TONES@, value) {
                Ok(StoredView { io_tone: value, ..s })
            } else {
                Err("unsupported I/O tone in state: "@ + value)
            },
        )
    } else if key == "wifi_no_restart"@ {
        Some(
            match parse_bool_spec(key, value) {
                Ok(b) => Ok(StoredView { wifi_no_restart: b, ..s }),
                Err(e) => Err(e),
            },
        )
    } else if key == "auto_reapply"@ {
        Some(
            match parse_bool_spec(key, value) {
                Ok(b) => Ok(StoredView { auto_reapply: b, ..s }),
                Err(e) => Err(e),
            },
        )
    } else {
        None
    }
}

/// The effect of one `key=value` entry on the state.
pub open spec fn apply_value_spec(s: StoredView, key: Seq<char>, value: Seq<char>) -> Result<
    StoredView,
    Seq<char>,
> {
    if key == "version"@ {
        Ok(s)
    } else {
        match policy_value_spec(s, key, value) {
            Some(r) => r,
            None => match resampler_value_spec(s, key, value) {
                Some(r) => r,
                None => match device_value_spec(s, key, value) {
                    Some(r) => r,
                    None => apply_jitter_value_spec(s, key, value),
                },
            },
        }
    }
}

/// The effect of a per-feature entry.
pub open spec fn apply_jitter_value_spec(s: StoredView, key: Seq<char>, value: Seq<char>) -> Result<
    StoredView,
    Seq<char>,
> {
    let configured_feature = match strip_prefix(key, "jitter_"@) {
        Some(name) => strip_suffix(name, "_configured"@),
        None => None,
    };
    let value_feature = strip_prefix(key, "jitter_"@);
    if configured_feature is Some && listed(JITTER_FEATURES@, configured_feature->0) {
        match parse_bool_spec(key, value) {
            Ok(b) => Ok(
                StoredView {
                    jitter_configured: s.jitter_configured.update(
                        feature_index(configured_feature->0)->0,
                        b,
                    ),
                    ..s
                },
            ),
            Err(e) => Err(e),
        }
    } else if value_feature is Some && listed(JITTER_FEATURES@, value_feature->0) {
        match parse_bool_spec(key, value) {
            Ok(b) => Ok(
                StoredView {
                    jitter_values: s.jitter_values.update(feature_index(value_feature->0)->0, b),
                    ..s
                },
            ),
            Err(e) => Err(e),
        }
    } else {
        Err("unknown state key: "@ + key)
    }
}

fn listed_index(list: &[&'static str], s: &str) -> (r: Option<usize>)
    ensures
        r is Some <==> listed(list@, s@),
        r matches Some(k) ==> index_from(list@, s@, 0) == Some(k as int) && k < list@.len(),
{
    let r = position(list, s);
    proof {
        lemma_index_from(list@, s@, 0);
    }
    r
}

fn apply_jitter_value(settings: &mut StoredSettings, key: &str, value: &str) -> (r: Result<
    (),
    String,
>)
    ensures
        old(settings).jitter_complete() ==> final(settings).jitter_complete(),
        match apply_jitter_value_spec(old(settings)@, key@, value@) {
            Ok(n) => r is Ok && final(settings)@ == n,
            Err(e) => (r matches Err(m) && m@ == e) && final(settings)@ == old(settings)@,
        },
{
    let name = strip_prefix_str(key, "jitter_");
    if let Some(name) = name {
        if let Some(f) = strip_suffix_str(name.as_str(), "_configured") {
            if let Some(i) = listed_index(&JITTER_FEATURES, f.as_str()) {
                proof { lemma_index_from(JITTER_FEATURES@, f@, 0); }
                let b = parse_bool(key, value)?;
                set_flag(&mut settings.jitter_configured, i, b);
                return Ok(());
            }
        }
        if let Some(i) = listed_index(&JITTER_FEATURES, name.as_str()) {
            proof { lemma_index_from(JITTER_FEATURES@, name@, 0); }
            let b = parse_bool(key, value)?;
            set_flag(&mut settings.jitter_values, i, b);
            return Ok(());
        }
    }
    Err(concat2("unknown state key: ", key))
}

fn set_bool_field(key: &str, value: &str, field: &mut bool) -> (r: Result<(), String>)
    ensures
        match parse_bool_spec(key@, value@) {
            Ok(b) => r is Ok && *final(field) == b,
            Err(e) => (r matches Err(m) && m@ == e) && *final(field) == *old(field),
        },
{
    let b = parse_bool(key, value)?;
    *field = b;
    Ok(())
}

fn policy_known(value: &str) -> (r: bool)
    ensures
        r == is_policy(value@),
{
    let table = POLICIES;
    let mut i: usize = 0;
    while i < 22
        invariant
            i <= 22,
            table == POLICIES,
            forall|j: int| 0 <= j < i ==> POLICIES[j].0@ != value@,
        decreases 22 - i,
    {
        if eq_str(table[i].0, value) {
            return true;
        }
        i += 1;
    }
    false
}

fn preset_known(name: &str) -> (r: bool)
    ensures
        r == (preset_table(name@) is Some),
{
    eq_str(name, "159-480-92") || eq_str(name, "165-360-104") || eq_str(name, "179-408-99")
        || eq_str(name, "194-520-100") || eq_str(name, "ultra-hifi") || eq_str(name, "cheap-44")
        || eq_str(name, "cheap-44-low") || eq_str(name, "cheap-48") || eq_str(
        name,
        "cheap-48-low",
    ) || eq_str(name, "cheap-96") || eq_str(name, "mock-dac-a") || eq_str(name, "mock-dac-b")
        || eq_str(name, "mock-dac-c") || eq_str(name, "mock-mastering")
}

/// Applies one `key=value` entry of a state file; on an error the state is
/// left as it was.
/// The outcome of an entry handled by a group: `None` when the key is not
/// the group's, and the value then unchanged.
pub open spec fn group_outcome<V>(
    spec: Option<Result<V, Seq<char>>>,
    r: Option<Result<(), String>>,
    before: V,
    after: V,
) -> bool {
    match spec {
        None => r is None && after == before,
        Some(Ok(n)) => (r matches Some(Ok(_))) && after == n,
        Some(Err(e)) => (r matches Some(Err(m)) && m@ == e) && after == before,
    }
}

fn apply_settings_flag(policy: &mut Settings, key: &str, value: &str) -> (r: Option<
    Result<(), String>,
>)
    ensures
        group_outcome(settings_flag_spec(old(policy)@, key@, value@), r, old(policy)@, final(policy)@),
{
    if eq_str(key, "drc") {
        Some(set_bool_field(key, value, &mut policy.drc))
    } else if eq_str(key, "force_usbv2") {
        Some(set_bool_field(key, value, &mut policy.force_usbv2))
    } else if eq_str(key, "force_bluetooth_qti") {
        Some(set_bool_field(key, value, &mut policy.force_bluetooth_qti))
    } else if eq_str(key, "amzm") {
        Some(set_bool_field(key, value, &mut policy.amzm))
    } else if eq_str(key, "test") {
        Some(set_bool_field(key, value, &mut policy.test))
    } else {
        None
    }
}

fn apply_settings_value(policy: &mut Settings, key: &str, value: &str) -> (r: Option<
    Result<(), String>,
>)
    ensures
        group_outcome(settings_value_spec(old(policy)@, key@, value@), r, old(policy)@, final(policy)@),
{
    if eq_str(key, "policy") {
        if policy_known(value) {
            policy.policy = owned(value);
            Some(Ok(()))
        } else {
            Some(Err(concat2("unsupported policy in state: ", value)))
        }
    } else if eq_str(key, "sample_rate") {
        if parse_u32(value).is_none() {
            return Some(Err(concat2("invalid state sample rate: ", value)));
        }
        match normalize_sample_rate(value) {
            Ok(n) => {
                policy.sample_rate = n;
                Some(Ok(()))
            },
            Err(e) => Some(Err(concat2("invalid state sample rate: ", e.as_str()))),
        }
    } else if eq_str(key, "bit_depth") {
        if crate::catalog::bit_depth_supported(value) {
            policy.bit_depth = owned(value);
            Some(Ok(()))
        } else {
            Some(Err(concat2("unsupported bit depth in state: ", value)))
        }
    } else if eq_str(key, "test_template") {
        if has_char(value, '\n') || has_char(value, '\r') {
            return Some(Err(owned("invalid test template in state")));
        }
        policy.test_template = if value.is_empty() {
            None
        } else {
            Some(owned(value))
        };
        Some(Ok(()))
    } else {
        apply_settings_flag(policy, key, value)
    }
}

fn apply_policy_value(settings: &mut StoredSettings, key: &str, value: &str) -> (r: Option<
    Result<(), String>,
>)
    ensures
        old(settings).jitter_complete() ==> final(settings).jitter_complete(),
        group_outcome(policy_value_spec(old(settings)@, key@, value@), r, old(settings)@, final(settings)@),
{
    if eq_str(key, "policy_configured") {
        Some(set_bool_field(key, value, &mut settings.policy_configured))
    } else {
        apply_settings_value(&mut settings.policy, key, value)
    }
}

#[verifier::rlimit(40)]
fn apply_resampler_value(settings: &mut StoredSettings, key: &str, value: &str) -> (r: Option<
    Result<(), String>,
>)
    ensures
        old(settings).jitter_complete() ==> final(settings).jitter_complete(),
        group_outcome(resampler_value_spec(old(settings)@, key@, value@), r, old(settings)@, final(settings)@),
{
    if eq_str(key, "bluetooth_hal_configured") {
        Some(set_bool_field(key, value, &mut settings.bluetooth_hal_configured))
    } else if eq_str(key, "bluetooth_hal") {
        if eq_str(value, "aosp") || eq_str(value, "legacy") || eq_str(value, "offload") || eq_str(
            value,
            "sysbta",
        ) {
            settings.bluetooth_hal = owned(value);
            Some(Ok(()))
        } else {
            Some(Err(concat2("unsupported Bluetooth HAL in state: ", value)))
        }
    } else if eq_str(key, "resampler_configured") {
        Some(set_bool_field(key, value, &mut settings.resampler_configured))
    } else if eq_str(key, "resampler_preset") {
        let canonical = canonical_resampler_preset(value);
        if !eq_str(canonical, "custom") && !preset_known(canonical) {
            return Some(Err(concat2("unsupported resampler preset in state: ", value)));
        }
        settings.resampler_preset = owned(canonical);
        Some(Ok(()))
    } else if eq_str(key, "resampler_bypass") {
        if eq_str(value, "none") || eq_str(value, "48") || eq_str(value, "96") {
            settings.resampler_bypass = owned(value);
            Some(Ok(()))
        } else {
            Some(Err(concat2("unsupported resampler bypass in state: ", value)))
        }
    } else if eq_str(key, "resampler_cheat") {
        Some(set_bool_field(key, value, &mut settings.resampler_cheat))
    } else if eq_str(key, "resampler_stop_band") {
        match validate_u32(value, 20, 242, "resampler stop band") {
            Ok(n) => {
                settings.resampler_stop_band = n;
                Some(Ok(()))
            },
            Err(e) => Some(Err(e)),
        }
    } else if eq_str(key, "resampler_half_length") {
        match validate_u32(value, 8, 640, "resampler half length") {
            Ok(n) => {
                if n % 8 != 0 {
                    let digits = u32_to_string(n);
                    return Some(
                        Err(
                            concat2(
                                "resampler half length is not a multiple of 8: ",
                                digits.as_str(),
                            ),
                        ),
                    );
                }
                settings.resampler_half_length = n;
                Some(Ok(()))
            },
            Err(e) => Some(Err(e)),
        }
    } else if eq_str(key, "resampler_percent") {
        match validate_u32(value, 1, 200, "resampler percent") {
            Ok(n) => {
                settings.resampler_percent = n;
                Some(Ok(()))
            },
            Err(e) => Some(Err(e)),
        }
    } else {
        None
    }
}

#[verifier::rlimit(40)]
fn apply_device_value(settings: &mut StoredSettings, key: &str, value: &str) -> (r: Option<
    Result<(), String>,
>)
    ensures
        old(settings).jitter_complete() ==> final(settings).jitter_complete(),
        group_outcome(device_value_spec(old(settings)@, key@, value@), r, old(settings)@, final(settings)@),
{
    if eq_str(key, "usb_period_configured") {
        Some(set_bool_field(key, value, &mut settings.usb_period_configured))
    } else if eq_str(key, "usb_period") {
        match validate_u32(value, 125, 50_000, "USB period") {
            Ok(n) => {
                if n % 125 != 0 {
                    let digits = u32_to_string(n);
                    return Some(
                        Err(concat2("USB period is not a multiple of 125: ", digits.as_str())),
                    );
                }
                settings.usb_period = n;
                Some(Ok(()))
            },
            Err(e) => Some(Err(e)),
        }
    } else if eq_str(key, "diagnostic") {
        if eq_str(value, "audio") || eq_str(value, "bluetooth") || eq_str(value, "config")
            || eq_str(value, "alsa") {
            settings.diagnostic = owned(value);
            Some(Ok(()))
        } else {
            Some(Err(concat2("unsupported diagnostic in state: ", value)))
        }
    } else if eq_str(key, "diagnostic_all") {
        Some(set_bool_field(key, value, &mut settings.diagnostic_all))
    } else if eq_str(key, "io_scheduler") {
        if is_listed(&IO_SCHEDULERS, value) {
            settings.io_scheduler = owned(value);
            Some(Ok(()))
        } else {
            Some(Err(concat2("unsupported I/O scheduler in state: ", value)))
        }
    } else if eq_str(key, "io_tone") {
        if is_listed(&IO_TONES, value) {
            settings.io_tone = owned(value);
            Some(Ok(()))
        } else {
            Some(Err(concat2("unsupported I/O tone in state: ", value)))
        }
    } else if eq_str(key, "wifi_no_restart") {
        Some(set_bool_field(key, value, &mut settings.wifi_no_restart))
    } else if eq_str(key, "auto_reapply") {
        Some(set_bool_field(key, value, &mut settings.auto_reapply))
    } else {
        None
    }
}

/// Applies one `key=value` entry of a state file; on an error the state is
/// left as it was.
pub fn apply_state_value(settings: &mut StoredSettings, key: &str, value: &str) -> (r: Result<
    (),
    String,
>)
    ensures
        old(settings).jitter_complete() ==> final(settings).jitter_complete(),
        match apply_value_spec(old(settings)@, key@, value@) {
            Ok(n) => r is Ok && final(settings)@ == n,
            Err(e) => (r matches Err(m) && m@ == e) && final(settings)@ == old(settings)@,
        },
{
    if eq_str(key, "version") {
        return Ok(());
    }
    if let Some(r) = apply_policy_value(settings, key, value) {
        return r;
    }
    if let Some(r) = apply_resampler_value(settings, key, value) {
        return r;
    }
    if let Some(r) = apply_device_value(settings, key, value) {
        return r;
    }
    apply_jitter_value(settings, key, value)
}

// ---------------------------------------------------------------------------
// What each operation records
// ---------------------------------------------------------------------------

/// The eleven flags with the first `n` set to `value` and the rest kept.
pub open spec fn flags_with_prefix(flags: Seq<bool>, n: int, value: bool) -> Seq<bool> {
    Seq::new(11, |i: int| if i < n { value } else { flags[i] })
}

/// What a `jitter enable|disable FEATURE` records. `all` enables the base
/// features and disables every feature, recording each as configured only
/// when enabled.
pub open spec fn jitter_set_spec(
    s: StoredView,
    enabled: bool,
    feature: Seq<char>,
    scheduler: Option<Seq<char>>,
    tone: Option<Seq<char>>,
    wifi_no_restart: bool,
) -> StoredView {
    if feature == "all"@ {
        let n: int = if enabled {
            9
        } else {
            11
        };
        StoredView {
            jitter_values: flags_with_prefix(s.jitter_values, n, enabled),
            jitter_configured: flags_with_prefix(s.jitter_configured, n, enabled),
            ..s
        }
    } else {
        let marked = match feature_index(feature) {
            Some(i) => StoredView {
                jitter_values: s.jitter_values.update(i, enabled),
                jitter_configured: s.jitter_configured.update(i, true),
                ..s
            },
            None => s,
        };
        let io = if feature == "io"@ && enabled {
            StoredView {
                io_scheduler: match scheduler {
                    Some(x) => x,
                    None => "*"@,
                },
                io_tone: match tone {
                    Some(x) => x,
                    None => "medium"@,
                },
                ..marked
            }
        } else {
            marked
        };
        if feature == "wifi"@ {
            StoredView { wifi_no_restart: enabled && wifi_no_restart, ..io }
        } else {
            io
        }
    }
}

/// The state after an Extras action, and whether it changed what is
/// persisted: queries of status change nothing.
pub open spec fn update_extra_spec(s: StoredView, a: ExtraView) -> (StoredView, bool) {
    match a {
        ExtraView::BluetoothHal { action } => if action == "status"@ {
            (s, false)
        } else if action == "reset"@ {
            (
                StoredView {
                    bluetooth_hal: default_stored().bluetooth_hal,
                    bluetooth_hal_configured: false,
                    ..s
                },
                true,
            )
        } else {
            (StoredView { bluetooth_hal: action, bluetooth_hal_configured: true, ..s }, true)
        },
        ExtraView::ResamplerStatus => (s, false),
        ExtraView::UsbPeriodStatus => (s, false),
        ExtraView::JitterStatus => (s, false),
        ExtraView::ResamplerReset => (reset_resampler_spec(s), true),
        ExtraView::ResamplerPreset { preset } => (
            StoredView {
                resampler_preset: canonical_preset(preset),
                resampler_configured: true,
                ..s
            },
            true,
        ),
        ExtraView::ResamplerCustom { bypass, cheat, stop_band, half_length, percent } => (
            StoredView {
                resampler_preset: "custom"@,
                resampler_bypass: bypass,
                resampler_cheat: cheat,
                resampler_stop_band: stop_band,
                resampler_half_length: half_length,
                resampler_percent: percent,
                resampler_configured: true,
                ..s
            },
            true,
        ),
        ExtraView::UsbPeriodReset => (
            StoredView {
                usb_period: default_stored().usb_period,
                usb_period_configured: false,
                ..s
            },
            true,
        ),
        ExtraView::UsbPeriodSet { period } => (
            StoredView { usb_period: period, usb_period_configured: true, ..s },
            true,
        ),
        ExtraView::JitterSet { enabled, feature, scheduler, tone, wifi_no_restart } => (
            jitter_set_spec(s, enabled, feature, scheduler, tone, wifi_no_restart),
            true,
        ),
        ExtraView::Diagnose { kind, all } => (
            StoredView { diagnostic: kind, diagnostic_all: all, ..s },
            true,
        ),
    }
}

fn set_leading_flags(settings: &mut StoredSettings, n: usize, value: bool)
    requires
        n <= 11,
    ensures
        old(settings).jitter_complete() ==> final(settings).jitter_complete(),
        final(settings)@ == (StoredView {
            jitter_values: flags_with_prefix(old(settings)@.jitter_values, n as int, value),
            jitter_configured: flags_with_prefix(old(settings)@.jitter_configured, n as int, value),
            ..old(settings)@
        }),
{
    let mut i: usize = 0;
    assert(flags_with_prefix(old(settings)@.jitter_values, 0, value) =~= old(settings)@.jitter_values);
    assert(flags_with_prefix(old(settings)@.jitter_configured, 0, value) =~= old(settings)@.jitter_configured);
    while i < n
        invariant
            i <= n <= 11,
            old(settings).jitter_complete() ==> settings.jitter_complete(),
            settings@ == (StoredView {
                jitter_values: flags_with_prefix(old(settings)@.jitter_values, i as int, value),
                jitter_configured: flags_with_prefix(
                    old(settings)@.jitter_configured,
                    i as int,
                    value,
                ),
                ..old(settings)@
            }),
        decreases n - i,
    {
        set_flag(&mut settings.jitter_values, i, value);
        set_flag(&mut settings.jitter_configured, i, value);
        assert(flags_with_prefix(old(settings)@.jitter_values, i as int, value).update(i as int, value)
            =~= flags_with_prefix(old(settings)@.jitter_values, i + 1, value));
        assert(flags_with_prefix(old(settings)@.jitter_configured, i as int, value).update(
            i as int,
            value,
        ) =~= flags_with_prefix(old(settings)@.jitter_configured, i + 1, value));
        i += 1;
    }
}

#[verifier::rlimit(40)]
fn record_jitter(
    settings: &mut StoredSettings,
    enabled: bool,
    feature: &str,
    scheduler: &Option<String>,
    tone: &Option<String>,
    wifi_no_restart: bool,
)
    ensures
        old(settings).jitter_complete() ==> final(settings).jitter_complete(),
        final(settings)@ == jitter_set_spec(
            old(settings)@,
            enabled,
            feature@,
            opt_view(*scheduler),
            opt_view(*tone),
            wifi_no_restart,
        ),
{
    if eq_str(feature, "all") {
        let n: usize = if enabled {
            9
        } else {
            11
        };
        set_leading_flags(settings, n, enabled);
        return ;
    }
    settings.set_jitter_value(feature, enabled);
    settings.set_jitter_configured(feature, true);
    if eq_str(feature, "io") && enabled {
        settings.io_scheduler = match scheduler {
            Some(x) => x.clone(),
            None => owned("*"),
        };
        settings.io_tone = match tone {
            Some(x) => x.clone(),
            None => owned("medium"),
        };
    }
    if eq_str(feature, "wifi") {
        settings.wifi_no_restart = enabled && wifi_no_restart;
    }
}

/// Records what an Extras action chose, so that it can be replayed; returns
/// whether anything that is persisted changed.
#[verifier::rlimit(30)]
pub fn update_stored_settings_for_extra(settings: &mut StoredSettings, action: &ExtraAction) -> (r:
    bool)
    ensures
        old(settings).jitter_complete() ==> final(settings).jitter_complete(),
        (final(settings)@, r) == update_extra_spec(old(settings)@, action@),
{
    match action {
        ExtraAction::BluetoothHal { action } => {
            if eq_str(action.as_str(), "status") {
                false
            } else if eq_str(action.as_str(), "reset") {
                settings.bluetooth_hal = owned("offload");
                settings.bluetooth_hal_configured = false;
                true
            } else {
                settings.bluetooth_hal = action.clone();
                settings.bluetooth_hal_configured = true;
                true
            }
        },
        ExtraAction::ResamplerStatus | ExtraAction::UsbPeriodStatus | ExtraAction::JitterStatus => {
            false
        },
        ExtraAction::ResamplerReset => {
            reset_resampler_to_canonical_default(settings);
            true
        },
        ExtraAction::ResamplerPreset { preset } => {
            settings.resampler_preset = owned(canonical_resampler_preset(preset.as_str()));
            settings.resampler_configured = true;
            true
        },
        ExtraAction::ResamplerCustom { bypass, cheat, stop_band, half_length, percent } => {
            settings.resampler_preset = owned("custom");
            settings.resampler_bypass = bypass.clone();
            settings.resampler_cheat = *cheat;
            settings.resampler_stop_band = *stop_band;
            settings.resampler_half_length = *half_length;
            settings.resampler_percent = *percent;
            settings.resampler_configured = true;
            true
        },
        ExtraAction::UsbPeriodReset => {
            settings.usb_period = 2_250;
            settings.usb_period_configured = false;
            true
        },
        ExtraAction::UsbPeriodSet { period } => {
            settings.usb_period = *period;
            settings.usb_period_configured = true;
            true
        },
        ExtraAction::JitterSet { enabled, feature, scheduler, tone, wifi_no_restart } => {
            record_jitter(settings, *enabled, feature.as_str(), scheduler, tone, *wifi_no_restart);
            true
        },
        ExtraAction::Diagnose { kind, all } => {
            settings.diagnostic = kind.clone();
            settings.diagnostic_all = *all;
            true
        },
    }
}

/// A change to the persisted state.
#[derive(Clone, Debug, PartialEq, Eq)]
pub enum StateDelta {
    PolicyApply(Settings),
    PolicyReset,
    Extra(ExtraAction),
    SetAutoReapply(bool),
}

pub enum DeltaView {
    PolicyApply(SettingsView),
    PolicyReset,
    Extra(ExtraView),
    SetAutoReapply(bool),
}

impl View for StateDelta {
    type V = DeltaView;

    open spec fn view(&self) -> DeltaView {
        match self {
            StateDelta::PolicyApply(p) => DeltaView::PolicyApply(p@),
            StateDelta::PolicyReset => DeltaView::PolicyReset,
            StateDelta::Extra(a) => DeltaView::Extra(a@),
            StateDelta::SetAutoReapply(b) => DeltaView::SetAutoReapply(*b),
        }
    }
}

/// The state after a change, and whether it must be saved.
pub open spec fn delta_spec(s: StoredView, d: DeltaView) -> (StoredView, bool) {
    match d {
        DeltaView::PolicyApply(p) => (StoredView { policy: p, policy_configured: true, ..s }, true),
        DeltaView::PolicyReset => (
            StoredView { policy: default_settings(), policy_configured: false, ..s },
            true,
        ),
        DeltaView::Extra(a) => update_extra_spec(s, a),
        DeltaView::SetAutoReapply(b) => (StoredView { auto_reapply: b, ..s }, true),
    }
}

impl StateDelta {
    /// Applies the change; returns whether the state must be saved.
    pub fn apply(&self, settings: &mut StoredSettings) -> (r: bool)
        ensures
            old(settings).jitter_complete() ==> final(settings).jitter_complete(),
            (final(settings)@, r) == delta_spec(old(settings)@, self@),
    {
        match self {
            StateDelta::PolicyApply(policy) => {
                settings.policy = policy.copied();
                settings.policy_configured = true;
                true
            },
            StateDelta::PolicyReset => {
                settings.policy = Settings::default();
                settings.policy_configured = false;
                true
            },
            StateDelta::Extra(action) => update_stored_settings_for_extra(settings, action),
            StateDelta::SetAutoReapply(enabled) => {
                settings.auto_reapply = *enabled;
                true
            },
        }
    }
}

// ---------------------------------------------------------------------------
// Writing a state file
// ---------------------------------------------------------------------------

/// The stored test template: empty when there is none.
pub open spec fn template_text(t: Option<Seq<char>>) -> Seq<char> {
    match t {
        Some(x) => x,
        None => Seq::empty(),
    }
}

/// The values of the fixed keys, in the order of `FIXED_STATE_KEYS`.
pub open spec fn fixed_values(s: StoredView) -> Seq<Seq<char>> {
    seq![
        "3"@,
        bool_text(s.policy_configured),
        s.policy.policy,
        decimal(s.policy.sample_rate as nat),
        s.policy.bit_depth,
        bool_text(s.policy.drc),
        bool_text(s.policy.force_usbv2),
        bool_text(s.policy.force_bluetooth_qti),
        bool_text(s.policy.amzm),
        bool_text(s.policy.test),
        template_text(s.policy.test_template),
        bool_text(s.bluetooth_hal_configured),
        s.bluetooth_hal,
        bool_text(s.resampler_configured),
        canonical_preset(s.resampler_preset),
        s.resampler_bypass,
        bool_text(s.resampler_cheat),
        decimal(s.resampler_stop_band as nat),
        decimal(s.resampler_half_length as nat),
        decimal(s.resampler_percent as nat),
        bool_text(s.usb_period_configured),
        decimal(s.usb_period as nat),
        s.diagnostic,
        bool_text(s.diagnostic_all),
        s.io_scheduler,
        s.io_tone,
        bool_text(s.wifi_no_restart),
        bool_text(s.auto_reapply),
    ]
}

/// The values of the per-feature keys, in the order of `jitter_keys()`.
pub open spec fn flag_values(s: StoredView) -> Seq<Seq<char>> {
    Seq::new(
        22,
        |i: int|
            if i % 2 == 0 {
                bool_text(s.jitter_values[i / 2])
            } else {
                bool_text(s.jitter_configured[i / 2])
            },
    )
}

/// The value written for each of `required_keys()`.
pub open spec fn state_values(s: StoredView) -> Seq<Seq<char>> {
    fixed_values(s) + flag_values(s)
}

/// The lines `key=value` from entry `i` on, each ended by a newline.
pub open spec fn render_from(keys: Seq<Seq<char>>, values: Seq<Seq<char>>, i: int) -> Seq<char>
    decreases keys.len() - i,
{
    if i < 0 || i >= keys.len() {
        Seq::empty()
    } else {
        keys[i] + "="@ + values[i] + "\n"@ + render_from(keys, values, i + 1)
    }
}

/// The complete version 3 file for a state.
pub open spec fn rendered_state(s: StoredView) -> Seq<char> {
    render_from(required_keys(), state_values(s), 0)
}

fn bool_str(b: bool) -> (r: &'static str)
    ensures
        r@ == bool_text(b),
{
    if b {
        "1"
    } else {
        "0"
    }
}

fn policy_value_texts(s: &StoredSettings) -> (r: Vec<String>)
    ensures
        crate::text::views(r@) == fixed_values(s@).take(11),
{
    let mut v: Vec<String> = Vec::new();
    v.push(owned("3"));
    v.push(owned(bool_str(s.policy_configured)));
    v.push(s.policy.policy.clone());
    v.push(u32_to_string(s.policy.sample_rate));
    v.push(s.policy.bit_depth.clone());
    v.push(owned(bool_str(s.policy.drc)));
    v.push(owned(bool_str(s.policy.force_usbv2)));
    v.push(owned(bool_str(s.policy.force_bluetooth_qti)));
    v.push(owned(bool_str(s.policy.amzm)));
    v.push(owned(bool_str(s.policy.test)));
    v.push(
        match &s.policy.test_template {
            Some(t) => t.clone(),
            None => String::new(),
        },
    );
    assert(crate::text::views(v@) =~= fixed_values(s@).take(11));
    v
}

fn device_value_texts(s: &StoredSettings) -> (r: Vec<String>)
    ensures
        crate::text::views(r@) == fixed_values(s@).skip(11),
{
    let mut v: Vec<String> = Vec::new();
    v.push(owned(bool_str(s.bluetooth_hal_configured)));
    v.push(s.bluetooth_hal.clone());
    v.push(owned(bool_str(s.resampler_configured)));
    v.push(owned(canonical_resampler_preset(s.resampler_preset.as_str())));
    v.push(s.resampler_bypass.clone());
    v.push(owned(bool_str(s.resampler_cheat)));
    v.push(u32_to_string(s.resampler_stop_band));
    v.push(u32_to_string(s.resampler_half_length));
    v.push(u32_to_string(s.resampler_percent));
    v.push(owned(bool_str(s.usb_period_configured)));
    v.push(u32_to_string(s.usb_period));
    v.push(s.diagnostic.clone());
    v.push(owned(bool_str(s.diagnostic_all)));
    v.push(s.io_scheduler.clone());
    v.push(s.io_tone.clone());
    v.push(owned(bool_str(s.wifi_no_restart)));
    v.push(owned(bool_str(s.auto_reapply)));
    assert(crate::text::views(v@) =~= fixed_values(s@).skip(11));
    v
}

fn state_value_texts(settings: &StoredSettings) -> (r: Vec<String>)
    ensures
        crate::text::views(r@) == state_values(settings@),
{
    let s = settings;
    let mut v = policy_value_texts(s);
    let mut rest = device_value_texts(s);
    v.append(&mut rest);
    assert(fixed_values(s@).take(11) + fixed_values(s@).skip(11) =~= fixed_values(s@));
    assert(crate::text::views(v@) =~= fixed_values(s@));
    let mut k: usize = 0;
    while k < 11
        invariant
            k <= 11,
            crate::text::views(v@) == fixed_values(s@) + flag_values(s@).take(2 * k),
        decreases 11 - k,
    {
        let ghost before = v@;
        v.push(owned(bool_str(get_flag(&s.jitter_values, k))));
        v.push(owned(bool_str(get_flag(&s.jitter_configured, k))));
        assert(crate::text::views(v@) =~= crate::text::views(before).push(
            bool_text(s@.jitter_values[k as int]),
        ).push(bool_text(s@.jitter_configured[k as int])));
        assert(flag_values(s@).take(2 * k + 2) =~= flag_values(s@).take(2 * k).push(
            bool_text(s@.jitter_values[k as int]),
        ).push(bool_text(s@.jitter_configured[k as int])));
        k += 1;
    }
    assert(flag_values(s@).take(22) =~= flag_values(s@));
    v
}

/// The version 3 file that records `settings`: every key of
/// `required_keys()` once, in order.
pub fn render_stored_settings(settings: &StoredSettings) -> (r: String)
    ensures
        r@ == rendered_state(settings@),
{
    let keys = required_state_keys();
    let values = state_value_texts(settings);
    let mut content = String::new();
    let mut i: usize = 0;
    proof {
        assert(crate::text::views(keys@).len() == 50);
        assert(state_values(settings@).len() == 50);
        assert(Seq::<char>::empty() + render_from(required_keys(), state_values(settings@), 0)
            =~= rendered_state(settings@));
    }
    while i < 50
        invariant
            i <= 50,
            keys@.len() == 50,
            values@.len() == 50,
            crate::text::views(keys@) == required_keys(),
            crate::text::views(values@) == state_values(settings@),
            content@ + render_from(required_keys(), state_values(settings@), i as int)
                == rendered_state(settings@),
        decreases 50 - i,
    {
        let ghost before = content@;
        assert(keys@[i as int]@ == required_keys()[i as int]);
        assert(values@[i as int]@ == state_values(settings@)[i as int]);
        push_str(&mut content, keys[i].as_str());
        push_str(&mut content, "=");
        push_str(&mut content, values[i].as_str());
        push_str(&mut content, "\n");
        assert(content@ + render_from(required_keys(), state_values(settings@), i + 1) =~= before
            + render_from(required_keys(), state_values(settings@), i as int));
        i += 1;
    }
    content
}

// ---------------------------------------------------------------------------
// The required keys are pairwise distinct
// ---------------------------------------------------------------------------

/// The character code at `i`, 0 past the end.
pub open spec fn char_code(k: Seq<char>, i: int) -> int {
    if 0 <= i < k.len() {
        k[i] as int
    } else {
        0
    }
}

/// A number that tells the required keys apart: their length and the
/// characters at positions 0, 7 and 10.
pub open spec fn key_fingerprint(k: Seq<char>) -> int {
    ((k.len() * 256 + char_code(k, 0)) * 256 + char_code(k, 7)) * 256 + char_code(k, 10)
}

/// The position in `required_keys()` of the key with fingerprint `c`.
pub open spec fn fingerprint_slot(c: int) -> int {
    if c == 125173760 {
        0
    } else if c == 292578150 {
        1
    } else if c == 108003328 {
        2
    } else if c == 192115301 {
        3
    } else if c == 157447168 {
        4
    } else if c == 56885248 {
        5
    } else if c == 191263538 {
        6
    } else if c == 325479540 {
        7
    } else if c == 73465856 {
        8
    } else if c == 74711040 {
        9
    } else if c == 225733985 {
        10
    } else if c == 409105512 {
        11
    } else if c == 224556136 {
        12
    } else if c == 343041379 {
        13
    } else if c == 275932528 {
        14
    } else if c == 275932514 {
        15
    } else if c == 259155299 {
        16
    } else if c == 326264179 {
        17
    } else if c == 359818600 {
        18
    } else if c == 292709744 {
        19
    } else if c == 360016223 {
        20
    } else if c == 175466752 {
        21
    } else if c == 174355456 {
        22
    } else if c == 241464415 {
        23
    } else if c == 208233573 {
        24
    } else if c == 124321792 {
        25
    } else if c == 259481459 {
        26
    } else if c == 207708524 {
        27
    } else if c == 241857385 {
        28
    } else if c == 426406761 {
        29
    } else if c == 241857650 {
        30
    } else if c == 426407026 {
        31
    } else if c == 191521893 {
        32
    } else if c == 376071269 {
        33
    } else if c == 258631525 {
        34
    } else if c == 443180901 {
        35
    } else if c == 225076069 {
        36
    } else if c == 409625445 {
        37
    } else if c == 191523940 {
        38
    } else if c == 376073316 {
        39
    } else if c == 157968640 {
        40
    } else if c == 342518115 {
        41
    } else if c == 157971968 {
        42
    } else if c == 342521443 {
        43
    } else if c == 191526761 {
        44
    } else if c == 376076137 {
        45
    } else if c == 241853044 {
        46
    } else if c == 426402420 {
        47
    } else if c == 225076581 {
        48
    } else if c == 409625957 {
        49
    } else {
        -1
    }
}

/// The key for feature `k`: `jitter_F`, or `jitter_F_configured`.
pub open spec fn jitter_key_of(k: int, configured: bool) -> Seq<char> {
    if configured {
        "jitter_"@ + JITTER_FEATURES[k]@ + "_configured"@
    } else {
        "jitter_"@ + JITTER_FEATURES[k]@
    }
}

/// A per-feature key names its feature.
pub proof fn lemma_jitter_key(k: int, configured: bool)
    requires
        0 <= k < 11,
    ensures
        strip_prefix(jitter_key_of(k, configured), "jitter_"@) == Some(
            if configured {
                JITTER_FEATURES[k]@ + "_configured"@
            } else {
                JITTER_FEATURES[k]@
            },
        ),
        configured ==> strip_suffix(JITTER_FEATURES[k]@ + "_configured"@, "_configured"@) == Some(
            JITTER_FEATURES[k]@,
        ),
        !configured ==> strip_suffix(JITTER_FEATURES[k]@, "_configured"@) is None,
        jitter_key_feature(jitter_key_of(k, configured)) == Some(JITTER_FEATURES[k]@),
        listed(JITTER_FEATURES@, JITTER_FEATURES[k]@),
        known_key(jitter_key_of(k, configured)),
{
    let f = JITTER_FEATURES[k]@;
    reveal_strlit("jitter_");
    reveal_strlit("_configured");
    let name = if configured {
        f + "_configured"@
    } else {
        f
    };
    let key = "jitter_"@ + name;
    assert(key == jitter_key_of(k, configured));
    assert(key.take(7) =~= "jitter_"@);
    assert(key.skip(7) =~= name);
    assert(f.len() <= 8) by {
        reveal_strlit("selinux");
        reveal_strlit("thermal");
        reveal_strlit("doze");
        reveal_strlit("governor");
        reveal_strlit("camera");
        reveal_strlit("logd");
        reveal_strlit("io");
        reveal_strlit("vm");
        reveal_strlit("wifi");
        reveal_strlit("battery");
        reveal_strlit("effect");
    }
    if configured {
        assert(name.skip(name.len() - 11) =~= "_configured"@);
        assert(name.take(name.len() - 11) =~= f);
    }
    assert(JITTER_FEATURES@[k]@ == f);
}

/// The features that are not base features are exactly battery and
/// effect, the last two of the catalog.
proof fn lemma_base_features()
    ensures
        forall|k: int|
            0 <= k < 11 ==> (listed(
                crate::catalog::JITTER_BASE_FEATURES@,
                #[trigger] JITTER_FEATURES@[k]@,
            ) <==> k < 9),
{
    reveal_strlit("selinux");
    reveal_strlit("thermal");
    reveal_strlit("doze");
    reveal_strlit("governor");
    reveal_strlit("camera");
    reveal_strlit("logd");
    reveal_strlit("io");
    reveal_strlit("vm");
    reveal_strlit("wifi");
    reveal_strlit("battery");
    reveal_strlit("effect");
    reveal_strlit("all");
    assert("selinux"@[0] == 's' && "selinux"@[1] == 'e' && "selinux"@[2] == 'l' && "selinux"@[3] == 'i' && "selinux"@[4] == 'n' && "selinux"@[5] == 'u' && "selinux"@[6] == 'x');
    assert("thermal"@[0] == 't' && "thermal"@[1] == 'h' && "thermal"@[2] == 'e' && "thermal"@[3] == 'r' && "thermal"@[4] == 'm' && "thermal"@[5] == 'a' && "thermal"@[6] == 'l');
    assert("doze"@[0] == 'd' && "doze"@[1] == 'o' && "doze"@[2] == 'z' && "doze"@[3] == 'e');
    assert("governor"@[0] == 'g' && "governor"@[1] == 'o' && "governor"@[2] == 'v' && "governor"@[3] == 'e' && "governor"@[4] == 'r' && "governor"@[5] == 'n' && "governor"@[6] == 'o' && "governor"@[7] == 'r');
    assert("camera"@[0] == 'c' && "camera"@[1] == 'a' && "camera"@[2] == 'm' && "camera"@[3] == 'e' && "camera"@[4] == 'r' && "camera"@[5] == 'a');
    assert("logd"@[0] == 'l' && "logd"@[1] == 'o' && "logd"@[2] == 'g' && "logd"@[3] == 'd');
    assert("io"@[0] == 'i' && "io"@[1] == 'o');
    assert("vm"@[0] == 'v' && "vm"@[1] == 'm');
    assert("wifi"@[0] == 'w' && "wifi"@[1] == 'i' && "wifi"@[2] == 'f' && "wifi"@[3] == 'i');
    assert("battery"@[0] == 'b' && "battery"@[1] == 'a' && "battery"@[2] == 't' && "battery"@[3] == 't' && "battery"@[4] == 'e' && "battery"@[5] == 'r' && "battery"@[6] == 'y');
    assert("effect"@[0] == 'e' && "effect"@[1] == 'f' && "effect"@[2] == 'f' && "effect"@[3] == 'e' && "effect"@[4] == 'c' && "effect"@[5] == 't');
    assert forall|k: int|
        0 <= k < 11 implies (listed(
            crate::catalog::JITTER_BASE_FEATURES@,
            #[trigger] JITTER_FEATURES@[k]@,
        ) <==> k < 9) by {
        if k < 9 {
            assert(crate::catalog::JITTER_BASE_FEATURES@[k]@ == JITTER_FEATURES@[k]@);
        } else {
            assert forall|j: int| 0 <= j < 9 implies #[trigger] crate::catalog::JITTER_BASE_FEATURES@[j]@
                != JITTER_FEATURES@[k]@ by {
                assert(crate::catalog::JITTER_BASE_FEATURES@[j]@ == JITTER_FEATURES@[j]@);
            }
        }
    }
}

/// Enabling `all` jitter features records exactly the base features as
/// enabled and configured, and leaves the other features (battery and
/// effect) as they were; disabling `all` records every feature as disabled
/// and not configured.
pub proof fn lemma_jitter_all_records_base_features(
    s: StoredView,
    scheduler: Option<Seq<char>>,
    tone: Option<Seq<char>>,
    wifi_no_restart: bool,
)
    ensures
        forall|k: int|
            0 <= k < 11 ==> {
                let t = update_extra_spec(
                    s,
                    ExtraView::JitterSet { enabled: true, feature: "all"@, scheduler, tone, wifi_no_restart },
                ).0;
                if listed(crate::catalog::JITTER_BASE_FEATURES@, #[trigger] JITTER_FEATURES@[k]@) {
                    t.jitter_values[k] && t.jitter_configured[k]
                } else {
                    t.jitter_values[k] == s.jitter_values[k] && t.jitter_configured[k] == s.jitter_configured[k]
                }
            },
        forall|k: int|
            #![trigger JITTER_FEATURES@[k]]
            0 <= k < 11 ==> {
                let t = update_extra_spec(
                    s,
                    ExtraView::JitterSet { enabled: false, feature: "all"@, scheduler, tone, wifi_no_restart },
                ).0;
                !t.jitter_values[k] && !t.jitter_configured[k]
            },
{
    lemma_base_features();
}

/// What each required key is: told apart by its fingerprint, a known key,
/// not empty, and free of `=` and line breaks.
pub open spec fn required_key_facts(i: int) -> bool {
    let k = required_keys()[i];
    &&& fingerprint_slot(key_fingerprint(k)) == i
    &&& k.len() > 0
    &&& lacks(k, '=')
    &&& lacks(k, '\n')
    &&& lacks(k, '\r')
    &&& known_key(k)
}

proof fn lemma_required_keys_0_10(i: int)
    requires
        0 <= i < 10,
    ensures
        required_key_facts(i),
{
    if i == 0 {
        reveal_strlit("version");
        assert(FIXED_STATE_KEYS@[0]@ == required_keys()[i]);
    } else if i == 1 {
        reveal_strlit("policy_configured");
        assert(FIXED_STATE_KEYS@[1]@ == required_keys()[i]);
    } else if i == 2 {
        reveal_strlit("policy");
        assert(FIXED_STATE_KEYS@[2]@ == required_keys()[i]);
    } else if i == 3 {
        reveal_strlit("sample_rate");
        assert(FIXED_STATE_KEYS@[3]@ == required_keys()[i]);
    } else if i == 4 {
        reveal_strlit("bit_depth");
        assert(FIXED_STATE_KEYS@[4]@ == required_keys()[i]);
    } else if i == 5 {
        reveal_strlit("drc");
        assert(FIXED_STATE_KEYS@[5]@ == required_keys()[i]);
    } else if i == 6 {
        reveal_strlit("force_usbv2");
        assert(FIXED_STATE_KEYS@[6]@ == required_keys()[i]);
    } else if i == 7 {
        reveal_strlit("force_bluetooth_qti");
        assert(FIXED_STATE_KEYS@[7]@ == required_keys()[i]);
    } else if i == 8 {
        reveal_strlit("amzm");
        assert(FIXED_STATE_KEYS@[8]@ == required_keys()[i]);
    } else if i == 9 {
        reveal_strlit("test");
        assert(FIXED_STATE_KEYS@[9]@ == required_keys()[i]);
    }
}

proof fn lemma_required_keys_10_20(i: int)
    requires
        10 <= i < 20,
    ensures
        required_key_facts(i),
{
    if i == 10 {
        reveal_strlit("test_template");
        assert(FIXED_STATE_KEYS@[10]@ == required_keys()[i]);
    } else if i == 11 {
        reveal_strlit("bluetooth_hal_configured");
        assert(FIXED_STATE_KEYS@[11]@ == required_keys()[i]);
    } else if i == 12 {
        reveal_strlit("bluetooth_hal");
        assert(FIXED_STATE_KEYS@[12]@ == required_keys()[i]);
    } else if i == 13 {
        reveal_strlit("resampler_configured");
        assert(FIXED_STATE_KEYS@[13]@ == required_keys()[i]);
    } else if i == 14 {
        reveal_strlit("resampler_preset");
        assert(FIXED_STATE_KEYS@[14]@ == required_keys()[i]);
    } else if i == 15 {
        reveal_strlit("resampler_bypass");
        assert(FIXED_STATE_KEYS@[15]@ == required_keys()[i]);
    } else if i == 16 {
        reveal_strlit("resampler_cheat");
        assert(FIXED_STATE_KEYS@[16]@ == required_keys()[i]);
    } else if i == 17 {
        reveal_strlit("resampler_stop_band");
        assert(FIXED_STATE_KEYS@[17]@ == required_keys()[i]);
    } else if i == 18 {
        reveal_strlit("resampler_half_length");
        assert(FIXED_STATE_KEYS@[18]@ == required_keys()[i]);
    } else if i == 19 {
        reveal_strlit("resampler_percent");
        assert(FIXED_STATE_KEYS@[19]@ == required_keys()[i]);
    }
}

proof fn lemma_required_keys_20_28(i: int)
    requires
        20 <= i < 28,
    ensures
        required_key_facts(i),
{
    if i == 20 {
        reveal_strlit("usb_period_configured");
        assert(FIXED_STATE_KEYS@[20]@ == required_keys()[i]);
    } else if i == 21 {
        reveal_strlit("usb_period");
        assert(FIXED_STATE_KEYS@[21]@ == required_keys()[i]);
    } else if i == 22 {
        reveal_strlit("diagnostic");
        assert(FIXED_STATE_KEYS@[22]@ == required_keys()[i]);
    } else if i == 23 {
        reveal_strlit("diagnostic_all");
        assert(FIXED_STATE_KEYS@[23]@ == required_keys()[i]);
    } else if i == 24 {
        reveal_strlit("io_scheduler");
        assert(FIXED_STATE_KEYS@[24]@ == required_keys()[i]);
    } else if i == 25 {
        reveal_strlit("io_tone");
        assert(FIXED_STATE_KEYS@[25]@ == required_keys()[i]);
    } else if i == 26 {
        reveal_strlit("wifi_no_restart");
        assert(FIXED_STATE_KEYS@[26]@ == required_keys()[i]);
    } else if i == 27 {
        reveal_strlit("auto_reapply");
        assert(FIXED_STATE_KEYS@[27]@ == required_keys()[i]);
    }
}

proof fn lemma_required_keys_28_39(i: int)
    requires
        28 <= i < 39,
    ensures
        required_key_facts(i),
{
    if i == 28 {
        reveal_strlit("jitter_");
        reveal_strlit("selinux");
        lemma_jitter_key(0, false);
    } else if i == 29 {
        reveal_strlit("jitter_");
        reveal_strlit("selinux");
        reveal_strlit("_configured");
        lemma_jitter_key(0, true);
    } else if i == 30 {
        reveal_strlit("jitter_");
        reveal_strlit("thermal");
        lemma_jitter_key(1, false);
    } else if i == 31 {
        reveal_strlit("jitter_");
        reveal_strlit("thermal");
        reveal_strlit("_configured");
        lemma_jitter_key(1, true);
    } else if i == 32 {
        reveal_strlit("jitter_");
        reveal_strlit("doze");
        lemma_jitter_key(2, false);
    } else if i == 33 {
        reveal_strlit("jitter_");
        reveal_strlit("doze");
        reveal_strlit("_configured");
        lemma_jitter_key(2, true);
    } else if i == 34 {
        reveal_strlit("jitter_");
        reveal_strlit("governor");
        lemma_jitter_key(3, false);
    } else if i == 35 {
        reveal_strlit("jitter_");
        reveal_strlit("governor");
        reveal_strlit("_configured");
        lemma_jitter_key(3, true);
    } else if i == 36 {
        reveal_strlit("jitter_");
        reveal_strlit("camera");
        lemma_jitter_key(4, false);
    } else if i == 37 {
        reveal_strlit("jitter_");
        reveal_strlit("camera");
        reveal_strlit("_configured");
        lemma_jitter_key(4, true);
    } else if i == 38 {
        reveal_strlit("jitter_");
        reveal_strlit("logd");
        lemma_jitter_key(5, false);
    }
}

proof fn lemma_required_keys_39_50(i: int)
    requires
        39 <= i < 50,
    ensures
        required_key_facts(i),
{
    if i == 39 {
        reveal_strlit("jitter_");
        reveal_strlit("logd");
        reveal_strlit("_configured");
        lemma_jitter_key(5, true);
    } else if i == 40 {
        reveal_strlit("jitter_");
        reveal_strlit("io");
        lemma_jitter_key(6, false);
    } else if i == 41 {
        reveal_strlit("jitter_");
        reveal_strlit("io");
        reveal_strlit("_configured");
        lemma_jitter_key(6, true);
    } else if i == 42 {
        reveal_strlit("jitter_");
        reveal_strlit("vm");
        lemma_jitter_key(7, false);
    } else if i == 43 {
        reveal_strlit("jitter_");
        reveal_strlit("vm");
        reveal_strlit("_configured");
        lemma_jitter_key(7, true);
    } else if i == 44 {
        reveal_strlit("jitter_");
        reveal_strlit("wifi");
        lemma_jitter_key(8, false);
    } else if i == 45 {
        reveal_strlit("jitter_");
        reveal_strlit("wifi");
        reveal_strlit("_configured");
        lemma_jitter_key(8, true);
    } else if i == 46 {
        reveal_strlit("jitter_");
        reveal_strlit("battery");
        lemma_jitter_key(9, false);
    } else if i == 47 {
        reveal_strlit("jitter_");
        reveal_strlit("battery");
        reveal_strlit("_configured");
        lemma_jitter_key(9, true);
    } else if i == 48 {
        reveal_strlit("jitter_");
        reveal_strlit("effect");
        lemma_jitter_key(10, false);
    } else if i == 49 {
        reveal_strlit("jitter_");
        reveal_strlit("effect");
        reveal_strlit("_configured");
        lemma_jitter_key(10, true);
    }
}

pub proof fn lemma_required_key(i: int)
    requires
        0 <= i < 50,
    ensures
        required_key_facts(i),
{
    if i < 10 {
        lemma_required_keys_0_10(i);
    } else if i < 20 {
        lemma_required_keys_10_20(i);
    } else if i < 28 {
        lemma_required_keys_20_28(i);
    } else if i < 39 {
        lemma_required_keys_28_39(i);
    } else if i < 50 {
        lemma_required_keys_39_50(i);
    }
}

/// No key occurs twice among the keys of a complete state file.
pub proof fn lemma_required_keys_distinct()
    ensures
        required_keys().no_duplicates(),
{
    assert forall|i: int, j: int|
        0 <= i < required_keys().len() && 0 <= j < required_keys().len() && i != j implies required_keys()[i]
            != required_keys()[j] by {
        lemma_required_key(i);
        lemma_required_key(j);
    }
}

} // verus!
