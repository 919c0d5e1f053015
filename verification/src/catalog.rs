//! The versioned command catalog: every value the controller accepts for a
//! policy, a tool or a tuning option, and the upstream flags it maps to.
use vstd::prelude::*;

use crate::text::eq_str;

verus! {

broadcast use vstd::string::group_string_axioms;

pub const JITTER_FEATURES: [&'static str; 11] = [
    "selinux",
    "thermal",
    "doze",
    "governor",
    "camera",
    "logd",
    "io",
    "vm",
    "wifi",
    "battery",
    "effect",
];

pub const JITTER_BASE_FEATURES: [&'static str; 9] = [
    "selinux",
    "thermal",
    "doze",
    "governor",
    "camera",
    "logd",
    "io",
    "vm",
    "wifi",
];

pub const IO_SCHEDULERS: [&'static str; 8] = [
    "*",
    "none",
    "noop",
    "deadline",
    "mq-deadline",
    "cfq",
    "bfq",
    "kyber",
];

pub const IO_TONES: [&'static str; 5] = ["light", "m-light", "medium", "boost", "exp"];

pub const BLUETOOTH_HAL_OPTIONS: [&'static str; 4] = ["offload", "aosp", "legacy", "sysbta"];

pub const DIAGNOSTIC_TYPES: [&'static str; 4] = ["audio", "bluetooth", "config", "alsa"];

pub const RESAMPLER_BYPASSES: [(&'static str, u32); 3] = [
    ("none", 44_100),
    ("48", 48_000),
    ("96", 96_000),
];

pub const RESAMPLER_MODES: [&'static str; 2] = ["cutoff", "cheat"];

pub const RESAMPLER_STANDARD_PRESETS: [&'static str; 6] = [
    "159-480-92",
    "165-360-104",
    "179-408-99",
    "194-520-100",
    "ultra-hifi",
    "custom",
];

pub const RESAMPLER_NONLINEAR_PRESETS: [&'static str; 5] = [
    "cheap-44",
    "cheap-44-low",
    "cheap-48",
    "cheap-48-low",
    "cheap-96",
];

pub const RESAMPLER_SIMULATED_PRESETS: [&'static str; 4] = [
    "mock-dac-a",
    "mock-dac-b",
    "mock-dac-c",
    "mock-mastering",
];

pub const RESAMPLER_GROUP_NAMES: [&'static str; 3] = ["standard", "nonlinear", "simulated"];

/// The presets that `change-resampling-quality.sh` knows, in schema order.
pub const RESAMPLER_PRESET_NAMES: [&'static str; 14] = [
    "159-480-92",
    "165-360-104",
    "179-408-99",
    "194-520-100",
    "ultra-hifi",
    "cheap-44",
    "cheap-44-low",
    "cheap-48",
    "cheap-48-low",
    "cheap-96",
    "mock-dac-a",
    "mock-dac-b",
    "mock-dac-c",
    "mock-mastering",
];

pub const POLICIES: [(&'static str, &'static str, &'static str); 22] = [
    ("auto", "--auto", "自动检测"),
    ("bypass", "--bypass-offload", "绕过硬件 Offload"),
    ("bypass-safer", "--bypass-offload-safer", "绕过硬件 Offload 兼容模式"),
    ("offload", "--offload", "硬件 Offload"),
    ("offload-hifi-playback", "--offload-hifi-playback", "USB HiFi Offload"),
    ("offload-direct", "--offload-direct", "Direct PCM"),
    ("offload-safer", "--offload-safer", "USB Offload 兼容模式"),
    ("offload-direct-dynamic", "--offload-direct", "Direct PCM"),
    ("legacy", "--legacy", "旧版蓝牙HAL"),
    ("safe", "--safe", "保守兼容"),
    ("safest", "--safest", "最大兼容"),
    ("safest-auto", "--safest-auto", "最大兼容 - USB"),
    ("bypass-dynamic", "--bypass-offload", "绕过硬件 Offload"),
    ("bypass-safer-dynamic", "--bypass-offload-safer", "绕过硬件 Offload 兼容模式"),
    ("offload-dynamic", "--offload", "硬件 Offload"),
    ("offload-hifi-playback-dynamic", "--offload-hifi-playback", "USB HiFi Offload"),
    ("offload-safer-dynamic", "--offload-safer", "USB Offload 兼容模式"),
    ("legacy-dynamic", "--legacy", "旧版蓝牙HAL"),
    ("safe-dynamic", "--safe", "保守兼容"),
    ("safest-dynamic", "--safest", "最大兼容"),
    ("safest-auto-dynamic", "--safest-auto", "最大兼容 - USB"),
    ("usb", "--usb-only", "仅USB"),
];

pub const DOCUMENTED_RATES: [(u32, &'static str); 10] = [
    (44_100, "44.1 kHz"),
    (48_000, "48 kHz"),
    (88_200, "88.2 kHz"),
    (96_000, "96 kHz"),
    (176_400, "176.4 kHz"),
    (192_000, "192 kHz"),
    (352_800, "352.8 kHz"),
    (384_000, "384 kHz"),
    (705_600, "705.6 kHz"),
    (768_000, "768 kHz"),
];

pub const BIT_DEPTHS: [(&'static str, &'static str); 4] = [
    ("16", "16-bit PCM"),
    ("24", "24-bit packed PCM"),
    ("32", "32-bit PCM"),
    ("float", "32-bit float PCM"),
];

pub const RESAMPLER_DEFAULT_PRESET: &'static str = "179-408-99";

// ---------------------------------------------------------------------------
// Membership in a list of names
// ---------------------------------------------------------------------------

/// Index of the first entry of `list` equal to `s`, searching from `i`.
pub open spec fn index_from(list: Seq<&str>, s: Seq<char>, i: int) -> Option<int>
    decreases list.len() - i,
{
    if i < 0 || i >= list.len() {
        None
    } else if list[i]@ == s {
        Some(i)
    } else {
        index_from(list, s, i + 1)
    }
}

/// `s` is one of the names in `list`.
pub open spec fn listed(list: Seq<&str>, s: Seq<char>) -> bool {
    exists|i: int| 0 <= i < list.len() && #[trigger] list[i]@ == s
}

pub proof fn lemma_index_from(list: Seq<&str>, s: Seq<char>, i: int)
    requires
        0 <= i <= list.len(),
    ensures
        match index_from(list, s, i) {
            Some(k) => i <= k < list.len() && list[k]@ == s && forall|j: int|
                i <= j < k ==> list[j]@ != s,
            None => forall|j: int| i <= j < list.len() ==> list[j]@ != s,
        },
    decreases list.len() - i,
{
    if i < list.len() && list[i]@ != s {
        lemma_index_from(list, s, i + 1);
    }
}

/// Where `s` first appears in `list`.
pub fn position(list: &[&'static str], s: &str) -> (r: Option<usize>)
    ensures
        r == (match index_from(list@, s@, 0) {
            Some(k) => Some(k as usize),
            None => None::<usize>,
        }),
        r is Some <==> listed(list@, s@),
        r matches Some(k) ==> k < list@.len() && list@[k as int]@ == s@,
{
    let mut i: usize = 0;
    while i < list.len()
        invariant
            i <= list@.len(),
            index_from(list@, s@, 0) == index_from(list@, s@, i as int),
            forall|j: int| 0 <= j < i ==> list@[j]@ != s@,
        decreases list@.len() - i,
    {
        if eq_str(list[i], s) {
            return Some(i);
        }
        i += 1;
    }
    proof {
        lemma_index_from(list@, s@, 0);
    }
    None
}

/// `list` names `s`.
pub fn is_listed(list: &[&'static str], s: &str) -> (r: bool)
    ensures
        r == listed(list@, s@),
{
    position(list, s).is_some()
}

// ---------------------------------------------------------------------------
// Resampler presets
// ---------------------------------------------------------------------------

/// The name under which a preset is stored: the historical script default
/// `default` is the same AudioFlinger preset as `179-408-99`.
pub open spec fn canonical_preset(value: Seq<char>) -> Seq<char> {
    if value == "default"@ {
        RESAMPLER_DEFAULT_PRESET@
    } else {
        value
    }
}

/// The canonical name of a resampler preset.
pub fn canonical_resampler_preset<'a>(value: &'a str) -> (r: &'a str)
    ensures
        r@ == canonical_preset(value@),
{
    if eq_str(value, "default") {
        RESAMPLER_DEFAULT_PRESET
    } else {
        value
    }
}

/// The arguments `change-resampling-quality.sh` takes for each named preset.
pub open spec fn preset_table(name: Seq<char>) -> Option<Seq<Seq<char>>> {
    if name == "159-480-92"@ {
        Some(seq!["159"@, "480"@, "92"@])
    } else if name == "165-360-104"@ {
        Some(seq!["--bypass"@, "--cheat"@, "165"@, "360"@, "104"@])
    } else if name == "179-408-99"@ {
        Some(seq!["--cheat"@, "179"@, "408"@, "99"@])
    } else if name == "194-520-100"@ {
        Some(seq!["194"@, "520"@, "100"@])
    } else if name == "ultra-hifi"@ {
        Some(seq!["--cheat"@, "194"@, "520"@, "98"@])
    } else if name == "cheap-44"@ {
        Some(seq!["194"@, "520"@, "92"@])
    } else if name == "cheap-44-low"@ {
        Some(seq!["194"@, "520"@, "91"@])
    } else if name == "cheap-48"@ {
        Some(seq!["194"@, "520"@, "84"@])
    } else if name == "cheap-48-low"@ {
        Some(seq!["194"@, "520"@, "83"@])
    } else if name == "cheap-96"@ {
        Some(seq!["--bypass-hires"@, "194"@, "520"@, "42"@])
    } else if name == "mock-dac-a"@ {
        Some(seq!["--bypass"@, "--cheat"@, "150"@, "80"@, "109"@])
    } else if name == "mock-dac-b"@ {
        Some(seq!["120"@, "80"@, "97"@])
    } else if name == "mock-dac-c"@ {
        Some(seq!["--bypass"@, "--cheat"@, "100"@, "80"@, "104"@])
    } else if name == "mock-mastering"@ {
        Some(seq!["--cheat"@, "159"@, "240"@, "99"@])
    } else {
        None
    }
}

/// The script arguments of a preset, after canonicalisation.
pub open spec fn preset_args(value: Seq<char>) -> Option<Seq<Seq<char>>> {
    preset_table(canonical_preset(value))
}

/// The views of a list of string slices.
pub open spec fn str_views(v: Seq<&str>) -> Seq<Seq<char>> {
    v.map_values(|x: &str| x@)
}

/// The upstream arguments of a resampler preset, if it is one.
pub fn resampler_preset_args(value: &str) -> (r: Option<Vec<&'static str>>)
    ensures
        match r {
            Some(a) => preset_args(value@) == Some(str_views(a@)),
            None => preset_args(value@) is None,
        },
{
    let v = canonical_resampler_preset(value);
    let r: Option<Vec<&'static str>> = if eq_str(v, "159-480-92") {
        Some(vec!["159", "480", "92"])
    } else if eq_str(v, "165-360-104") {
        Some(vec!["--bypass", "--cheat", "165", "360", "104"])
    } else if eq_str(v, "179-408-99") {
        Some(vec!["--cheat", "179", "408", "99"])
    } else if eq_str(v, "194-520-100") {
        Some(vec!["194", "520", "100"])
    } else if eq_str(v, "ultra-hifi") {
        Some(vec!["--cheat", "194", "520", "98"])
    } else if eq_str(v, "cheap-44") {
        Some(vec!["194", "520", "92"])
    } else if eq_str(v, "cheap-44-low") {
        Some(vec!["194", "520", "91"])
    } else if eq_str(v, "cheap-48") {
        Some(vec!["194", "520", "84"])
    } else if eq_str(v, "cheap-48-low") {
        Some(vec!["194", "520", "83"])
    } else if eq_str(v, "cheap-96") {
        Some(vec!["--bypass-hires", "194", "520", "42"])
    } else if eq_str(v, "mock-dac-a") {
        Some(vec!["--bypass", "--cheat", "150", "80", "109"])
    } else if eq_str(v, "mock-dac-b") {
        Some(vec!["120", "80", "97"])
    } else if eq_str(v, "mock-dac-c") {
        Some(vec!["--bypass", "--cheat", "100", "80", "104"])
    } else if eq_str(v, "mock-mastering") {
        Some(vec!["--cheat", "159", "240", "99"])
    } else {
        None
    };
    proof {
        if r is Some {
            assert(str_views(r->0@) =~= preset_table(v@)->0);
        }
    }
    r
}

/// The upstream flag of a policy mode.
pub open spec fn policy_flag_from(p: Seq<char>, i: int) -> Option<Seq<char>>
    decreases 22 - i,
{
    if i < 0 || i >= 22 {
        None
    } else if POLICIES[i].0@ == p {
        Some(POLICIES[i].1@)
    } else {
        policy_flag_from(p, i + 1)
    }
}

pub open spec fn policy_flag_spec(p: Seq<char>) -> Option<Seq<char>> {
    policy_flag_from(p, 0)
}

/// The upstream flag of a policy mode, if the mode is known.
pub fn policy_flag(policy: &str) -> (r: Option<&'static str>)
    ensures
        match r {
            Some(f) => policy_flag_spec(policy@) == Some(f@),
            None => policy_flag_spec(policy@) is None,
        },
{
    let table = POLICIES;
    let mut i: usize = 0;
    while i < 22
        invariant
            i <= 22,
            table == POLICIES,
            policy_flag_spec(policy@) == policy_flag_from(policy@, i as int),
        decreases 22 - i,
    {
        if eq_str(table[i].0, policy) {
            return Some(table[i].1);
        }
        i += 1;
    }
    None
}

/// `value` is one of the supported bit depths.
pub open spec fn is_bit_depth(value: Seq<char>) -> bool {
    exists|i: int| 0 <= i < 4 && #[trigger] BIT_DEPTHS[i].0@ == value
}

/// Whether `value` is one of the supported bit depths.
pub fn bit_depth_supported(value: &str) -> (r: bool)
    ensures
        r == is_bit_depth(value@),
{
    let table = BIT_DEPTHS;
    let mut i: usize = 0;
    while i < 4
        invariant
            i <= 4,
            table == BIT_DEPTHS,
            forall|j: int| 0 <= j < i ==> BIT_DEPTHS[j].0@ != value@,
        decreases 4 - i,
    {
        if eq_str(table[i].0, value) {
            return true;
        }
        i += 1;
    }
    false
}

} // verus!
