//! The controller's domain values: policy settings, the persisted state, the
//! Extras actions and the reapply steps, each with its mathematical view.
use vstd::prelude::*;

use crate::catalog::{
    preset_args, resampler_preset_args, str_views, JITTER_FEATURES, RESAMPLER_DEFAULT_PRESET,
};
use crate::text::{concat2, eq_str, owned, u32_to_string, decimal};

verus! {

broadcast use vstd::string::group_string_axioms;

// ---------------------------------------------------------------------------
// Small view helpers
// ---------------------------------------------------------------------------

pub open spec fn opt_view(o: Option<String>) -> Option<Seq<char>> {
    match o {
        Some(s) => Some(s@),
        None => None,
    }
}

pub fn copy_opt(o: &Option<String>) -> (r: Option<String>)
    ensures
        opt_view(r) == opt_view(*o),
{
    match o {
        Some(s) => Some(s.clone()),
        None => None,
    }
}

/// The value stored for index `i` of a per-feature flag vector; a missing
/// entry reads as `false`.
pub open spec fn flag_at(v: Seq<bool>, i: int) -> bool {
    if 0 <= i < v.len() {
        v[i]
    } else {
        false
    }
}

/// The eleven per-feature flags of a flag vector.
pub open spec fn flags_view(v: Seq<bool>) -> Seq<bool> {
    Seq::new(11, |i: int| flag_at(v, i))
}

/// Index of a jitter feature in `JITTER_FEATURES`.
pub open spec fn feature_index(f: Seq<char>) -> Option<int> {
    crate::catalog::index_from(JITTER_FEATURES@, f, 0)
}

// ---------------------------------------------------------------------------
// Policy settings
// ---------------------------------------------------------------------------

#[derive(Clone, Debug, PartialEq, Eq)]
pub struct Settings {
    pub policy: String,
    pub sample_rate: u32,
    pub bit_depth: String,
    pub drc: bool,
    pub force_usbv2: bool,
    pub force_bluetooth_qti: bool,
    pub amzm: bool,
    pub test: bool,
    pub test_template: Option<String>,
}

pub struct SettingsView {
    pub policy: Seq<char>,
    pub sample_rate: u32,
    pub bit_depth: Seq<char>,
    pub drc: bool,
    pub force_usbv2: bool,
    pub force_bluetooth_qti: bool,
    pub amzm: bool,
    pub test: bool,
    pub test_template: Option<Seq<char>>,
}

impl View for Settings {
    type V = SettingsView;

    open spec fn view(&self) -> SettingsView {
        SettingsView {
            policy: self.policy@,
            sample_rate: self.sample_rate,
            bit_depth: self.bit_depth@,
            drc: self.drc,
            force_usbv2: self.force_usbv2,
            force_bluetooth_qti: self.force_bluetooth_qti,
            amzm: self.amzm,
            test: self.test,
            test_template: opt_view(self.test_template),
        }
    }
}

/// The policy the controller applies when nothing else was chosen.
pub open spec fn default_settings() -> SettingsView {
    SettingsView {
        policy: "auto"@,
        sample_rate: 44_100,
        bit_depth: "32"@,
        drc: false,
        force_usbv2: false,
        force_bluetooth_qti: false,
        amzm: false,
        test: false,
        test_template: None,
    }
}

impl Default for Settings {
    fn default() -> (r: Self)
        ensures
            r@ == default_settings(),
    {
        Settings {
            policy: owned("auto"),
            sample_rate: 44_100,
            bit_depth: owned("32"),
            drc: false,
            force_usbv2: false,
            force_bluetooth_qti: false,
            amzm: false,
            test: false,
            test_template: None,
        }
    }
}

impl Settings {
    /// A copy with the same view.
    pub fn copied(&self) -> (r: Settings)
        ensures
            r@ == self@,
    {
        Settings {
            policy: self.policy.clone(),
            sample_rate: self.sample_rate,
            bit_depth: self.bit_depth.clone(),
            drc: self.drc,
            force_usbv2: self.force_usbv2,
            force_bluetooth_qti: self.force_bluetooth_qti,
            amzm: self.amzm,
            test: self.test,
            test_template: copy_opt(&self.test_template),
        }
    }
}

// ---------------------------------------------------------------------------
// Persisted state
// ---------------------------------------------------------------------------

/// Everything the controller remembers between runs. The two flag vectors
/// hold one entry per feature of `JITTER_FEATURES`, in that order.
#[derive(Clone, Debug, PartialEq, Eq)]
pub struct StoredSettings {
    pub policy: Settings,
    pub policy_configured: bool,
    pub bluetooth_hal: String,
    pub bluetooth_hal_configured: bool,
    pub resampler_preset: String,
    pub resampler_configured: bool,
    pub resampler_bypass: String,
    pub resampler_cheat: bool,
    pub resampler_stop_band: u32,
    pub resampler_half_length: u32,
    pub resampler_percent: u32,
    pub usb_period: u32,
    pub usb_period_configured: bool,
    pub diagnostic: String,
    pub diagnostic_all: bool,
    pub jitter_values: Vec<bool>,
    pub jitter_configured: Vec<bool>,
    pub io_scheduler: String,
    pub io_tone: String,
    pub wifi_no_restart: bool,
    pub auto_reapply: bool,
}

pub struct StoredView {
    pub policy: SettingsView,
    pub policy_configured: bool,
    pub bluetooth_hal: Seq<char>,
    pub bluetooth_hal_configured: bool,
    pub resampler_preset: Seq<char>,
    pub resampler_configured: bool,
    pub resampler_bypass: Seq<char>,
    pub resampler_cheat: bool,
    pub resampler_stop_band: u32,
    pub resampler_half_length: u32,
    pub resampler_percent: u32,
    pub usb_period: u32,
    pub usb_period_configured: bool,
    pub diagnostic: Seq<char>,
    pub diagnostic_all: bool,
    pub jitter_values: Seq<bool>,
    pub jitter_configured: Seq<bool>,
    pub io_scheduler: Seq<char>,
    pub io_tone: Seq<char>,
    pub wifi_no_restart: bool,
    pub auto_reapply: bool,
}

impl View for StoredSettings {
    type V = StoredView;

    open spec fn view(&self) -> StoredView {
        StoredView {
            policy: self.policy@,
            policy_configured: self.policy_configured,
            bluetooth_hal: self.bluetooth_hal@,
            bluetooth_hal_configured: self.bluetooth_hal_configured,
            resampler_preset: self.resampler_preset@,
            resampler_configured: self.resampler_configured,
            resampler_bypass: self.resampler_bypass@,
            resampler_cheat: self.resampler_cheat,
            resampler_stop_band: self.resampler_stop_band,
            resampler_half_length: self.resampler_half_length,
            resampler_percent: self.resampler_percent,
            usb_period: self.usb_period,
            usb_period_configured: self.usb_period_configured,
            diagnostic: self.diagnostic@,
            diagnostic_all: self.diagnostic_all,
            jitter_values: flags_view(self.jitter_values@),
            jitter_configured: flags_view(self.jitter_configured@),
            io_scheduler: self.io_scheduler@,
            io_tone: self.io_tone@,
            wifi_no_restart: self.wifi_no_restart,
            auto_reapply: self.auto_reapply,
        }
    }
}

/// The state of a fresh installation.
pub open spec fn default_stored() -> StoredView {
    StoredView {
        policy: default_settings(),
        policy_configured: false,
        bluetooth_hal: "offload"@,
        bluetooth_hal_configured: false,
        resampler_preset: RESAMPLER_DEFAULT_PRESET@,
        resampler_configured: false,
        resampler_bypass: "none"@,
        resampler_cheat: true,
        resampler_stop_band: 179,
        resampler_half_length: 408,
        resampler_percent: 99,
        usb_period: 2_250,
        usb_period_configured: false,
        diagnostic: "audio"@,
        diagnostic_all: false,
        jitter_values: Seq::new(11, |i: int| false),
        jitter_configured: Seq::new(11, |i: int| false),
        io_scheduler: "*"@,
        io_tone: "medium"@,
        wifi_no_restart: false,
        auto_reapply: false,
    }
}

/// Eleven `false` flags.
pub fn no_flags() -> (r: Vec<bool>)
    ensures
        r@.len() == 11,
        forall|i: int| 0 <= i < 11 ==> !#[trigger] r@[i],
{
    let mut r: Vec<bool> = Vec::new();
    while r.len() < 11
        invariant
            r@.len() <= 11,
            forall|i: int| 0 <= i < r@.len() ==> !#[trigger] r@[i],
        decreases 11 - r@.len(),
    {
        r.push(false);
    }
    r
}

/// Sets entry `i` of a flag vector, growing it with `false` entries when it
/// is shorter.
pub fn set_flag(v: &mut Vec<bool>, i: usize, value: bool)
    requires
        i < 11,
    ensures
        flags_view(final(v)@) == flags_view(old(v)@).update(i as int, value),
        final(v)@.len() == if old(v)@.len() > i { old(v)@.len() as int } else { i + 1 },
{
    while v.len() <= i
        invariant
            i < 11,
            flags_view(v@) == flags_view(old(v)@),
            v@.len() <= i + 1 || v@.len() == old(v)@.len(),
            old(v)@.len() > i ==> v@ == old(v)@,
            old(v)@.len() <= i ==> v@.len() <= i + 1,
        decreases i + 1 - v@.len(),
    {
        v.push(false);
        assert(flags_view(v@) =~= flags_view(old(v)@));
    }
    v.set(i, value);
    assert(flags_view(v@) =~= flags_view(old(v)@).update(i as int, value));
}

/// Reads entry `i` of a flag vector.
pub fn get_flag(v: &Vec<bool>, i: usize) -> (r: bool)
    ensures
        r == flag_at(v@, i as int),
{
    if i < v.len() {
        v[i]
    } else {
        false
    }
}

impl Default for StoredSettings {
    fn default() -> (r: Self)
        ensures
            r@ == default_stored(),
            r.jitter_complete(),
    {
        let r = StoredSettings {
            policy: Settings::default(),
            policy_configured: false,
            bluetooth_hal: owned("offload"),
            bluetooth_hal_configured: false,
            resampler_preset: owned(RESAMPLER_DEFAULT_PRESET),
            resampler_configured: false,
            resampler_bypass: owned("none"),
            resampler_cheat: true,
            resampler_stop_band: 179,
            resampler_half_length: 408,
            resampler_percent: 99,
            usb_period: 2_250,
            usb_period_configured: false,
            diagnostic: owned("audio"),
            diagnostic_all: false,
            jitter_values: no_flags(),
            jitter_configured: no_flags(),
            io_scheduler: owned("*"),
            io_tone: owned("medium"),
            wifi_no_restart: false,
            auto_reapply: false,
        };
        assert(flags_view(r.jitter_values@) =~= Seq::new(11, |i: int| false));
        assert(flags_view(r.jitter_configured@) =~= Seq::new(11, |i: int| false));
        r
    }
}

impl StoredSettings {
    /// Both flag vectors hold one entry per jitter feature.
    pub open spec fn jitter_complete(&self) -> bool {
        self.jitter_values@.len() == 11 && self.jitter_configured@.len() == 11
    }

    /// A copy with the same view.
    pub fn copied(&self) -> (r: StoredSettings)
        ensures
            r@ == self@,
            self.jitter_complete() ==> r.jitter_complete(),
    {
        StoredSettings {
            policy: self.policy.copied(),
            policy_configured: self.policy_configured,
            bluetooth_hal: self.bluetooth_hal.clone(),
            bluetooth_hal_configured: self.bluetooth_hal_configured,
            resampler_preset: self.resampler_preset.clone(),
            resampler_configured: self.resampler_configured,
            resampler_bypass: self.resampler_bypass.clone(),
            resampler_cheat: self.resampler_cheat,
            resampler_stop_band: self.resampler_stop_band,
            resampler_half_length: self.resampler_half_length,
            resampler_percent: self.resampler_percent,
            usb_period: self.usb_period,
            usb_period_configured: self.usb_period_configured,
            diagnostic: self.diagnostic.clone(),
            diagnostic_all: self.diagnostic_all,
            jitter_values: self.jitter_values.clone(),
            jitter_configured: self.jitter_configured.clone(),
            io_scheduler: self.io_scheduler.clone(),
            io_tone: self.io_tone.clone(),
            wifi_no_restart: self.wifi_no_restart,
            auto_reapply: self.auto_reapply,
        }
    }

    /// The stored on/off value of a jitter feature, `None` for a name that
    /// is not a feature.
    pub fn jitter_value(&self, feature: &str) -> (r: Option<bool>)
        ensures
            r == (match feature_index(feature@) {
                Some(i) => Some(self@.jitter_values[i]),
                None => None::<bool>,
            }),
    {
        match crate::catalog::position(&JITTER_FEATURES, feature) {
            Some(i) => {
                proof { crate::catalog::lemma_index_from(JITTER_FEATURES@, feature@, 0); }
                Some(get_flag(&self.jitter_values, i))
            },
            None => None,
        }
    }

    /// Whether a jitter feature is recorded as configured, `None` for a name
    /// that is not a feature.
    pub fn jitter_is_configured(&self, feature: &str) -> (r: Option<bool>)
        ensures
            r == (match feature_index(feature@) {
                Some(i) => Some(self@.jitter_configured[i]),
                None => None::<bool>,
            }),
    {
        match crate::catalog::position(&JITTER_FEATURES, feature) {
            Some(i) => {
                proof { crate::catalog::lemma_index_from(JITTER_FEATURES@, feature@, 0); }
                Some(get_flag(&self.jitter_configured, i))
            },
            None => None,
        }
    }

    /// Records the on/off value of a jitter feature; other names are ignored.
    pub fn set_jitter_value(&mut self, feature: &str, value: bool)
        ensures
            old(self).jitter_complete() ==> final(self).jitter_complete(),
            final(self)@ == (match feature_index(feature@) {
                Some(i) => StoredView {
                    jitter_values: old(self)@.jitter_values.update(i, value),
                    ..old(self)@
                },
                None => old(self)@,
            }),
    {
        if let Some(i) = crate::catalog::position(&JITTER_FEATURES, feature) {
            proof { crate::catalog::lemma_index_from(JITTER_FEATURES@, feature@, 0); }
            set_flag(&mut self.jitter_values, i, value);
        }
    }

    /// Records whether a jitter feature is configured; other names are
    /// ignored.
    pub fn set_jitter_configured(&mut self, feature: &str, value: bool)
        ensures
            old(self).jitter_complete() ==> final(self).jitter_complete(),
            final(self)@ == (match feature_index(feature@) {
                Some(i) => StoredView {
                    jitter_configured: old(self)@.jitter_configured.update(i, value),
                    ..old(self)@
                },
                None => old(self)@,
            }),
    {
        if let Some(i) = crate::catalog::position(&JITTER_FEATURES, feature) {
            proof { crate::catalog::lemma_index_from(JITTER_FEATURES@, feature@, 0); }
            set_flag(&mut self.jitter_configured, i, value);
        }
    }
}

// ---------------------------------------------------------------------------
// Extras actions
// ---------------------------------------------------------------------------

#[derive(Clone, Debug, PartialEq, Eq)]
pub enum ExtraAction {
    BluetoothHal { action: String },
    ResamplerStatus,
    ResamplerReset,
    ResamplerPreset { preset: String },
    ResamplerCustom { bypass: String, cheat: bool, stop_band: u32, half_length: u32, percent: u32 },
    UsbPeriodStatus,
    UsbPeriodReset,
    UsbPeriodSet { period: u32 },
    JitterStatus,
    JitterSet {
        enabled: bool,
        feature: String,
        scheduler: Option<String>,
        tone: Option<String>,
        wifi_no_restart: bool,
    },
    Diagnose { kind: String, all: bool },
}

pub enum ExtraView {
    BluetoothHal { action: Seq<char> },
    ResamplerStatus,
    ResamplerReset,
    ResamplerPreset { preset: Seq<char> },
    ResamplerCustom {
        bypass: Seq<char>,
        cheat: bool,
        stop_band: u32,
        half_length: u32,
        percent: u32,
    },
    UsbPeriodStatus,
    UsbPeriodReset,
    UsbPeriodSet { period: u32 },
    JitterStatus,
    JitterSet {
        enabled: bool,
        feature: Seq<char>,
        scheduler: Option<Seq<char>>,
        tone: Option<Seq<char>>,
        wifi_no_restart: bool,
    },
    Diagnose { kind: Seq<char>, all: bool },
}

impl View for ExtraAction {
    type V = ExtraView;

    open spec fn view(&self) -> ExtraView {
        match self {
            ExtraAction::BluetoothHal { action } => ExtraView::BluetoothHal { action: action@ },
            ExtraAction::ResamplerStatus => ExtraView::ResamplerStatus,
            ExtraAction::ResamplerReset => ExtraView::ResamplerReset,
            ExtraAction::ResamplerPreset { preset } => ExtraView::ResamplerPreset {
                preset: preset@,
            },
            ExtraAction::ResamplerCustom { bypass, cheat, stop_band, half_length, percent } =>
                ExtraView::ResamplerCustom {
                bypass: bypass@,
                cheat: *cheat,
                stop_band: *stop_band,
                half_length: *half_length,
                percent: *percent,
            },
            ExtraAction::UsbPeriodStatus => ExtraView::UsbPeriodStatus,
            ExtraAction::UsbPeriodReset => ExtraView::UsbPeriodReset,
            ExtraAction::UsbPeriodSet { period } => ExtraView::UsbPeriodSet { period: *period },
            ExtraAction::JitterStatus => ExtraView::JitterStatus,
            ExtraAction::JitterSet { enabled, feature, scheduler, tone, wifi_no_restart } =>
                ExtraView::JitterSet {
                enabled: *enabled,
                feature: feature@,
                scheduler: opt_view(*scheduler),
                tone: opt_view(*tone),
                wifi_no_restart: *wifi_no_restart,
            },
            ExtraAction::Diagnose { kind, all } => ExtraView::Diagnose { kind: kind@, all: *all },
        }
    }
}

/// The tool name that labels an action in logs and operation records.
pub open spec fn tool_spec(a: ExtraView) -> Seq<char> {
    match a {
        ExtraView::BluetoothHal { .. } => "bluetooth-hal"@,
        ExtraView::ResamplerStatus | ExtraView::ResamplerReset | ExtraView::ResamplerPreset {
            ..
        } | ExtraView::ResamplerCustom { .. } => "resampler"@,
        ExtraView::UsbPeriodStatus | ExtraView::UsbPeriodReset | ExtraView::UsbPeriodSet {
            ..
        } => "usb-period"@,
        ExtraView::JitterStatus | ExtraView::JitterSet { .. } => "jitter"@,
        ExtraView::Diagnose { kind, .. } => "diagnose-"@ + kind,
    }
}

/// The diagnostic kinds that have an upstream script.
pub open spec fn known_diagnostic(kind: Seq<char>) -> bool {
    kind == "audio"@ || kind == "bluetooth"@ || kind == "config"@ || kind == "alsa"@
}

/// An action whose upstream script is known.
pub open spec fn has_script(a: ExtraView) -> bool {
    a matches ExtraView::Diagnose { kind, .. } ==> known_diagnostic(kind)
}

/// The upstream Extras script that carries out an action.
pub open spec fn script_spec(a: ExtraView) -> Seq<char> {
    match a {
        ExtraView::BluetoothHal { .. } => "change-bluetooth-hal.sh"@,
        ExtraView::ResamplerStatus | ExtraView::ResamplerReset | ExtraView::ResamplerPreset {
            ..
        } | ExtraView::ResamplerCustom { .. } => "change-resampling-quality.sh"@,
        ExtraView::UsbPeriodStatus | ExtraView::UsbPeriodReset | ExtraView::UsbPeriodSet {
            ..
        } => "change-usb-period.sh"@,
        ExtraView::JitterStatus | ExtraView::JitterSet { .. } => "jitter-reducer.sh"@,
        ExtraView::Diagnose { kind, .. } => if kind == "audio"@ {
            "dumpsys-filtered.sh"@
        } else if kind == "bluetooth"@ {
            "dumpsys-bluetooth-filtered.sh"@
        } else if kind == "config"@ {
            "getConfig.sh"@
        } else {
            "alsa-hw-params.sh"@
        },
    }
}

/// The flag that switches one jitter feature on (`--f`) or off (`++f`).
pub open spec fn jitter_flag(enabled: bool, feature: Seq<char>, wifi_no_restart: bool) -> Seq<
    char,
> {
    if feature == "wifi"@ && enabled && wifi_no_restart {
        "--wifi-no-restart"@
    } else if enabled {
        "--"@ + feature
    } else {
        "++"@ + feature
    }
}

/// The arguments passed to the upstream script of an action.
pub open spec fn script_args_spec(a: ExtraView) -> Seq<Seq<char>> {
    match a {
        ExtraView::BluetoothHal { action } => if action == "status"@ {
            seq!["--status"@]
        } else if action == "reset"@ {
            seq!["--reset"@]
        } else {
            seq![action]
        },
        ExtraView::ResamplerStatus => seq!["--status"@],
        ExtraView::ResamplerReset => seq!["--reset"@],
        ExtraView::ResamplerPreset { preset } => match preset_args(preset) {
            Some(args) => args,
            None => Seq::empty(),
        },
        ExtraView::ResamplerCustom { bypass, cheat, stop_band, half_length, percent } => {
            let b = if bypass == "48"@ {
                seq!["--bypass"@]
            } else if bypass == "96"@ {
                seq!["--bypass-hires"@]
            } else {
                Seq::empty()
            };
            let c = if cheat {
                seq!["--cheat"@]
            } else {
                Seq::empty()
            };
            b + c + seq![
                decimal(stop_band as nat),
                decimal(half_length as nat),
                decimal(percent as nat),
            ]
        },
        ExtraView::UsbPeriodStatus => seq!["--status"@],
        ExtraView::UsbPeriodReset => seq!["--reset"@],
        ExtraView::UsbPeriodSet { period } => seq![decimal(period as nat)],
        ExtraView::JitterStatus => seq!["--status"@],
        ExtraView::JitterSet { enabled, feature, scheduler, tone, wifi_no_restart } => {
            if feature == "all"@ {
                if enabled {
                    seq!["--all"@, "--status"@]
                } else {
                    seq!["++all"@, "++battery"@, "++effect"@, "--status"@]
                }
            } else if feature == "io"@ && enabled {
                seq![
                    jitter_flag(enabled, feature, wifi_no_restart),
                    match scheduler {
                        Some(s) => s,
                        None => "*"@,
                    },
                    match tone {
                        Some(t) => t,
                        None => "medium"@,
                    },
                    "--status"@,
                ]
            } else {
                seq![jitter_flag(enabled, feature, wifi_no_restart), "--status"@]
            }
        },
        ExtraView::Diagnose { all, .. } => if all {
            seq!["--all"@]
        } else {
            Seq::empty()
        },
    }
}

/// The first argument of the two catalog presets that bypass resampling
/// below a threshold.
proof fn lemma_bypass_presets()
    ensures
        preset_args("165-360-104"@) matches Some(a) && a.len() > 0 && a[0] == "--bypass"@,
        preset_args("cheap-96"@) matches Some(a) && a.len() > 0 && a[0] == "--bypass-hires"@,
{
    reveal_strlit("default");
    reveal_strlit("159-480-92");
    reveal_strlit("165-360-104");
    reveal_strlit("179-408-99");
    reveal_strlit("194-520-100");
    reveal_strlit("ultra-hifi");
    reveal_strlit("cheap-44");
    reveal_strlit("cheap-44-low");
    reveal_strlit("cheap-48");
    reveal_strlit("cheap-48-low");
    reveal_strlit("cheap-96");
    assert("default"@[0] == 'd' && "default"@[1] == 'e' && "default"@[2] == 'f' && "default"@[3] == 'a' && "default"@[4] == 'u' && "default"@[5] == 'l' && "default"@[6] == 't');
    assert("159-480-92"@[0] == '1' && "159-480-92"@[1] == '5' && "159-480-92"@[2] == '9' && "159-480-92"@[3] == '-' && "159-480-92"@[4] == '4' && "159-480-92"@[5] == '8' && "159-480-92"@[6] == '0' && "159-480-92"@[7] == '-' && "159-480-92"@[8] == '9' && "159-480-92"@[9] == '2');
    assert("165-360-104"@[0] == '1' && "165-360-104"@[1] == '6' && "165-360-104"@[2] == '5' && "165-360-104"@[3] == '-' && "165-360-104"@[4] == '3' && "165-360-104"@[5] == '6' && "165-360-104"@[6] == '0' && "165-360-104"@[7] == '-' && "165-360-104"@[8] == '1' && "165-360-104"@[9] == '0' && "165-360-104"@[10] == '4');
    assert("179-408-99"@[0] == '1' && "179-408-99"@[1] == '7' && "179-408-99"@[2] == '9' && "179-408-99"@[3] == '-' && "179-408-99"@[4] == '4' && "179-408-99"@[5] == '0' && "179-408-99"@[6] == '8' && "179-408-99"@[7] == '-' && "179-408-99"@[8] == '9' && "179-408-99"@[9] == '9');
    assert("194-520-100"@[0] == '1' && "194-520-100"@[1] == '9' && "194-520-100"@[2] == '4' && "194-520-100"@[3] == '-' && "194-520-100"@[4] == '5' && "194-520-100"@[5] == '2' && "194-520-100"@[6] == '0' && "194-520-100"@[7] == '-' && "194-520-100"@[8] == '1' && "194-520-100"@[9] == '0' && "194-520-100"@[10] == '0');
    assert("ultra-hifi"@[0] == 'u' && "ultra-hifi"@[1] == 'l' && "ultra-hifi"@[2] == 't' && "ultra-hifi"@[3] == 'r' && "ultra-hifi"@[4] == 'a' && "ultra-hifi"@[5] == '-' && "ultra-hifi"@[6] == 'h' && "ultra-hifi"@[7] == 'i' && "ultra-hifi"@[8] == 'f' && "ultra-hifi"@[9] == 'i');
    assert("cheap-44"@[0] == 'c' && "cheap-44"@[1] == 'h' && "cheap-44"@[2] == 'e' && "cheap-44"@[3] == 'a' && "cheap-44"@[4] == 'p' && "cheap-44"@[5] == '-' && "cheap-44"@[6] == '4' && "cheap-44"@[7] == '4');
    assert("cheap-44-low"@[0] == 'c' && "cheap-44-low"@[1] == 'h' && "cheap-44-low"@[2] == 'e' && "cheap-44-low"@[3] == 'a' && "cheap-44-low"@[4] == 'p' && "cheap-44-low"@[5] == '-' && "cheap-44-low"@[6] == '4' && "cheap-44-low"@[7] == '4' && "cheap-44-low"@[8] == '-' && "cheap-44-low"@[9] == 'l' && "cheap-44-low"@[10] == 'o' && "cheap-44-low"@[11] == 'w');
    assert("cheap-48"@[0] == 'c' && "cheap-48"@[1] == 'h' && "cheap-48"@[2] == 'e' && "cheap-48"@[3] == 'a' && "cheap-48"@[4] == 'p' && "cheap-48"@[5] == '-' && "cheap-48"@[6] == '4' && "cheap-48"@[7] == '8');
    assert("cheap-48-low"@[0] == 'c' && "cheap-48-low"@[1] == 'h' && "cheap-48-low"@[2] == 'e' && "cheap-48-low"@[3] == 'a' && "cheap-48-low"@[4] == 'p' && "cheap-48-low"@[5] == '-' && "cheap-48-low"@[6] == '4' && "cheap-48-low"@[7] == '8' && "cheap-48-low"@[8] == '-' && "cheap-48-low"@[9] == 'l' && "cheap-48-low"@[10] == 'o' && "cheap-48-low"@[11] == 'w');
    assert("cheap-96"@[0] == 'c' && "cheap-96"@[1] == 'h' && "cheap-96"@[2] == 'e' && "cheap-96"@[3] == 'a' && "cheap-96"@[4] == 'p' && "cheap-96"@[5] == '-' && "cheap-96"@[6] == '9' && "cheap-96"@[7] == '6');
}

/// A custom resampler with the given bypass choice and parameters.
pub open spec fn custom_resampler(bypass: Seq<char>, cheat: bool, stop: u32, half: u32, percent: u32) -> ExtraView {
    ExtraView::ResamplerCustom { bypass, cheat, stop_band: stop, half_length: half, percent }
}

/// The bypass flag of a custom resampler follows its activation threshold:
/// `48` passes the flag of the catalog preset that bypasses at 48 kHz,
/// `96` the flag of the one that bypasses at 96 kHz, `none` passes no
/// flag, and distinct bypass choices pass distinct arguments.
pub proof fn lemma_custom_bypass_args(cheat: bool, stop: u32, half: u32, percent: u32)
    ensures
        script_args_spec(custom_resampler("48"@, cheat, stop, half, percent))[0]
            == preset_args("165-360-104"@)->Some_0[0],
        script_args_spec(custom_resampler("96"@, cheat, stop, half, percent))[0]
            == preset_args("cheap-96"@)->Some_0[0],
        script_args_spec(custom_resampler("none"@, cheat, stop, half, percent)).len() == 3 + (if cheat {
            1int
        } else {
            0int
        }),
        forall|i: int, j: int|
            0 <= i < 3 && 0 <= j < 3 && i != j ==> script_args_spec(
                custom_resampler(#[trigger] crate::catalog::RESAMPLER_BYPASSES[i].0@, cheat, stop, half, percent),
            ) != script_args_spec(
                custom_resampler(#[trigger] crate::catalog::RESAMPLER_BYPASSES[j].0@, cheat, stop, half, percent),
            ),
{
    lemma_bypass_presets();
    reveal_strlit("none");
    reveal_strlit("48");
    reveal_strlit("96");
    reveal_strlit("--bypass");
    reveal_strlit("--bypass-hires");
    assert("none"@[0] == 'n' && "48"@[0] == '4' && "96"@[0] == '9');
    assert("--bypass"@.len() != "--bypass-hires"@.len());
    let a = script_args_spec(custom_resampler("none"@, cheat, stop, half, percent));
    let b = script_args_spec(custom_resampler("48"@, cheat, stop, half, percent));
    let c = script_args_spec(custom_resampler("96"@, cheat, stop, half, percent));
    assert(a.len() + 1 == b.len());
    assert(b.len() == c.len());
    assert(b[0] != c[0]);
}

/// Whether the action restarts audioserver once its script has run.
pub open spec fn requires_restart_spec(a: ExtraView) -> bool {
    match a {
        ExtraView::BluetoothHal { action } => action != "status"@,
        ExtraView::ResamplerReset | ExtraView::ResamplerPreset { .. }
        | ExtraView::ResamplerCustom { .. } | ExtraView::UsbPeriodReset
        | ExtraView::UsbPeriodSet { .. } => true,
        ExtraView::JitterSet { enabled, feature, .. } => feature == "effect"@ || (feature
            == "all"@ && !enabled),
        _ => false,
    }
}

/// Whether the Bluetooth media route is re-checked after the action.
pub open spec fn requires_a2dp_spec(a: ExtraView) -> bool {
    !(a is JitterStatus || a is JitterSet) && requires_restart_spec(a)
}

/// Whether a successful action changes the persisted state.
pub open spec fn persists_spec(a: ExtraView) -> bool {
    !(a matches ExtraView::BluetoothHal { action } && action == "status"@) && !(a is ResamplerStatus
        || a is UsbPeriodStatus || a is JitterStatus)
}

/// Whether the action only reads the system.
pub open spec fn is_query_spec(a: ExtraView) -> bool {
    (a matches ExtraView::BluetoothHal { action } && action == "status"@) || a is ResamplerStatus
        || a is UsbPeriodStatus || a is JitterStatus || a is Diagnose
}

fn strings_of(v: Vec<&'static str>) -> (r: Vec<String>)
    ensures
        crate::text::views(r@) == str_views(v@),
{
    let mut r: Vec<String> = Vec::new();
    let mut i: usize = 0;
    while i < v.len()
        invariant
            i <= v@.len(),
            crate::text::views(r@) == str_views(v@.take(i as int)),
        decreases v@.len() - i,
    {
        r.push(owned(v[i]));
        assert(str_views(v@.take(i + 1)) =~= str_views(v@.take(i as int)).push(v@[i as int]@));
        assert(crate::text::views(r@) =~= crate::text::views(r@.drop_last()).push(r@.last()@));
        i += 1;
    }
    assert(v@.take(v@.len() as int) =~= v@);
    r
}

fn one(a: &str) -> (r: Vec<String>)
    ensures
        crate::text::views(r@) == seq![a@],
{
    let mut r = Vec::new();
    r.push(owned(a));
    assert(crate::text::views(r@) =~= seq![a@]);
    r
}

impl ExtraAction {
    /// The tool name of the action.
    pub fn tool(&self) -> (r: String)
        ensures
            r@ == tool_spec(self@),
    {
        match self {
            ExtraAction::BluetoothHal { .. } => owned("bluetooth-hal"),
            ExtraAction::ResamplerStatus
            | ExtraAction::ResamplerReset
            | ExtraAction::ResamplerPreset { .. }
            | ExtraAction::ResamplerCustom { .. } => owned("resampler"),
            ExtraAction::UsbPeriodStatus
            | ExtraAction::UsbPeriodReset
            | ExtraAction::UsbPeriodSet { .. } => owned("usb-period"),
            ExtraAction::JitterStatus | ExtraAction::JitterSet { .. } => owned("jitter"),
            ExtraAction::Diagnose { kind, .. } => concat2("diagnose-", kind.as_str()),
        }
    }

    /// The upstream script of the action.
    pub fn script(&self) -> (r: &'static str)
        requires
            has_script(self@),
        ensures
            r@ == script_spec(self@),
    {
        match self {
            ExtraAction::BluetoothHal { .. } => "change-bluetooth-hal.sh",
            ExtraAction::ResamplerStatus
            | ExtraAction::ResamplerReset
            | ExtraAction::ResamplerPreset { .. }
            | ExtraAction::ResamplerCustom { .. } => "change-resampling-quality.sh",
            ExtraAction::UsbPeriodStatus
            | ExtraAction::UsbPeriodReset
            | ExtraAction::UsbPeriodSet { .. } => "change-usb-period.sh",
            ExtraAction::JitterStatus | ExtraAction::JitterSet { .. } => "jitter-reducer.sh",
            ExtraAction::Diagnose { kind, .. } => {
                if eq_str(kind.as_str(), "audio") {
                    "dumpsys-filtered.sh"
                } else if eq_str(kind.as_str(), "bluetooth") {
                    "dumpsys-bluetooth-filtered.sh"
                } else if eq_str(kind.as_str(), "config") {
                    "getConfig.sh"
                } else {
                    "alsa-hw-params.sh"
                }
            },
        }
    }

    /// The arguments of the upstream script.
    pub fn script_args(&self) -> (r: Vec<String>)
        ensures
            crate::text::views(r@) == script_args_spec(self@),
    {
        match self {
            ExtraAction::BluetoothHal { action } => {
                if eq_str(action.as_str(), "status") {
                    one("--status")
                } else if eq_str(action.as_str(), "reset") {
                    one("--reset")
                } else {
                    one(action.as_str())
                }
            },
            ExtraAction::ResamplerStatus => one("--status"),
            ExtraAction::ResamplerReset => one("--reset"),
            ExtraAction::ResamplerPreset { preset } => match resampler_preset_args(
                preset.as_str(),
            ) {
                Some(args) => strings_of(args),
                None => {
                    let r: Vec<String> = Vec::new();
                    assert(crate::text::views(r@) =~= Seq::<Seq<char>>::empty());
                    r
                },
            },
            ExtraAction::ResamplerCustom { bypass, cheat, stop_band, half_length, percent } => {
                let mut args: Vec<String> = Vec::new();
                if eq_str(bypass.as_str(), "48") {
                    args.push(owned("--bypass"));
                } else if eq_str(bypass.as_str(), "96") {
                    args.push(owned("--bypass-hires"));
                }
                let ghost b = crate::text::views(args@);
                if *cheat {
                    args.push(owned("--cheat"));
                }
                let ghost bc = crate::text::views(args@);
                args.push(u32_to_string(*stop_band));
                args.push(u32_to_string(*half_length));
                args.push(u32_to_string(*percent));
                assert(crate::text::views(args@) =~= script_args_spec(self@));
                args
            },
            ExtraAction::UsbPeriodStatus => one("--status"),
            ExtraAction::UsbPeriodReset => one("--reset"),
            ExtraAction::UsbPeriodSet { period } => {
                let mut r = Vec::new();
                r.push(u32_to_string(*period));
                assert(crate::text::views(r@) =~= script_args_spec(self@));
                r
            },
            ExtraAction::JitterStatus => one("--status"),
            ExtraAction::JitterSet { enabled, feature, scheduler, tone, wifi_no_restart } => {
                let mut args: Vec<String> = Vec::new();
                if eq_str(feature.as_str(), "all") {
                    if *enabled {
                        args.push(owned("--all"));
                    } else {
                        args.push(owned("++all"));
                        args.push(owned("++battery"));
                        args.push(owned("++effect"));
                    }
                } else {
                    let flag = if eq_str(feature.as_str(), "wifi") && *enabled && *wifi_no_restart {
                        owned("--wifi-no-restart")
                    } else if *enabled {
                        concat2("--", feature.as_str())
                    } else {
                        concat2("++", feature.as_str())
                    };
                    args.push(flag);
                    if eq_str(feature.as_str(), "io") && *enabled {
                        args.push(
                            match scheduler {
                                Some(s) => s.clone(),
                                None => owned("*"),
                            },
                        );
                        args.push(
                            match tone {
                                Some(t) => t.clone(),
                                None => owned("medium"),
                            },
                        );
                    }
                }
                args.push(owned("--status"));
                assert(crate::text::views(args@) =~= script_args_spec(self@));
                args
            },
            ExtraAction::Diagnose { all, .. } => {
                if *all {
                    one("--all")
                } else {
                    let r: Vec<String> = Vec::new();
                    assert(crate::text::views(r@) =~= Seq::<Seq<char>>::empty());
                    r
                }
            },
        }
    }

    /// Whether the action restarts audioserver.
    pub fn requires_audio_restart(&self) -> (r: bool)
        ensures
            r == requires_restart_spec(self@),
    {
        match self {
            ExtraAction::BluetoothHal { action } => !eq_str(action.as_str(), "status"),
            ExtraAction::ResamplerReset
            | ExtraAction::ResamplerPreset { .. }
            | ExtraAction::ResamplerCustom { .. }
            | ExtraAction::UsbPeriodReset
            | ExtraAction::UsbPeriodSet { .. } => true,
            ExtraAction::JitterSet { enabled, feature, .. } => eq_str(feature.as_str(), "effect")
                || (eq_str(feature.as_str(), "all") && !*enabled),
            ExtraAction::ResamplerStatus
            | ExtraAction::UsbPeriodStatus
            | ExtraAction::JitterStatus
            | ExtraAction::Diagnose { .. } => false,
        }
    }

    /// Whether the Bluetooth route is verified after the action. Jitter's
    /// effect mode restarts audioserver without touching routing.
    pub fn requires_a2dp_post_check(&self) -> (r: bool)
        ensures
            r == requires_a2dp_spec(self@),
    {
        let jitter = match self {
            ExtraAction::JitterStatus | ExtraAction::JitterSet { .. } => true,
            _ => false,
        };
        !jitter && self.requires_audio_restart()
    }

    /// Whether a successful run is recorded in the persisted state.
    pub fn persists_state(&self) -> (r: bool)
        ensures
            r == persists_spec(self@),
    {
        match self {
            ExtraAction::BluetoothHal { action } => !eq_str(action.as_str(), "status"),
            ExtraAction::ResamplerStatus
            | ExtraAction::UsbPeriodStatus
            | ExtraAction::JitterStatus => false,
            _ => true,
        }
    }

    /// Whether the action only queries the system.
    pub fn is_query(&self) -> (r: bool)
        ensures
            r == is_query_spec(self@),
    {
        match self {
            ExtraAction::BluetoothHal { action } => eq_str(action.as_str(), "status"),
            ExtraAction::ResamplerStatus
            | ExtraAction::UsbPeriodStatus
            | ExtraAction::JitterStatus
            | ExtraAction::Diagnose { .. } => true,
            _ => false,
        }
    }

    /// A copy with the same view.
    pub fn copied(&self) -> (r: ExtraAction)
        ensures
            r@ == self@,
    {
        match self {
            ExtraAction::BluetoothHal { action } => ExtraAction::BluetoothHal {
                action: action.clone(),
            },
            ExtraAction::ResamplerStatus => ExtraAction::ResamplerStatus,
            ExtraAction::ResamplerReset => ExtraAction::ResamplerReset,
            ExtraAction::ResamplerPreset { preset } => ExtraAction::ResamplerPreset {
                preset: preset.clone(),
            },
            ExtraAction::ResamplerCustom { bypass, cheat, stop_band, half_length, percent } =>
                ExtraAction::ResamplerCustom {
                bypass: bypass.clone(),
                cheat: *cheat,
                stop_band: *stop_band,
                half_length: *half_length,
                percent: *percent,
            },
            ExtraAction::UsbPeriodStatus => ExtraAction::UsbPeriodStatus,
            ExtraAction::UsbPeriodReset => ExtraAction::UsbPeriodReset,
            ExtraAction::UsbPeriodSet { period } => ExtraAction::UsbPeriodSet { period: *period },
            ExtraAction::JitterStatus => ExtraAction::JitterStatus,
            ExtraAction::JitterSet { enabled, feature, scheduler, tone, wifi_no_restart } =>
                ExtraAction::JitterSet {
                enabled: *enabled,
                feature: feature.clone(),
                scheduler: copy_opt(scheduler),
                tone: copy_opt(tone),
                wifi_no_restart: *wifi_no_restart,
            },
            ExtraAction::Diagnose { kind, all } => ExtraAction::Diagnose {
                kind: kind.clone(),
                all: *all,
            },
        }
    }
}

// ---------------------------------------------------------------------------
// Reapply steps
// ---------------------------------------------------------------------------

#[derive(Clone, Debug, PartialEq, Eq)]
pub enum ReapplyAction {
    Policy(Settings),
    Extra(ExtraAction),
}

pub enum ReapplyView {
    Policy(SettingsView),
    Extra(ExtraView),
}

impl View for ReapplyAction {
    type V = ReapplyView;

    open spec fn view(&self) -> ReapplyView {
        match self {
            ReapplyAction::Policy(s) => ReapplyView::Policy(s@),
            ReapplyAction::Extra(a) => ReapplyView::Extra(a@),
        }
    }
}

pub open spec fn reapply_restart_spec(a: ReapplyView) -> bool {
    match a {
        ReapplyView::Policy(_) => true,
        ReapplyView::Extra(e) => requires_restart_spec(e),
    }
}

pub open spec fn reapply_a2dp_spec(a: ReapplyView) -> bool {
    match a {
        ReapplyView::Policy(_) => true,
        ReapplyView::Extra(e) => requires_a2dp_spec(e),
    }
}

impl ReapplyAction {
    /// Policies always restart audioserver; Extras as their action does.
    pub fn requires_audio_restart(&self) -> (r: bool)
        ensures
            r == reapply_restart_spec(self@),
    {
        match self {
            ReapplyAction::Policy(_) => true,
            ReapplyAction::Extra(action) => action.requires_audio_restart(),
        }
    }

    /// Policies always verify the Bluetooth route; Extras as their action does.
    pub fn requires_a2dp_post_check(&self) -> (r: bool)
        ensures
            r == reapply_a2dp_spec(self@),
    {
        match self {
            ReapplyAction::Policy(_) => true,
            ReapplyAction::Extra(action) => action.requires_a2dp_post_check(),
        }
    }
}

// ---------------------------------------------------------------------------
// Mount namespaces
// ---------------------------------------------------------------------------

/// The mount namespaces seen by the controller, init and audioserver.
#[derive(Clone, Debug)]
pub struct NamespaceInfo {
    pub self_ns: Option<String>,
    pub init_ns: Option<String>,
    pub audio_ns: Option<String>,
    pub audio_pid: Option<u32>,
}

impl NamespaceInfo {
    /// Whether the controller shares audioserver's namespace, when both are
    /// known.
    pub fn matches(&self) -> (r: Option<bool>)
        ensures
            r == (match (opt_view(self.self_ns), opt_view(self.audio_ns)) {
                (Some(a), Some(b)) => Some(a == b),
                _ => None::<bool>,
            }),
    {
        match (&self.self_ns, &self.audio_ns) {
            (Some(left), Some(right)) => Some(eq_str(left.as_str(), right.as_str())),
            _ => None,
        }
    }

    /// Whether the controller runs in init's (the global) namespace, when
    /// both are known.
    pub open spec fn is_global_spec(&self) -> Option<bool> {
        match (opt_view(self.self_ns), opt_view(self.init_ns)) {
            (Some(a), Some(b)) => Some(a == b),
            _ => None::<bool>,
        }
    }

    pub fn is_global(&self) -> (r: Option<bool>)
        ensures
            r == self.is_global_spec(),
    {
        match (&self.self_ns, &self.init_ns) {
            (Some(left), Some(right)) => Some(eq_str(left.as_str(), right.as_str())),
            _ => None,
        }
    }
}

/// Whether an operation applies or resets a policy.
#[derive(Clone, Copy, Debug, PartialEq, Eq)]
pub enum Action {
    Apply,
    Reset,
}

impl Action {
    pub fn label(self) -> (r: &'static str)
        ensures
            r@ == (match self {
                Action::Apply => "apply"@,
                Action::Reset => "reset"@,
            }),
    {
        match self {
            Action::Apply => "apply",
            Action::Reset => "reset",
        }
    }
}

} // verus!
