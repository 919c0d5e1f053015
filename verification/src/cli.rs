//! The controller's command line: the accepted commands, the policy options
//! and the strictly whitelisted Extras actions.
use vstd::prelude::*;

use crate::catalog::{
    canonical_preset, canonical_resampler_preset, is_listed, listed, preset_args,
    resampler_preset_args, BLUETOOTH_HAL_OPTIONS, DIAGNOSTIC_TYPES, IO_SCHEDULERS, IO_TONES,
    JITTER_FEATURES, RESAMPLER_BYPASSES, RESAMPLER_MODES,
};
use crate::domain::{default_settings, opt_view, ExtraAction, ExtraView, Settings, SettingsView};
use crate::text::{concat2, concat3, decimal, eq_str, owned, parse_u32, parse_u32_spec, views};

verus! {

broadcast use vstd::string::group_string_axioms;

#[derive(Clone, Debug, PartialEq, Eq)]
pub enum ControllerCommand {
    Schema { json: bool },
    Status,
    Logs,
    Generated,
    Preview(Settings),
    Apply(Settings),
    Reset,
    Cleanup,
    Extra(ExtraAction),
    SetAutoReapply(bool),
    SetAudioserverPriority(bool),
    Reapply,
}

pub enum CommandView {
    Schema { json: bool },
    Status,
    Logs,
    Generated,
    Preview(SettingsView),
    Apply(SettingsView),
    Reset,
    Cleanup,
    Extra(ExtraView),
    SetAutoReapply(bool),
    SetAudioserverPriority(bool),
    Reapply,
}

impl View for ControllerCommand {
    type V = CommandView;

    open spec fn view(&self) -> CommandView {
        match self {
            ControllerCommand::Schema { json } => CommandView::Schema { json: *json },
            ControllerCommand::Status => CommandView::Status,
            ControllerCommand::Logs => CommandView::Logs,
            ControllerCommand::Generated => CommandView::Generated,
            ControllerCommand::Preview(s) => CommandView::Preview(s@),
            ControllerCommand::Apply(s) => CommandView::Apply(s@),
            ControllerCommand::Reset => CommandView::Reset,
            ControllerCommand::Cleanup => CommandView::Cleanup,
            ControllerCommand::Extra(a) => CommandView::Extra(a@),
            ControllerCommand::SetAutoReapply(b) => CommandView::SetAutoReapply(*b),
            ControllerCommand::SetAudioserverPriority(b) => CommandView::SetAudioserverPriority(
                *b,
            ),
            ControllerCommand::Reapply => CommandView::Reapply,
        }
    }
}

pub open spec fn result_view<T, V>(r: Result<T, String>, f: spec_fn(T) -> V) -> Result<V, Seq<char>> {
    match r {
        Ok(t) => Ok(f(t)),
        Err(e) => Err(e@),
    }
}

// ---------------------------------------------------------------------------
// Sample rates
// ---------------------------------------------------------------------------

/// The documented shorthand names of sample rates.
pub open spec fn rate_alias(v: Seq<char>) -> Option<u32> {
    if v == "44k"@ || v == "44.1k"@ {
        Some(44_100)
    } else if v == "48k"@ {
        Some(48_000)
    } else if v == "88k"@ || v == "88.2k"@ {
        Some(88_200)
    } else if v == "96k"@ {
        Some(96_000)
    } else if v == "176k"@ || v == "176.4k"@ {
        Some(176_400)
    } else if v == "192k"@ {
        Some(192_000)
    } else if v == "352k"@ || v == "353k"@ || v == "352.8k"@ {
        Some(352_800)
    } else if v == "384k"@ {
        Some(384_000)
    } else if v == "705k"@ || v == "706k"@ || v == "705.6k"@ {
        Some(705_600)
    } else if v == "768k"@ {
        Some(768_000)
    } else {
        None
    }
}

/// Each alias and the rate it reads as.
proof fn lemma_alias_table()
    ensures
        rate_alias("44k"@) == Some(44100u32),
        rate_alias("44.1k"@) == Some(44100u32),
        rate_alias("48k"@) == Some(48000u32),
        rate_alias("88k"@) == Some(88200u32),
        rate_alias("88.2k"@) == Some(88200u32),
        rate_alias("96k"@) == Some(96000u32),
        rate_alias("176k"@) == Some(176400u32),
        rate_alias("176.4k"@) == Some(176400u32),
        rate_alias("192k"@) == Some(192000u32),
        rate_alias("352k"@) == Some(352800u32),
        rate_alias("353k"@) == Some(352800u32),
        rate_alias("352.8k"@) == Some(352800u32),
        rate_alias("384k"@) == Some(384000u32),
        rate_alias("705k"@) == Some(705600u32),
        rate_alias("706k"@) == Some(705600u32),
        rate_alias("705.6k"@) == Some(705600u32),
        rate_alias("768k"@) == Some(768000u32),
{
    reveal_strlit("44k");
    reveal_strlit("44.1k");
    reveal_strlit("48k");
    reveal_strlit("88k");
    reveal_strlit("88.2k");
    reveal_strlit("96k");
    reveal_strlit("176k");
    reveal_strlit("176.4k");
    reveal_strlit("192k");
    reveal_strlit("352k");
    reveal_strlit("353k");
    reveal_strlit("352.8k");
    reveal_strlit("384k");
    reveal_strlit("705k");
    reveal_strlit("706k");
    reveal_strlit("705.6k");
    reveal_strlit("768k");
    assert("44k"@[0] == '4' && "44k"@[1] == '4' && "44k"@[2] == 'k');
    assert("44.1k"@[0] == '4' && "44.1k"@[1] == '4' && "44.1k"@[2] == '.' && "44.1k"@[3] == '1' && "44.1k"@[4] == 'k');
    assert("48k"@[0] == '4' && "48k"@[1] == '8' && "48k"@[2] == 'k');
    assert("88k"@[0] == '8' && "88k"@[1] == '8' && "88k"@[2] == 'k');
    assert("88.2k"@[0] == '8' && "88.2k"@[1] == '8' && "88.2k"@[2] == '.' && "88.2k"@[3] == '2' && "88.2k"@[4] == 'k');
    assert("96k"@[0] == '9' && "96k"@[1] == '6' && "96k"@[2] == 'k');
    assert("176k"@[0] == '1' && "176k"@[1] == '7' && "176k"@[2] == '6' && "176k"@[3] == 'k');
    assert("176.4k"@[0] == '1' && "176.4k"@[1] == '7' && "176.4k"@[2] == '6' && "176.4k"@[3] == '.' && "176.4k"@[4] == '4' && "176.4k"@[5] == 'k');
    assert("192k"@[0] == '1' && "192k"@[1] == '9' && "192k"@[2] == '2' && "192k"@[3] == 'k');
    assert("352k"@[0] == '3' && "352k"@[1] == '5' && "352k"@[2] == '2' && "352k"@[3] == 'k');
    assert("353k"@[0] == '3' && "353k"@[1] == '5' && "353k"@[2] == '3' && "353k"@[3] == 'k');
    assert("352.8k"@[0] == '3' && "352.8k"@[1] == '5' && "352.8k"@[2] == '2' && "352.8k"@[3] == '.' && "352.8k"@[4] == '8' && "352.8k"@[5] == 'k');
    assert("384k"@[0] == '3' && "384k"@[1] == '8' && "384k"@[2] == '4' && "384k"@[3] == 'k');
    assert("705k"@[0] == '7' && "705k"@[1] == '0' && "705k"@[2] == '5' && "705k"@[3] == 'k');
    assert("706k"@[0] == '7' && "706k"@[1] == '0' && "706k"@[2] == '6' && "706k"@[3] == 'k');
    assert("705.6k"@[0] == '7' && "705.6k"@[1] == '0' && "705.6k"@[2] == '5' && "705.6k"@[3] == '.' && "705.6k"@[4] == '6' && "705.6k"@[5] == 'k');
    assert("768k"@[0] == '7' && "768k"@[1] == '6' && "768k"@[2] == '8' && "768k"@[3] == 'k');
}

/// The alias of a rate labelled `N kHz`: `Nk`.
pub open spec fn khz_alias(label: Seq<char>) -> Seq<char> {
    label.take(label.len() - 4) + "k"@
}

/// Each documented rate is reached through its alias: the label `N kHz`
/// gives the alias `Nk`, which reads as that rate; and every alias reads
/// as a documented rate.
pub proof fn lemma_documented_aliases()
    ensures
        forall|i: int|
            0 <= i < 10 ==> normalize_rate_spec(khz_alias(#[trigger] crate::catalog::DOCUMENTED_RATES[i].1@))
                == Ok::<u32, Seq<char>>(crate::catalog::DOCUMENTED_RATES[i].0),
        forall|v: Seq<char>|
            #[trigger] rate_alias(v) is Some ==> exists|i: int|
                0 <= i < 10 && crate::catalog::DOCUMENTED_RATES[i].0 == rate_alias(v)->Some_0,
{
    assert forall|i: int|
        0 <= i < 10 implies normalize_rate_spec(khz_alias(#[trigger] crate::catalog::DOCUMENTED_RATES[i].1@))
            == Ok::<u32, Seq<char>>(crate::catalog::DOCUMENTED_RATES[i].0) by {
        reveal_strlit("k");
        lemma_alias_table();
        if i == 0 {
            reveal_strlit("44.1 kHz");
            reveal_strlit("44.1k");
            assert(khz_alias(crate::catalog::DOCUMENTED_RATES[i].1@) =~= "44.1k"@);
        } else if i == 1 {
            reveal_strlit("48 kHz");
            reveal_strlit("48k");
            assert(khz_alias(crate::catalog::DOCUMENTED_RATES[i].1@) =~= "48k"@);
        } else if i == 2 {
            reveal_strlit("88.2 kHz");
            reveal_strlit("88.2k");
            assert(khz_alias(crate::catalog::DOCUMENTED_RATES[i].1@) =~= "88.2k"@);
        } else if i == 3 {
            reveal_strlit("96 kHz");
            reveal_strlit("96k");
            assert(khz_alias(crate::catalog::DOCUMENTED_RATES[i].1@) =~= "96k"@);
        } else if i == 4 {
            reveal_strlit("176.4 kHz");
            reveal_strlit("176.4k");
            assert(khz_alias(crate::catalog::DOCUMENTED_RATES[i].1@) =~= "176.4k"@);
        } else if i == 5 {
            reveal_strlit("192 kHz");
            reveal_strlit("192k");
            assert(khz_alias(crate::catalog::DOCUMENTED_RATES[i].1@) =~= "192k"@);
        } else if i == 6 {
            reveal_strlit("352.8 kHz");
            reveal_strlit("352.8k");
            assert(khz_alias(crate::catalog::DOCUMENTED_RATES[i].1@) =~= "352.8k"@);
        } else if i == 7 {
            reveal_strlit("384 kHz");
            reveal_strlit("384k");
            assert(khz_alias(crate::catalog::DOCUMENTED_RATES[i].1@) =~= "384k"@);
        } else if i == 8 {
            reveal_strlit("705.6 kHz");
            reveal_strlit("705.6k");
            assert(khz_alias(crate::catalog::DOCUMENTED_RATES[i].1@) =~= "705.6k"@);
        } else if i == 9 {
            reveal_strlit("768 kHz");
            reveal_strlit("768k");
            assert(khz_alias(crate::catalog::DOCUMENTED_RATES[i].1@) =~= "768k"@);
        }
    }
    assert forall|v: Seq<char>| #[trigger] rate_alias(v) is Some implies exists|i: int|
        0 <= i < 10 && crate::catalog::DOCUMENTED_RATES[i].0 == rate_alias(v)->Some_0 by {
        let r = rate_alias(v)->Some_0;
        if r == 44_100 {
            assert(crate::catalog::DOCUMENTED_RATES[0].0 == r);
        } else if r == 48_000 {
            assert(crate::catalog::DOCUMENTED_RATES[1].0 == r);
        } else if r == 88_200 {
            assert(crate::catalog::DOCUMENTED_RATES[2].0 == r);
        } else if r == 96_000 {
            assert(crate::catalog::DOCUMENTED_RATES[3].0 == r);
        } else if r == 176_400 {
            assert(crate::catalog::DOCUMENTED_RATES[4].0 == r);
        } else if r == 192_000 {
            assert(crate::catalog::DOCUMENTED_RATES[5].0 == r);
        } else if r == 352_800 {
            assert(crate::catalog::DOCUMENTED_RATES[6].0 == r);
        } else if r == 384_000 {
            assert(crate::catalog::DOCUMENTED_RATES[7].0 == r);
        } else if r == 705_600 {
            assert(crate::catalog::DOCUMENTED_RATES[8].0 == r);
        } else {
            assert(crate::catalog::DOCUMENTED_RATES[9].0 == r);
        }
    }
}

/// A sample rate as the controller accepts it: an alias or a decimal number
/// of Hz, between 44.1 kHz and 768 kHz.
pub open spec fn normalize_rate_spec(v: Seq<char>) -> Result<u32, Seq<char>> {
    let n = match rate_alias(v) {
        Some(n) => Some(n),
        None => parse_u32_spec(v),
    };
    match n {
        None => Err("invalid sample rate: "@ + v),
        Some(n) => if 44_100 <= n <= 768_000 {
            Ok(n)
        } else {
            Err("sample rate must be between 44100 and 768000 Hz: "@ + decimal(n as nat))
        },
    }
}

/// A number written in decimal digits is not an alias.
pub proof fn lemma_digits_not_alias(v: Seq<char>)
    requires
        crate::text::all_digits(v),
    ensures
        rate_alias(v) is None,
{
    reveal_strlit("44k");
    reveal_strlit("44.1k");
    reveal_strlit("48k");
    reveal_strlit("88k");
    reveal_strlit("88.2k");
    reveal_strlit("96k");
    reveal_strlit("176k");
    reveal_strlit("176.4k");
    reveal_strlit("192k");
    reveal_strlit("352k");
    reveal_strlit("353k");
    reveal_strlit("352.8k");
    reveal_strlit("384k");
    reveal_strlit("705k");
    reveal_strlit("706k");
    reveal_strlit("705.6k");
    reveal_strlit("768k");
    if v.len() == 3 {
        assert(!crate::text::is_digit(v[2]) ==> false);
        assert("44k"@[2] == 'k');
    }
    if v.len() == 4 {
        assert(crate::text::is_digit(v[3]));
    }
    if v.len() == 5 {
        assert(crate::text::is_digit(v[4]));
    }
    if v.len() == 6 {
        assert(crate::text::is_digit(v[5]));
    }
}

/// Every rate of the supported range, written in decimal, is accepted as
/// that rate.
pub proof fn lemma_rate_range_accepted(n: u32)
    requires
        44_100 <= n <= 768_000,
    ensures
        normalize_rate_spec(decimal(n as nat)) == Ok::<u32, Seq<char>>(n),
{
    crate::text::lemma_decimal(n as nat);
    lemma_digits_not_alias(decimal(n as nat));
    crate::text::lemma_parse_decimal(n);
}

/// Reads a sample rate.
pub fn normalize_sample_rate(value: &str) -> (r: Result<u32, String>)
    ensures
        result_view(r, |n: u32| n) == normalize_rate_spec(value@),
{
    let alias: Option<u32> = if eq_str(value, "44k") || eq_str(value, "44.1k") {
        Some(44_100)
    } else if eq_str(value, "48k") {
        Some(48_000)
    } else if eq_str(value, "88k") || eq_str(value, "88.2k") {
        Some(88_200)
    } else if eq_str(value, "96k") {
        Some(96_000)
    } else if eq_str(value, "176k") || eq_str(value, "176.4k") {
        Some(176_400)
    } else if eq_str(value, "192k") {
        Some(192_000)
    } else if eq_str(value, "352k") || eq_str(value, "353k") || eq_str(value, "352.8k") {
        Some(352_800)
    } else if eq_str(value, "384k") {
        Some(384_000)
    } else if eq_str(value, "705k") || eq_str(value, "706k") || eq_str(value, "705.6k") {
        Some(705_600)
    } else if eq_str(value, "768k") {
        Some(768_000)
    } else {
        None
    };
    let n = match alias {
        Some(n) => n,
        None => match parse_u32(value) {
            Some(n) => n,
            None => return Err(concat2("invalid sample rate: ", value)),
        },
    };
    if n < 44_100 || n > 768_000 {
        let digits = crate::text::u32_to_string(n);
        return Err(concat2("sample rate must be between 44100 and 768000 Hz: ", digits.as_str()));
    }
    Ok(n)
}

// ---------------------------------------------------------------------------
// Policy options
// ---------------------------------------------------------------------------

/// The settings that the options `args[i..]` produce from `s`.
pub open spec fn settings_from(args: Seq<Seq<char>>, i: int, s: SettingsView) -> Result<
    SettingsView,
    Seq<char>,
>
    decreases args.len() - i,
{
    if i < 0 || i >= args.len() {
        Ok(s)
    } else {
        let a = args[i];
        if a == "--policy"@ || a == "--sample-rate"@ || a == "--bit-depth"@ || a
            == "--test-template"@ {
            if i + 1 >= args.len() {
                Err(a + " requires a value"@)
            } else {
                let v = args[i + 1];
                if a == "--policy"@ {
                    settings_from(args, i + 2, SettingsView { policy: v, ..s })
                } else if a == "--sample-rate"@ {
                    match normalize_rate_spec(v) {
                        Ok(n) => settings_from(args, i + 2, SettingsView { sample_rate: n, ..s }),
                        Err(e) => Err(e),
                    }
                } else if a == "--bit-depth"@ {
                    settings_from(args, i + 2, SettingsView { bit_depth: v, ..s })
                } else {
                    settings_from(args, i + 2, SettingsView { test_template: Some(v), ..s })
                }
            }
        } else if a == "--drc"@ {
            settings_from(args, i + 1, SettingsView { drc: true, ..s })
        } else if a == "--force-usbv2"@ {
            settings_from(args, i + 1, SettingsView { force_usbv2: true, ..s })
        } else if a == "--force-bluetooth-qti"@ {
            settings_from(args, i + 1, SettingsView { force_bluetooth_qti: true, ..s })
        } else if a == "--amzm"@ {
            settings_from(args, i + 1, SettingsView { amzm: true, ..s })
        } else if a == "--test"@ {
            settings_from(args, i + 1, SettingsView { test: true, ..s })
        } else {
            Err("unknown controller option: "@ + a)
        }
    }
}

/// The settings described by the policy options `args`.
pub open spec fn parse_settings_spec(args: Seq<Seq<char>>) -> Result<SettingsView, Seq<char>> {
    settings_from(args, 0, default_settings())
}

/// The value that follows an option: advances `index` past the option and
/// returns the next argument.
pub fn take_value<'a>(args: &'a [String], index: &mut usize, option: &str) -> (r: Result<
    &'a str,
    String,
>)
    requires
        *old(index) < args@.len(),
    ensures
        *final(index) == *old(index) + 1,
        match r {
            Ok(v) => *final(index) < args@.len() && v@ == args@[*final(index) as int]@,
            Err(e) => *final(index) >= args@.len() && e@ == option@ + " requires a value"@,
        },
{
    let n = args.len();
    *index += 1;
    if *index < n {
        Ok(args[*index].as_str())
    } else {
        Err(concat2(option, " requires a value"))
    }
}

/// Reads the policy options of `preview` and `apply`.
pub fn parse_settings_args(args: &[String]) -> (r: Result<Settings, String>)
    ensures
        result_view(r, |s: Settings| s@) == parse_settings_spec(views(args@)),
{
    let ghost a = views(args@);
    let mut settings = Settings::default();
    let mut index: usize = 0;
    while index < args.len()
        invariant
            index <= args@.len(),
            a == views(args@),
            parse_settings_spec(a) == settings_from(a, index as int, settings@),
        decreases args@.len() - index,
    {
        let ghost before = settings@;
        let ghost i = index as int;
        let arg = args[index].as_str();
        assert(arg@ == a[i]);
        if eq_str(arg, "--policy") {
            let v = take_value(args, &mut index, "--policy")?;
            settings.policy = owned(v);
        } else if eq_str(arg, "--sample-rate") {
            let v = take_value(args, &mut index, "--sample-rate")?;
            settings.sample_rate = normalize_sample_rate(v)?;
        } else if eq_str(arg, "--bit-depth") {
            let v = take_value(args, &mut index, "--bit-depth")?;
            settings.bit_depth = owned(v);
        } else if eq_str(arg, "--test-template") {
            let v = take_value(args, &mut index, "--test-template")?;
            settings.test_template = Some(owned(v));
        } else if eq_str(arg, "--drc") {
            settings.drc = true;
        } else if eq_str(arg, "--force-usbv2") {
            settings.force_usbv2 = true;
        } else if eq_str(arg, "--force-bluetooth-qti") {
            settings.force_bluetooth_qti = true;
        } else if eq_str(arg, "--amzm") {
            settings.amzm = true;
        } else if eq_str(arg, "--test") {
            settings.test = true;
        } else {
            return Err(concat2("unknown controller option: ", arg));
        }
        assert(settings_from(a, i, before) == settings_from(a, index + 1, settings@));
        index += 1;
    }
    Ok(settings)
}

// ---------------------------------------------------------------------------
// Extras actions
// ---------------------------------------------------------------------------

pub open spec fn extra_usage_spec() -> Seq<char> {
    "extra tool must be bluetooth-hal, resampler, usb-period, jitter, or diagnose"@
}

pub fn extra_usage() -> (r: String)
    ensures
        r@ == extra_usage_spec(),
{
    owned("extra tool must be bluetooth-hal, resampler, usb-period, jitter, or diagnose")
}

pub open spec fn bypass_listed(b: Seq<char>) -> bool {
    exists|i: int| 0 <= i < 3 && #[trigger] RESAMPLER_BYPASSES[i].0@ == b
}

fn bypass_known(b: &str) -> (r: bool)
    ensures
        r == bypass_listed(b@),
{
    let table = RESAMPLER_BYPASSES;
    let mut i: usize = 0;
    while i < 3
        invariant
            i <= 3,
            table == RESAMPLER_BYPASSES,
            forall|j: int| 0 <= j < i ==> RESAMPLER_BYPASSES[j].0@ != b@,
        decreases 3 - i,
    {
        if eq_str(table[i].0, b) {
            return true;
        }
        i += 1;
    }
    false
}

/// The custom resampler parameters: bypass, mode, stop band, half length
/// and percent.
pub open spec fn custom_resampler_spec(args: Seq<Seq<char>>) -> Result<ExtraView, Seq<char>> {
    if args.len() != 7 {
        Err(
            "custom resampler usage: resampler custom none|48|96 cutoff|cheat STOP_DB HALF_LENGTH PERCENT"@,
        )
    } else if !bypass_listed(args[2]) || !listed(RESAMPLER_MODES@, args[3]) {
        Err("invalid resampler bypass or cutoff mode"@)
    } else {
        match (parse_u32_spec(args[4]), parse_u32_spec(args[5]), parse_u32_spec(args[6])) {
            (None, _, _) => Err("invalid stop-band value"@),
            (Some(_), None, _) => Err("invalid half-filter length"@),
            (Some(_), Some(_), None) => Err("invalid cutoff/cheat percent"@),
            (Some(stop_band), Some(half_length), Some(percent)) => {
                let mode = args[3];
                if !(20 <= stop_band <= 242) || !(8 <= half_length <= 640) || half_length % 8 != 0
                    || (mode == "cutoff"@ && !(1 <= percent <= 100)) || (mode == "cheat"@ && !(1
                    <= percent <= 200)) {
                    Err("custom resampler parameters are outside upstream ranges"@)
                } else {
                    Ok(
                        ExtraView::ResamplerCustom {
                            bypass: args[2],
                            cheat: mode == "cheat"@,
                            stop_band,
                            half_length,
                            percent,
                        },
                    )
                }
            },
        }
    }
}

pub open spec fn resampler_spec(args: Seq<Seq<char>>) -> Result<ExtraView, Seq<char>> {
    let action = args[1];
    if action == "custom"@ {
        custom_resampler_spec(args)
    } else if args.len() != 2 {
        Err("resampler action must be status, reset, a preset name, or custom parameters"@)
    } else if action == "status"@ {
        Ok(ExtraView::ResamplerStatus)
    } else if action == "reset"@ {
        Ok(ExtraView::ResamplerReset)
    } else if preset_args(action) is Some {
        Ok(ExtraView::ResamplerPreset { preset: canonical_preset(action) })
    } else {
        Err("unsupported resampler preset: "@ + action)
    }
}

pub open spec fn jitter_spec(args: Seq<Seq<char>>) -> Result<ExtraView, Seq<char>> {
    if args.len() == 2 && args[1] == "status"@ {
        Ok(ExtraView::JitterStatus)
    } else if args.len() < 3 || !(args[1] == "enable"@ || args[1] == "disable"@) {
        Err("jitter usage: jitter status | jitter enable|disable FEATURE [SCHEDULER TONE]"@)
    } else {
        let enabled = args[1] == "enable"@;
        let feature = args[2];
        if feature != "all"@ && !listed(JITTER_FEATURES@, feature) {
            Err("unsupported jitter feature: "@ + feature)
        } else if feature == "io"@ && enabled {
            let scheduler = if args.len() > 3 {
                args[3]
            } else {
                "*"@
            };
            let tone = if args.len() > 4 {
                args[4]
            } else {
                "medium"@
            };
            if !listed(IO_SCHEDULERS@, scheduler) || !listed(IO_TONES@, tone) || args.len() > 5 {
                Err("unsupported I/O scheduler or tone"@)
            } else {
                Ok(
                    ExtraView::JitterSet {
                        enabled,
                        feature,
                        scheduler: Some(scheduler),
                        tone: Some(tone),
                        wifi_no_restart: false,
                    },
                )
            }
        } else if feature == "wifi"@ && enabled && args.len() == 4 && args[3] == "no-restart"@ {
            Ok(
                ExtraView::JitterSet {
                    enabled,
                    feature,
                    scheduler: None,
                    tone: None,
                    wifi_no_restart: true,
                },
            )
        } else if args.len() != 3 {
            Err("only enabled I/O accepts scheduler and tone arguments"@)
        } else {
            Ok(
                ExtraView::JitterSet {
                    enabled,
                    feature,
                    scheduler: None,
                    tone: None,
                    wifi_no_restart: false,
                },
            )
        }
    }
}

pub open spec fn diagnostic_spec(args: Seq<Seq<char>>) -> Result<ExtraView, Seq<char>> {
    if !(2 <= args.len() <= 3) {
        Err("diagnose usage: diagnose audio|bluetooth|config|alsa [all]"@)
    } else if !listed(DIAGNOSTIC_TYPES@, args[1]) {
        Err("unsupported diagnostic: "@ + args[1])
    } else if args.len() == 2 {
        Ok(ExtraView::Diagnose { kind: args[1], all: false })
    } else if args[2] == "all"@ {
        Ok(ExtraView::Diagnose { kind: args[1], all: true })
    } else {
        Err("diagnostic detail must be all"@)
    }
}

pub open spec fn usb_period_spec(args: Seq<Seq<char>>) -> Result<ExtraView, Seq<char>> {
    if args.len() != 2 {
        Err("usb-period action must be status, reset, or a period in usec"@)
    } else if args[1] == "status"@ {
        Ok(ExtraView::UsbPeriodStatus)
    } else if args[1] == "reset"@ {
        Ok(ExtraView::UsbPeriodReset)
    } else {
        match parse_u32_spec(args[1]) {
            None => Err("invalid USB period: "@ + args[1]),
            Some(period) => if !(125 <= period <= 50_000) || period % 125 != 0 {
                Err("USB period must be a multiple of 125 between 125 and 50000 usec"@)
            } else {
                Ok(ExtraView::UsbPeriodSet { period })
            },
        }
    }
}

/// The Extras action named by `TOOL ACTION [ARGS..]`.
pub open spec fn parse_extra_spec(args: Seq<Seq<char>>) -> Result<ExtraView, Seq<char>> {
    if args.len() < 2 {
        Err(extra_usage_spec())
    } else {
        let tool = args[0];
        let action = args[1];
        if tool == "bluetooth-hal"@ {
            if args.len() != 2 || (action != "status"@ && action != "reset"@ && !listed(
                BLUETOOTH_HAL_OPTIONS@,
                action,
            )) {
                Err(
                    "bluetooth-hal action must be status, reset, aosp, legacy, offload, or sysbta"@,
                )
            } else {
                Ok(ExtraView::BluetoothHal { action })
            }
        } else if tool == "resampler"@ {
            resampler_spec(args)
        } else if tool == "usb-period"@ {
            usb_period_spec(args)
        } else if tool == "jitter"@ {
            jitter_spec(args)
        } else if tool == "diagnose"@ {
            diagnostic_spec(args)
        } else {
            Err(extra_usage_spec())
        }
    }
}

pub open spec fn extra_result(r: Result<ExtraAction, String>) -> Result<ExtraView, Seq<char>> {
    match r {
        Ok(a) => Ok(a@),
        Err(e) => Err(e@),
    }
}

/// Reads custom resampler parameters.
pub fn parse_custom_resampler(args: &[String]) -> (r: Result<ExtraAction, String>)
    ensures
        extra_result(r) == custom_resampler_spec(views(args@)),
{
    if args.len() != 7 {
        return Err(
            owned(
                "custom resampler usage: resampler custom none|48|96 cutoff|cheat STOP_DB HALF_LENGTH PERCENT",
            ),
        );
    }
    let bypass = args[2].as_str();
    let mode = args[3].as_str();
    if !bypass_known(bypass) || !is_listed(&RESAMPLER_MODES, mode) {
        return Err(owned("invalid resampler bypass or cutoff mode"));
    }
    let stop_band = match parse_u32(args[4].as_str()) {
        Some(v) => v,
        None => return Err(owned("invalid stop-band value")),
    };
    let half_length = match parse_u32(args[5].as_str()) {
        Some(v) => v,
        None => return Err(owned("invalid half-filter length")),
    };
    let percent = match parse_u32(args[6].as_str()) {
        Some(v) => v,
        None => return Err(owned("invalid cutoff/cheat percent")),
    };
    let cutoff = eq_str(mode, "cutoff");
    let cheat = eq_str(mode, "cheat");
    if stop_band < 20 || stop_band > 242 || half_length < 8 || half_length > 640 || half_length % 8
        != 0 || (cutoff && (percent < 1 || percent > 100)) || (cheat && (percent < 1 || percent
        > 200)) {
        return Err(owned("custom resampler parameters are outside upstream ranges"));
    }
    Ok(
        ExtraAction::ResamplerCustom {
            bypass: owned(bypass),
            cheat,
            stop_band,
            half_length,
            percent,
        },
    )
}

/// Reads a resampler action: status, reset, a preset or custom parameters.
pub fn parse_resampler_action(args: &[String]) -> (r: Result<ExtraAction, String>)
    requires
        args@.len() >= 2,
    ensures
        extra_result(r) == resampler_spec(views(args@)),
{
    let action = args[1].as_str();
    if eq_str(action, "custom") {
        return parse_custom_resampler(args);
    }
    if args.len() != 2 {
        return Err(
            owned("resampler action must be status, reset, a preset name, or custom parameters"),
        );
    }
    if eq_str(action, "status") {
        Ok(ExtraAction::ResamplerStatus)
    } else if eq_str(action, "reset") {
        Ok(ExtraAction::ResamplerReset)
    } else if resampler_preset_args(action).is_some() {
        Ok(ExtraAction::ResamplerPreset { preset: owned(canonical_resampler_preset(action)) })
    } else {
        Err(concat2("unsupported resampler preset: ", action))
    }
}

/// Reads a jitter action.
pub fn parse_jitter_action(args: &[String]) -> (r: Result<ExtraAction, String>)
    ensures
        extra_result(r) == jitter_spec(views(args@)),
{
    if args.len() == 2 && eq_str(args[1].as_str(), "status") {
        return Ok(ExtraAction::JitterStatus);
    }
    if args.len() < 3 || !(eq_str(args[1].as_str(), "enable") || eq_str(
        args[1].as_str(),
        "disable",
    )) {
        return Err(
            owned("jitter usage: jitter status | jitter enable|disable FEATURE [SCHEDULER TONE]"),
        );
    }
    let enabled = eq_str(args[1].as_str(), "enable");
    let feature = args[2].as_str();
    if !eq_str(feature, "all") && !is_listed(&JITTER_FEATURES, feature) {
        return Err(concat2("unsupported jitter feature: ", feature));
    }
    if eq_str(feature, "io") && enabled {
        let scheduler = if args.len() > 3 {
            args[3].as_str()
        } else {
            "*"
        };
        let tone = if args.len() > 4 {
            args[4].as_str()
        } else {
            "medium"
        };
        if !is_listed(&IO_SCHEDULERS, scheduler) || !is_listed(&IO_TONES, tone) || args.len()
            > 5 {
            return Err(owned("unsupported I/O scheduler or tone"));
        }
        return Ok(
            ExtraAction::JitterSet {
                enabled,
                feature: owned(feature),
                scheduler: Some(owned(scheduler)),
                tone: Some(owned(tone)),
                wifi_no_restart: false,
            },
        );
    }
    if eq_str(feature, "wifi") && enabled && args.len() == 4 && eq_str(
        args[3].as_str(),
        "no-restart",
    ) {
        return Ok(
            ExtraAction::JitterSet {
                enabled,
                feature: owned(feature),
                scheduler: None,
                tone: None,
                wifi_no_restart: true,
            },
        );
    }
    if args.len() != 3 {
        return Err(owned("only enabled I/O accepts scheduler and tone arguments"));
    }
    Ok(
        ExtraAction::JitterSet {
            enabled,
            feature: owned(feature),
            scheduler: None,
            tone: None,
            wifi_no_restart: false,
        },
    )
}

/// Reads a diagnostic action.
pub fn parse_diagnostic_action(args: &[String]) -> (r: Result<ExtraAction, String>)
    ensures
        extra_result(r) == diagnostic_spec(views(args@)),
{
    if args.len() < 2 || args.len() > 3 {
        return Err(owned("diagnose usage: diagnose audio|bluetooth|config|alsa [all]"));
    }
    if !is_listed(&DIAGNOSTIC_TYPES, args[1].as_str()) {
        return Err(concat2("unsupported diagnostic: ", args[1].as_str()));
    }
    let kind = args[1].clone();
    let all = if args.len() == 2 {
        false
    } else if eq_str(args[2].as_str(), "all") {
        true
    } else {
        return Err(owned("diagnostic detail must be all"));
    };
    Ok(ExtraAction::Diagnose { kind, all })
}

fn parse_usb_period_action(args: &[String]) -> (r: Result<ExtraAction, String>)
    requires
        args@.len() >= 2,
    ensures
        extra_result(r) == usb_period_spec(views(args@)),
{
    if args.len() != 2 {
        return Err(owned("usb-period action must be status, reset, or a period in usec"));
    }
    let action = args[1].as_str();
    if eq_str(action, "status") {
        return Ok(ExtraAction::UsbPeriodStatus);
    }
    if eq_str(action, "reset") {
        return Ok(ExtraAction::UsbPeriodReset);
    }
    let period = match parse_u32(action) {
        Some(p) => p,
        None => return Err(concat2("invalid USB period: ", action)),
    };
    if period < 125 || period > 50_000 || period % 125 != 0 {
        return Err(owned("USB period must be a multiple of 125 between 125 and 50000 usec"));
    }
    Ok(ExtraAction::UsbPeriodSet { period })
}

/// Reads `TOOL ACTION [ARGS..]` into an Extras action; anything outside the
/// whitelist is refused.
pub fn parse_extra_action(args: &[String]) -> (r: Result<ExtraAction, String>)
    ensures
        extra_result(r) == parse_extra_spec(views(args@)),
{
    if args.len() < 2 {
        return Err(extra_usage());
    }
    let tool = args[0].as_str();
    let action = args[1].as_str();
    if eq_str(tool, "bluetooth-hal") {
        if args.len() != 2 || (!eq_str(action, "status") && !eq_str(action, "reset") && !is_listed(
            &BLUETOOTH_HAL_OPTIONS,
            action,
        )) {
            return Err(
                owned(
                    "bluetooth-hal action must be status, reset, aosp, legacy, offload, or sysbta",
                ),
            );
        }
        Ok(ExtraAction::BluetoothHal { action: owned(action) })
    } else if eq_str(tool, "resampler") {
        parse_resampler_action(args)
    } else if eq_str(tool, "usb-period") {
        parse_usb_period_action(args)
    } else if eq_str(tool, "jitter") {
        parse_jitter_action(args)
    } else if eq_str(tool, "diagnose") {
        parse_diagnostic_action(args)
    } else {
        Err(extra_usage())
    }
}

// ---------------------------------------------------------------------------
// Commands
// ---------------------------------------------------------------------------

pub open spec fn settings_command_spec(args: Seq<Seq<char>>) -> Result<CommandView, Seq<char>> {
    if args.len() != 2 || !(args[0] == "auto-reapply"@ || args[0] == "audioserver-priority"@) {
        Err("settings usage: settings auto-reapply|audioserver-priority enable|disable"@)
    } else if args[1] != "enable"@ && args[1] != "disable"@ {
        Err(args[0] + " must be enable or disable"@)
    } else if args[0] == "auto-reapply"@ {
        Ok(CommandView::SetAutoReapply(args[1] == "enable"@))
    } else {
        Ok(CommandView::SetAudioserverPriority(args[1] == "enable"@))
    }
}

pub open spec fn command_result(r: Result<ControllerCommand, String>) -> Result<
    CommandView,
    Seq<char>,
> {
    match r {
        Ok(c) => Ok(c@),
        Err(e) => Err(e@),
    }
}

/// Reads `settings auto-reapply|audioserver-priority enable|disable`.
pub fn parse_settings_command(args: &[String]) -> (r: Result<ControllerCommand, String>)
    ensures
        command_result(r) == settings_command_spec(views(args@)),
{
    if args.len() != 2 || !(eq_str(args[0].as_str(), "auto-reapply") || eq_str(
        args[0].as_str(),
        "audioserver-priority",
    )) {
        return Err(owned("settings usage: settings auto-reapply|audioserver-priority enable|disable"));
    }
    let enable = eq_str(args[1].as_str(), "enable");
    if !enable && !eq_str(args[1].as_str(), "disable") {
        return Err(concat2(args[0].as_str(), " must be enable or disable"));
    }
    if eq_str(args[0].as_str(), "auto-reapply") {
        Ok(ControllerCommand::SetAutoReapply(enable))
    } else {
        Ok(ControllerCommand::SetAudioserverPriority(enable))
    }
}

pub open spec fn usage_spec(args: Seq<Seq<char>>) -> Seq<char> {
    "usage: "@ + (if args.len() > 0 {
        args[0]
    } else {
        "usbsrctl"@
    })
        + " {schema [--json]|status|logs|generated|preview OPTIONS|apply OPTIONS|reset|cleanup|extra TOOL ACTION|settings auto-reapply|audioserver-priority enable|disable|reapply}"@
}

pub open spec fn map_settings(r: Result<SettingsView, Seq<char>>, apply: bool) -> Result<
    CommandView,
    Seq<char>,
> {
    match r {
        Ok(s) => Ok(
            if apply {
                CommandView::Apply(s)
            } else {
                CommandView::Preview(s)
            },
        ),
        Err(e) => Err(e),
    }
}

/// The command that `usbsrctl ARGS` asks for (`args[0]` is the program).
pub open spec fn parse_spec(args: Seq<Seq<char>>) -> Result<CommandView, Seq<char>> {
    let cmd = if args.len() > 1 {
        args[1]
    } else {
        Seq::empty()
    };
    let rest = args.skip(2);
    if args.len() < 2 {
        Err(usage_spec(args))
    } else if cmd == "schema"@ && args.len() == 2 {
        Ok(CommandView::Schema { json: false })
    } else if cmd == "schema"@ && args.len() == 3 && args[2] == "--json"@ {
        Ok(CommandView::Schema { json: true })
    } else if cmd == "status"@ && args.len() == 2 {
        Ok(CommandView::Status)
    } else if cmd == "logs"@ && args.len() == 2 {
        Ok(CommandView::Logs)
    } else if cmd == "generated"@ && args.len() == 2 {
        Ok(CommandView::Generated)
    } else if cmd == "preview"@ {
        map_settings(parse_settings_spec(rest), false)
    } else if cmd == "apply"@ {
        map_settings(parse_settings_spec(rest), true)
    } else if cmd == "reset"@ && args.len() == 2 {
        Ok(CommandView::Reset)
    } else if cmd == "cleanup"@ && args.len() == 2 {
        Ok(CommandView::Cleanup)
    } else if cmd == "extra"@ {
        match parse_extra_spec(rest) {
            Ok(a) => Ok(CommandView::Extra(a)),
            Err(e) => Err(e),
        }
    } else if cmd == "settings"@ {
        settings_command_spec(rest)
    } else if cmd == "reapply"@ && args.len() == 2 {
        Ok(CommandView::Reapply)
    } else {
        Err(usage_spec(args))
    }
}

fn rest_of(args: &[String]) -> (r: Vec<String>)
    requires
        args@.len() >= 2,
    ensures
        views(r@) == views(args@).skip(2),
{
    let mut r: Vec<String> = Vec::new();
    let mut i: usize = 2;
    while i < args.len()
        invariant
            2 <= i <= args@.len(),
            views(r@) == views(args@).subrange(2, i as int),
        decreases args@.len() - i,
    {
        let ghost before = r@;
        r.push(args[i].clone());
        assert(r@ == before.push(args@[i as int]));
        assert(views(r@) =~= views(before).push(args@[i as int]@));
        assert(views(r@) =~= views(args@).subrange(2, i + 1));
        i += 1;
    }
    assert(views(args@).subrange(2, args@.len() as int) =~= views(args@).skip(2));
    r
}

/// Reads the controller command line.
pub fn parse(args: &[String]) -> (r: Result<ControllerCommand, String>)
    ensures
        command_result(r) == parse_spec(views(args@)),
{
    let usage = concat3(
        "usage: ",
        if args.len() > 0 {
            args[0].as_str()
        } else {
            "usbsrctl"
        },
        " {schema [--json]|status|logs|generated|preview OPTIONS|apply OPTIONS|reset|cleanup|extra TOOL ACTION|settings auto-reapply|audioserver-priority enable|disable|reapply}",
    );
    if args.len() < 2 {
        return Err(usage);
    }
    let cmd = args[1].as_str();
    let n = args.len();
    let rest = rest_of(args);
    if eq_str(cmd, "schema") && n == 2 {
        Ok(ControllerCommand::Schema { json: false })
    } else if eq_str(cmd, "schema") && n == 3 && eq_str(args[2].as_str(), "--json") {
        Ok(ControllerCommand::Schema { json: true })
    } else if eq_str(cmd, "status") && n == 2 {
        Ok(ControllerCommand::Status)
    } else if eq_str(cmd, "logs") && n == 2 {
        Ok(ControllerCommand::Logs)
    } else if eq_str(cmd, "generated") && n == 2 {
        Ok(ControllerCommand::Generated)
    } else if eq_str(cmd, "preview") {
        Ok(ControllerCommand::Preview(parse_settings_args(rest.as_slice())?))
    } else if eq_str(cmd, "apply") {
        Ok(ControllerCommand::Apply(parse_settings_args(rest.as_slice())?))
    } else if eq_str(cmd, "reset") && n == 2 {
        Ok(ControllerCommand::Reset)
    } else if eq_str(cmd, "cleanup") && n == 2 {
        Ok(ControllerCommand::Cleanup)
    } else if eq_str(cmd, "extra") {
        Ok(ControllerCommand::Extra(parse_extra_action(rest.as_slice())?))
    } else if eq_str(cmd, "settings") {
        parse_settings_command(rest.as_slice())
    } else if eq_str(cmd, "reapply") && n == 2 {
        Ok(ControllerCommand::Reapply)
    } else {
        Err(usage)
    }
}

} // verus!
