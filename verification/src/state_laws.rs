//! What holds of the state file as a whole: a state written by the
//! controller reads back as the same state.
use vstd::prelude::*;

use crate::cli::lemma_rate_range_accepted;
use crate::catalog::{
    canonical_preset, is_bit_depth, lemma_index_from, listed, preset_table, IO_SCHEDULERS, IO_TONES,
    JITTER_FEATURES, POLICIES,
};
use crate::domain::feature_index;
use crate::domain::{default_stored, SettingsView, StoredView};
use crate::state::{
    bool_text, fixed_values, flag_values, is_bluetooth_hal, is_bypass, is_diagnostic, is_policy,
    is_stored_preset, key_fingerprint, lemma_required_key, parse_bool_spec, validate_u32_spec, apply_value_spec,
    apply_jitter_value_spec, jitter_key_of, lemma_jitter_key, lemma_required_keys_distinct, render_from,
    rendered_state, required_key_facts, required_keys, resampler_mode_spec, state_values,
    template_text,
};
use crate::state_file::{
    apply_entries, entries_spec, entries_upto, key_error_upto, keys_of, load_outcome_spec,
    missing_from, parse_v3_spec, parsed_state, update_plan_spec, version_spec, version_upto,
    OutcomeView, SnapshotView,
};
use crate::state::{delta_spec, DeltaView};
use crate::text::{
    all_digits, decimal, is_digit, lacks, lemma_decimal, lemma_first_index, lemma_parse_decimal,
    lemma_split_once_join,
    lines, split_once, strip_cr,
};

verus! {

broadcast use vstd::string::group_string_axioms;

/// A value that can stand on one line of a state file.
pub open spec fn single_line(v: Seq<char>) -> bool {
    lacks(v, '\n') && lacks(v, '\r')
}

// ---------------------------------------------------------------------------
// Lines
// ---------------------------------------------------------------------------

/// A line ended by a newline comes out of `lines` as it was written.
pub proof fn lemma_lines_cons(a: Seq<char>, b: Seq<char>)
    requires
        single_line(a),
    ensures
        lines(a + "\n"@ + b) == seq![a] + lines(b),
{
    reveal_strlit("\n");
    let s = a + "\n"@ + b;
    assert(s.take(a.len() as int) =~= a);
    assert(s[a.len() as int] == '\n');
    lemma_first_index(s, '\n', a.len() as int);
    assert(s.skip(a.len() as int + 1) =~= b);
    assert(strip_cr(a) == a);
}

/// The line of entry `i`: `key=value`.
pub open spec fn entry_line(keys: Seq<Seq<char>>, values: Seq<Seq<char>>, i: int) -> Seq<char> {
    keys[i] + "="@ + values[i]
}

/// The lines of a rendering are its `key=value` lines.
pub proof fn lemma_render_lines(keys: Seq<Seq<char>>, values: Seq<Seq<char>>, j: int)
    requires
        keys.len() == values.len(),
        0 <= j <= keys.len(),
        forall|i: int| 0 <= i < keys.len() ==> single_line(#[trigger] keys[i]),
        forall|i: int| 0 <= i < values.len() ==> single_line(#[trigger] values[i]),
    ensures
        lines(render_from(keys, values, j)) == Seq::new(
            (keys.len() - j) as nat,
            |i: int| entry_line(keys, values, j + i),
        ),
    decreases keys.len() - j,
{
    reveal_strlit("=");
    if j == keys.len() {
        assert(render_from(keys, values, j) =~= Seq::<char>::empty());
        assert(lines(Seq::<char>::empty()) =~= Seq::<Seq<char>>::empty());
        assert(Seq::new(0, |i: int| entry_line(keys, values, j + i)) =~= Seq::<Seq<char>>::empty());
    } else {
        lemma_render_lines(keys, values, j + 1);
        let line = entry_line(keys, values, j);
        assert(single_line(keys[j]));
        assert(single_line(values[j]));
        assert(single_line(line)) by {
            assert forall|k: int| 0 <= k < line.len() implies line[k] != '\n' && line[k] != '\r' by {
                if k < keys[j].len() {
                    assert(line[k] == keys[j][k]);
                } else if k == keys[j].len() {
                    assert(line[k] == '=');
                } else {
                    assert(line[k] == values[j][k - keys[j].len() - 1]);
                }
            }
        }
        let rest = render_from(keys, values, j + 1);
        assert(render_from(keys, values, j) =~= line + "\n"@ + rest);
        lemma_lines_cons(line, rest);
        assert(lines(render_from(keys, values, j)) =~= Seq::new(
            (keys.len() - j) as nat,
            |i: int| entry_line(keys, values, j + i),
        ));
    }
}

// ---------------------------------------------------------------------------
// Entries and keys
// ---------------------------------------------------------------------------

/// The `key=value` lines of a rendering split back into its keys and values.
pub proof fn lemma_entries_of_lines(keys: Seq<Seq<char>>, values: Seq<Seq<char>>, n: int)
    requires
        keys.len() == values.len(),
        0 <= n <= keys.len(),
        forall|i: int| 0 <= i < keys.len() ==> (#[trigger] keys[i]).len() > 0 && lacks(keys[i], '='),
    ensures
        entries_upto(Seq::new(keys.len(), |i: int| entry_line(keys, values, i)), n) == Ok::<
            Seq<(Seq<char>, Seq<char>)>,
            Seq<char>,
        >(Seq::new(n as nat, |i: int| (keys[i], values[i]))),
    decreases n,
{
    let ls = Seq::new(keys.len(), |i: int| entry_line(keys, values, i));
    if n == 0 {
        assert(Seq::new(0, |i: int| (keys[i], values[i])) =~= Seq::<(Seq<char>, Seq<char>)>::empty());
    } else {
        lemma_entries_of_lines(keys, values, n - 1);
        reveal_strlit("=");
        assert(keys[n - 1].len() > 0 && lacks(keys[n - 1], '='));
        assert("="@ =~= seq!['=']);
        lemma_split_once_join(keys[n - 1], '=', values[n - 1]);
        assert(ls[n - 1] == keys[n - 1] + seq!['='] + values[n - 1]);
        assert(Seq::new((n - 1) as nat, |i: int| (keys[i], values[i])).push((keys[n - 1], values[n - 1]))
            =~= Seq::new(n as nat, |i: int| (keys[i], values[i])));
    }
}

/// The entries of a complete file, in the order of `required_keys()`.
pub open spec fn required_entries(values: Seq<Seq<char>>) -> Seq<(Seq<char>, Seq<char>)> {
    Seq::new(50, |i: int| (required_keys()[i], values[i]))
}

/// No key of a complete file is unknown or repeated.
pub proof fn lemma_no_key_error(values: Seq<Seq<char>>, n: int)
    requires
        0 <= n <= 50,
    ensures
        key_error_upto(required_entries(values), n) is None,
    decreases n,
{
    if n > 0 {
        lemma_no_key_error(values, n - 1);
        let es = required_entries(values);
        lemma_required_key(n - 1);
        lemma_required_keys_distinct();
        assert(keys_of(es) =~= required_keys());
        if keys_of(es).take(n - 1).contains(es[n - 1].0) {
            let j = choose|j: int| 0 <= j < n - 1 && #[trigger] keys_of(es).take(n - 1)[j] == es[n - 1].0;
            assert(required_keys()[j] == required_keys()[n - 1]);
        }
    }
}

/// A complete file lacks no required key.
pub proof fn lemma_none_missing(values: Seq<Seq<char>>, j: int)
    requires
        0 <= j <= 50,
    ensures
        missing_from(keys_of(required_entries(values)), j) is None,
    decreases 50 - j,
{
    let es = required_entries(values);
    assert(keys_of(es) =~= required_keys());
    if j < 50 {
        assert(keys_of(es)[j] == required_keys()[j]);
        lemma_none_missing(values, j + 1);
    }
}

// ---------------------------------------------------------------------------
// Values
// ---------------------------------------------------------------------------

/// A state that a version 3 file can hold: every value one that the strict
/// reader accepts, and a flag for each of the eleven features.
pub open spec fn storable(s: StoredView) -> bool {
    &&& is_policy(s.policy.policy)
    &&& 44_100 <= s.policy.sample_rate <= 768_000
    &&& is_bit_depth(s.policy.bit_depth)
    &&& match s.policy.test_template {
        Some(t) => t.len() > 0 && single_line(t),
        None => true,
    }
    &&& is_bluetooth_hal(s.bluetooth_hal)
    &&& is_stored_preset(canonical_preset(s.resampler_preset))
    &&& is_bypass(s.resampler_bypass)
    &&& 20 <= s.resampler_stop_band <= 242
    &&& 8 <= s.resampler_half_length <= 640
    &&& s.resampler_half_length % 8 == 0
    &&& resampler_mode_spec(s) is Ok
    &&& 125 <= s.usb_period <= 50_000
    &&& s.usb_period % 125 == 0
    &&& is_diagnostic(s.diagnostic)
    &&& listed(IO_SCHEDULERS@, s.io_scheduler)
    &&& listed(IO_TONES@, s.io_tone)
    &&& s.jitter_values.len() == 11
    &&& s.jitter_configured.len() == 11
}

proof fn lemma_policy_names()
    ensures
        forall|i: int| 0 <= i < 22 ==> single_line(#[trigger] POLICIES[i].0@),
{
    assert forall|i: int| 0 <= i < 22 implies single_line(#[trigger] POLICIES[i].0@) by {
        if i == 0 {
            reveal_strlit("auto");
            assert(single_line(POLICIES[0].0@));
        } else if i == 1 {
            reveal_strlit("bypass");
            assert(single_line(POLICIES[1].0@));
        } else if i == 2 {
            reveal_strlit("bypass-safer");
            assert(single_line(POLICIES[2].0@));
        } else if i == 3 {
            reveal_strlit("offload");
            assert(single_line(POLICIES[3].0@));
        } else if i == 4 {
            reveal_strlit("offload-hifi-playback");
            assert(single_line(POLICIES[4].0@));
        } else if i == 5 {
            reveal_strlit("offload-direct");
            assert(single_line(POLICIES[5].0@));
        } else if i == 6 {
            reveal_strlit("offload-safer");
            assert(single_line(POLICIES[6].0@));
        } else if i == 7 {
            reveal_strlit("offload-direct-dynamic");
            assert(single_line(POLICIES[7].0@));
        } else if i == 8 {
            reveal_strlit("legacy");
            assert(single_line(POLICIES[8].0@));
        } else if i == 9 {
            reveal_strlit("safe");
            assert(single_line(POLICIES[9].0@));
        } else if i == 10 {
            reveal_strlit("safest");
            assert(single_line(POLICIES[10].0@));
        } else if i == 11 {
            reveal_strlit("safest-auto");
            assert(single_line(POLICIES[11].0@));
        } else if i == 12 {
            reveal_strlit("bypass-dynamic");
            assert(single_line(POLICIES[12].0@));
        } else if i == 13 {
            reveal_strlit("bypass-safer-dynamic");
            assert(single_line(POLICIES[13].0@));
        } else if i == 14 {
            reveal_strlit("offload-dynamic");
            assert(single_line(POLICIES[14].0@));
        } else if i == 15 {
            reveal_strlit("offload-hifi-playback-dynamic");
            assert(single_line(POLICIES[15].0@));
        } else if i == 16 {
            reveal_strlit("offload-safer-dynamic");
            assert(single_line(POLICIES[16].0@));
        } else if i == 17 {
            reveal_strlit("legacy-dynamic");
            assert(single_line(POLICIES[17].0@));
        } else if i == 18 {
            reveal_strlit("safe-dynamic");
            assert(single_line(POLICIES[18].0@));
        } else if i == 19 {
            reveal_strlit("safest-dynamic");
            assert(single_line(POLICIES[19].0@));
        } else if i == 20 {
            reveal_strlit("safest-auto-dynamic");
            assert(single_line(POLICIES[20].0@));
        } else if i == 21 {
            reveal_strlit("usb");
            assert(single_line(POLICIES[21].0@));
        }
    }
}

proof fn lemma_bit_depth_names()
    ensures
        forall|i: int| 0 <= i < 4 ==> single_line(#[trigger] crate::catalog::BIT_DEPTHS[i].0@),
{
    assert forall|i: int| 0 <= i < 4 implies single_line(#[trigger] crate::catalog::BIT_DEPTHS[i].0@) by {
        if i == 0 {
            reveal_strlit("16");
            assert(single_line(crate::catalog::BIT_DEPTHS[0].0@));
        } else if i == 1 {
            reveal_strlit("24");
            assert(single_line(crate::catalog::BIT_DEPTHS[1].0@));
        } else if i == 2 {
            reveal_strlit("32");
            assert(single_line(crate::catalog::BIT_DEPTHS[2].0@));
        } else if i == 3 {
            reveal_strlit("float");
            assert(single_line(crate::catalog::BIT_DEPTHS[3].0@));
        }
    }
}

proof fn lemma_io_names()
    ensures
        forall|i: int| 0 <= i < 8 ==> single_line(#[trigger] IO_SCHEDULERS[i]@),
        forall|i: int| 0 <= i < 5 ==> single_line(#[trigger] IO_TONES[i]@),
{
    assert forall|i: int| 0 <= i < 8 implies single_line(#[trigger] IO_SCHEDULERS[i]@) by {
        if i == 0 {
            reveal_strlit("*");
            assert(single_line(IO_SCHEDULERS[0]@));
        } else if i == 1 {
            reveal_strlit("none");
            assert(single_line(IO_SCHEDULERS[1]@));
        } else if i == 2 {
            reveal_strlit("noop");
            assert(single_line(IO_SCHEDULERS[2]@));
        } else if i == 3 {
            reveal_strlit("deadline");
            assert(single_line(IO_SCHEDULERS[3]@));
        } else if i == 4 {
            reveal_strlit("mq-deadline");
            assert(single_line(IO_SCHEDULERS[4]@));
        } else if i == 5 {
            reveal_strlit("cfq");
            assert(single_line(IO_SCHEDULERS[5]@));
        } else if i == 6 {
            reveal_strlit("bfq");
            assert(single_line(IO_SCHEDULERS[6]@));
        } else if i == 7 {
            reveal_strlit("kyber");
            assert(single_line(IO_SCHEDULERS[7]@));
        }
    }
    assert forall|i: int| 0 <= i < 5 implies single_line(#[trigger] IO_TONES[i]@) by {
        if i == 0 {
            reveal_strlit("light");
            assert(single_line(IO_TONES[0]@));
        } else if i == 1 {
            reveal_strlit("m-light");
            assert(single_line(IO_TONES[1]@));
        } else if i == 2 {
            reveal_strlit("medium");
            assert(single_line(IO_TONES[2]@));
        } else if i == 3 {
            reveal_strlit("boost");
            assert(single_line(IO_TONES[3]@));
        } else if i == 4 {
            reveal_strlit("exp");
            assert(single_line(IO_TONES[4]@));
        }
    }
}

proof fn lemma_preset_names(v: Seq<char>)
    requires
        is_stored_preset(v),
    ensures
        single_line(v),
{
    reveal_strlit("custom");
    reveal_strlit("159-480-92");
    reveal_strlit("165-360-104");
    reveal_strlit("179-408-99");
    reveal_strlit("194-520-100");
    reveal_strlit("ultra-hifi");
    reveal_strlit("cheap-44");
    reveal_strlit("cheap-44-low");
    reveal_strlit("cheap-48");
    reveal_strlit("cheap-48-low");
    reveal_strlit("cheap-96");
    reveal_strlit("mock-dac-a");
    reveal_strlit("mock-dac-b");
    reveal_strlit("mock-dac-c");
    reveal_strlit("mock-mastering");
}

proof fn lemma_choice_names(s: StoredView)
    requires
        is_bluetooth_hal(s.bluetooth_hal),
        is_bypass(s.resampler_bypass),
        is_diagnostic(s.diagnostic),
    ensures
        single_line(s.bluetooth_hal),
        single_line(s.resampler_bypass),
        single_line(s.diagnostic),
{
    reveal_strlit("aosp");
    reveal_strlit("legacy");
    reveal_strlit("offload");
    reveal_strlit("sysbta");
    reveal_strlit("none");
    reveal_strlit("48");
    reveal_strlit("96");
    reveal_strlit("audio");
    reveal_strlit("bluetooth");
    reveal_strlit("config");
    reveal_strlit("alsa");
}

proof fn lemma_decimal_single_line(n: nat)
    ensures
        single_line(decimal(n)),
{
    lemma_decimal(n);
    assert forall|k: int| 0 <= k < decimal(n).len() implies decimal(n)[k] != '\n' && decimal(n)[k]
        != '\r' by {
        assert(is_digit(decimal(n)[k]));
    }
}

proof fn lemma_bool_single_line(b: bool)
    ensures
        single_line(bool_text(b)),
{
    reveal_strlit("0");
    reveal_strlit("1");
}

/// No text field of a state holds a line break.
pub open spec fn text_fields_single_line(s: StoredView) -> bool {
    &&& single_line(s.policy.policy)
    &&& single_line(s.policy.bit_depth)
    &&& single_line(template_text(s.policy.test_template))
    &&& single_line(s.bluetooth_hal)
    &&& single_line(s.resampler_preset)
    &&& single_line(s.resampler_bypass)
    &&& single_line(s.diagnostic)
    &&& single_line(s.io_scheduler)
    &&& single_line(s.io_tone)
}

proof fn lemma_canonical_preset_single_line(p: Seq<char>)
    requires
        single_line(p),
    ensures
        single_line(canonical_preset(p)),
{
    reveal_strlit("179-408-99");
}

proof fn lemma_fields_single_line(s: StoredView)
    requires
        storable(s),
    ensures
        single_line(s.policy.policy),
        single_line(s.policy.bit_depth),
        single_line(template_text(s.policy.test_template)),
        single_line(s.bluetooth_hal),
        single_line(canonical_preset(s.resampler_preset)),
        single_line(s.resampler_bypass),
        single_line(s.diagnostic),
        single_line(s.io_scheduler),
        single_line(s.io_tone),
{
    lemma_policy_names();
    lemma_bit_depth_names();
    lemma_io_names();
    lemma_preset_names(canonical_preset(s.resampler_preset));
    lemma_choice_names(s);
    reveal_strlit("3");
    lemma_decimal_single_line(s.policy.sample_rate as nat);
    lemma_decimal_single_line(s.resampler_stop_band as nat);
    lemma_decimal_single_line(s.resampler_half_length as nat);
    lemma_decimal_single_line(s.resampler_percent as nat);
    lemma_decimal_single_line(s.usb_period as nat);
    lemma_bool_single_line(true);
    lemma_bool_single_line(false);
    let p = choose|i: int| 0 <= i < 22 && #[trigger] POLICIES[i].0@ == s.policy.policy;
    let d = choose|i: int|
        0 <= i < 4 && #[trigger] crate::catalog::BIT_DEPTHS[i].0@ == s.policy.bit_depth;
    let sc = choose|i: int|
        0 <= i < IO_SCHEDULERS@.len() && #[trigger] IO_SCHEDULERS@[i]@ == s.io_scheduler;
    let t = choose|i: int| 0 <= i < IO_TONES@.len() && #[trigger] IO_TONES@[i]@ == s.io_tone;
    assert(IO_SCHEDULERS@[sc] == IO_SCHEDULERS[sc]);
    assert(IO_TONES@[t] == IO_TONES[t]);
}

/// Every value written for a storable state stands on one line.
pub proof fn lemma_values_single_line(s: StoredView)
    requires
        text_fields_single_line(s) || storable(s),
    ensures
        forall|i: int| 0 <= i < 50 ==> single_line(#[trigger] state_values(s)[i]),
{
    if storable(s) {
        lemma_fields_single_line(s);
    } else {
        lemma_canonical_preset_single_line(s.resampler_preset);
    }
    reveal_strlit("3");
    lemma_decimal_single_line(s.policy.sample_rate as nat);
    lemma_decimal_single_line(s.resampler_stop_band as nat);
    lemma_decimal_single_line(s.resampler_half_length as nat);
    lemma_decimal_single_line(s.resampler_percent as nat);
    lemma_decimal_single_line(s.usb_period as nat);
    let fv = fixed_values(s);
    assert(fv.len() == 28);
    assert forall|i: int| 0 <= i < 28 implies single_line(#[trigger] fv[i]) by {
        lemma_bool_single_line(s.policy_configured);
        lemma_bool_single_line(s.policy.drc);
        lemma_bool_single_line(s.policy.force_usbv2);
        lemma_bool_single_line(s.policy.force_bluetooth_qti);
        lemma_bool_single_line(s.policy.amzm);
        lemma_bool_single_line(s.policy.test);
        lemma_bool_single_line(s.bluetooth_hal_configured);
        lemma_bool_single_line(s.resampler_configured);
        lemma_bool_single_line(s.resampler_cheat);
        lemma_bool_single_line(s.usb_period_configured);
        lemma_bool_single_line(s.diagnostic_all);
        lemma_bool_single_line(s.wifi_no_restart);
        lemma_bool_single_line(s.auto_reapply);
        if i == 0 {
            assert(fixed_values(s)[i] == "3"@);
        } else if i == 1 {
            assert(fixed_values(s)[i] == bool_text(s.policy_configured));
        } else if i == 2 {
            assert(fixed_values(s)[i] == s.policy.policy);
        } else if i == 3 {
            assert(fixed_values(s)[i] == decimal(s.policy.sample_rate as nat));
        } else if i == 4 {
            assert(fixed_values(s)[i] == s.policy.bit_depth);
        } else if i == 5 {
            assert(fixed_values(s)[i] == bool_text(s.policy.drc));
        } else if i == 6 {
            assert(fixed_values(s)[i] == bool_text(s.policy.force_usbv2));
        } else if i == 7 {
            assert(fixed_values(s)[i] == bool_text(s.policy.force_bluetooth_qti));
        } else if i == 8 {
            assert(fixed_values(s)[i] == bool_text(s.policy.amzm));
        } else if i == 9 {
            assert(fixed_values(s)[i] == bool_text(s.policy.test));
        } else if i == 10 {
            assert(fixed_values(s)[i] == template_text(s.policy.test_template));
        } else if i == 11 {
            assert(fixed_values(s)[i] == bool_text(s.bluetooth_hal_configured));
        } else if i == 12 {
            assert(fixed_values(s)[i] == s.bluetooth_hal);
        } else if i == 13 {
            assert(fixed_values(s)[i] == bool_text(s.resampler_configured));
        } else if i == 14 {
            assert(fixed_values(s)[i] == canonical_preset(s.resampler_preset));
        } else if i == 15 {
            assert(fixed_values(s)[i] == s.resampler_bypass);
        } else if i == 16 {
            assert(fixed_values(s)[i] == bool_text(s.resampler_cheat));
        } else if i == 17 {
            assert(fixed_values(s)[i] == decimal(s.resampler_stop_band as nat));
        } else if i == 18 {
            assert(fixed_values(s)[i] == decimal(s.resampler_half_length as nat));
        } else if i == 19 {
            assert(fixed_values(s)[i] == decimal(s.resampler_percent as nat));
        } else if i == 20 {
            assert(fixed_values(s)[i] == bool_text(s.usb_period_configured));
        } else if i == 21 {
            assert(fixed_values(s)[i] == decimal(s.usb_period as nat));
        } else if i == 22 {
            assert(fixed_values(s)[i] == s.diagnostic);
        } else if i == 23 {
            assert(fixed_values(s)[i] == bool_text(s.diagnostic_all));
        } else if i == 24 {
            assert(fixed_values(s)[i] == s.io_scheduler);
        } else if i == 25 {
            assert(fixed_values(s)[i] == s.io_tone);
        } else if i == 26 {
            assert(fixed_values(s)[i] == bool_text(s.wifi_no_restart));
        } else if i == 27 {
            assert(fixed_values(s)[i] == bool_text(s.auto_reapply));
        }
    }
    assert forall|i: int| 0 <= i < 22 implies single_line(#[trigger] flag_values(s)[i]) by {
        lemma_bool_single_line(s.jitter_values[i / 2]);
        lemma_bool_single_line(s.jitter_configured[i / 2]);
    }
    assert forall|i: int| 0 <= i < 50 implies single_line(#[trigger] state_values(s)[i]) by {
        if i < 28 {
            assert(state_values(s)[i] == fv[i]);
        } else {
            assert(state_values(s)[i] == flag_values(s)[i - 28]);
        }
    }
}

// ---------------------------------------------------------------------------
// Applying the entries of a complete file
// ---------------------------------------------------------------------------

/// A state as the file records it: the resampler preset canonical.
pub open spec fn canonical_state(s: StoredView) -> StoredView {
    StoredView { resampler_preset: canonical_preset(s.resampler_preset), ..s }
}

/// `t` with the field of required key `i` taken from `c`.
pub open spec fn assign_key(t: StoredView, c: StoredView, i: int) -> StoredView {
    if i == 1 {
        StoredView { policy_configured: c.policy_configured, ..t }
    } else if i == 2 {
        StoredView { policy: SettingsView { policy: c.policy.policy, ..t.policy }, ..t }
    } else if i == 3 {
        StoredView { policy: SettingsView { sample_rate: c.policy.sample_rate, ..t.policy }, ..t }
    } else if i == 4 {
        StoredView { policy: SettingsView { bit_depth: c.policy.bit_depth, ..t.policy }, ..t }
    } else if i == 5 {
        StoredView { policy: SettingsView { drc: c.policy.drc, ..t.policy }, ..t }
    } else if i == 6 {
        StoredView { policy: SettingsView { force_usbv2: c.policy.force_usbv2, ..t.policy }, ..t }
    } else if i == 7 {
        StoredView {
            policy: SettingsView { force_bluetooth_qti: c.policy.force_bluetooth_qti, ..t.policy },
            ..t
        }
    } else if i == 8 {
        StoredView { policy: SettingsView { amzm: c.policy.amzm, ..t.policy }, ..t }
    } else if i == 9 {
        StoredView { policy: SettingsView { test: c.policy.test, ..t.policy }, ..t }
    } else if i == 10 {
        StoredView { policy: SettingsView { test_template: c.policy.test_template, ..t.policy }, ..t }
    } else if i == 11 {
        StoredView { bluetooth_hal_configured: c.bluetooth_hal_configured, ..t }
    } else if i == 12 {
        StoredView { bluetooth_hal: c.bluetooth_hal, ..t }
    } else if i == 13 {
        StoredView { resampler_configured: c.resampler_configured, ..t }
    } else if i == 14 {
        StoredView { resampler_preset: c.resampler_preset, ..t }
    } else if i == 15 {
        StoredView { resampler_bypass: c.resampler_bypass, ..t }
    } else if i == 16 {
        StoredView { resampler_cheat: c.resampler_cheat, ..t }
    } else if i == 17 {
        StoredView { resampler_stop_band: c.resampler_stop_band, ..t }
    } else if i == 18 {
        StoredView { resampler_half_length: c.resampler_half_length, ..t }
    } else if i == 19 {
        StoredView { resampler_percent: c.resampler_percent, ..t }
    } else if i == 20 {
        StoredView { usb_period_configured: c.usb_period_configured, ..t }
    } else if i == 21 {
        StoredView { usb_period: c.usb_period, ..t }
    } else if i == 22 {
        StoredView { diagnostic: c.diagnostic, ..t }
    } else if i == 23 {
        StoredView { diagnostic_all: c.diagnostic_all, ..t }
    } else if i == 24 {
        StoredView { io_scheduler: c.io_scheduler, ..t }
    } else if i == 25 {
        StoredView { io_tone: c.io_tone, ..t }
    } else if i == 26 {
        StoredView { wifi_no_restart: c.wifi_no_restart, ..t }
    } else if i == 27 {
        StoredView { auto_reapply: c.auto_reapply, ..t }
    } else if 28 <= i < 50 && (i - 28) % 2 == 0 {
        let k = (i - 28) / 2;
        StoredView { jitter_values: t.jitter_values.update(k, c.jitter_values[k]), ..t }
    } else if 28 <= i < 50 {
        let k = (i - 28) / 2;
        StoredView { jitter_configured: t.jitter_configured.update(k, c.jitter_configured[k]), ..t }
    } else {
        t
    }
}

proof fn lemma_bool_entry(key: Seq<char>, b: bool)
    ensures
        parse_bool_spec(key, bool_text(b)) == Ok::<bool, Seq<char>>(b),
{
    reveal_strlit("0");
    reveal_strlit("1");
    assert("1"@[0] != "0"@[0]);
}

proof fn lemma_number_entry(n: u32, lo: u32, hi: u32, label: Seq<char>)
    requires
        lo <= n <= hi,
    ensures
        validate_u32_spec(decimal(n as nat), lo, hi, label) == Ok::<u32, Seq<char>>(n),
{
    lemma_parse_decimal(n);
}

/// The value written for key `i`, read back, sets the field of key `i`.
pub open spec fn entry_reads_back(t: StoredView, s: StoredView, i: int) -> bool {
    apply_value_spec(t, required_keys()[i], state_values(s)[i]) == Ok::<StoredView, Seq<char>>(
        assign_key(t, canonical_state(s), i),
    )
}

proof fn lemma_canonical_preset_stable(p: Seq<char>)
    ensures
        canonical_preset(canonical_preset(p)) == canonical_preset(p),
{
    reveal_strlit("default");
    reveal_strlit("179-408-99");
    assert(crate::catalog::RESAMPLER_DEFAULT_PRESET@[0] != "default"@[0]);
}

/// Feature `k` is found at position `k`: no feature is named twice.
proof fn lemma_feature_index(k: int)
    requires
        0 <= k < 11,
    ensures
        feature_index(JITTER_FEATURES[k]@) == Some(k),
{
    lemma_required_keys_distinct();
    assert forall|j: int| 0 <= j < k implies JITTER_FEATURES@[j]@ != JITTER_FEATURES[k]@ by {
        assert(required_keys()[28 + 2 * j] == "jitter_"@ + JITTER_FEATURES[j]@);
        assert(required_keys()[28 + 2 * k] == "jitter_"@ + JITTER_FEATURES[k]@);
        if JITTER_FEATURES@[j]@ == JITTER_FEATURES[k]@ {
            assert(required_keys()[28 + 2 * j] == required_keys()[28 + 2 * k]);
        }
    }
    assert(JITTER_FEATURES@[k]@ == JITTER_FEATURES[k]@);
    lemma_index_from(JITTER_FEATURES@, JITTER_FEATURES[k]@, 0);
}

proof fn lemma_jitter_entry(t: StoredView, s: StoredView, f: int, configured: bool)
    requires
        storable(s),
        0 <= f < 11,
    ensures
        apply_jitter_value_spec(t, jitter_key_of(f, configured), bool_text(
            if configured {
                s.jitter_configured[f]
            } else {
                s.jitter_values[f]
            },
        )) == Ok::<StoredView, Seq<char>>(
            if configured {
                StoredView {
                    jitter_configured: t.jitter_configured.update(f, s.jitter_configured[f]),
                    ..t
                }
            } else {
                StoredView { jitter_values: t.jitter_values.update(f, s.jitter_values[f]), ..t }
            },
        ),
{
    lemma_jitter_key(f, configured);
    lemma_feature_index(f);
    let key = jitter_key_of(f, configured);
    lemma_bool_entry(key, s.jitter_configured[f]);
    lemma_bool_entry(key, s.jitter_values[f]);
}

/// The fingerprints of the fixed keys, which tell them apart.
proof fn lemma_fixed_fingerprints()
    ensures
        key_fingerprint("version"@) == 125173760,
        key_fingerprint("policy_configured"@) == 292578150,
        key_fingerprint("policy"@) == 108003328,
        key_fingerprint("sample_rate"@) == 192115301,
        key_fingerprint("bit_depth"@) == 157447168,
        key_fingerprint("drc"@) == 56885248,
        key_fingerprint("force_usbv2"@) == 191263538,
        key_fingerprint("force_bluetooth_qti"@) == 325479540,
        key_fingerprint("amzm"@) == 73465856,
        key_fingerprint("test"@) == 74711040,
        key_fingerprint("test_template"@) == 225733985,
        key_fingerprint("bluetooth_hal_configured"@) == 409105512,
        key_fingerprint("bluetooth_hal"@) == 224556136,
        key_fingerprint("resampler_configured"@) == 343041379,
        key_fingerprint("resampler_preset"@) == 275932528,
        key_fingerprint("resampler_bypass"@) == 275932514,
        key_fingerprint("resampler_cheat"@) == 259155299,
        key_fingerprint("resampler_stop_band"@) == 326264179,
        key_fingerprint("resampler_half_length"@) == 359818600,
        key_fingerprint("resampler_percent"@) == 292709744,
        key_fingerprint("usb_period_configured"@) == 360016223,
        key_fingerprint("usb_period"@) == 175466752,
        key_fingerprint("diagnostic"@) == 174355456,
        key_fingerprint("diagnostic_all"@) == 241464415,
        key_fingerprint("io_scheduler"@) == 208233573,
        key_fingerprint("io_tone"@) == 124321792,
        key_fingerprint("wifi_no_restart"@) == 259481459,
        key_fingerprint("auto_reapply"@) == 207708524,
{
    reveal_strlit("version");
    reveal_strlit("policy_configured");
    reveal_strlit("policy");
    reveal_strlit("sample_rate");
    reveal_strlit("bit_depth");
    reveal_strlit("drc");
    reveal_strlit("force_usbv2");
    reveal_strlit("force_bluetooth_qti");
    reveal_strlit("amzm");
    reveal_strlit("test");
    reveal_strlit("test_template");
    reveal_strlit("bluetooth_hal_configured");
    reveal_strlit("bluetooth_hal");
    reveal_strlit("resampler_configured");
    reveal_strlit("resampler_preset");
    reveal_strlit("resampler_bypass");
    reveal_strlit("resampler_cheat");
    reveal_strlit("resampler_stop_band");
    reveal_strlit("resampler_half_length");
    reveal_strlit("resampler_percent");
    reveal_strlit("usb_period_configured");
    reveal_strlit("usb_period");
    reveal_strlit("diagnostic");
    reveal_strlit("diagnostic_all");
    reveal_strlit("io_scheduler");
    reveal_strlit("io_tone");
    reveal_strlit("wifi_no_restart");
    reveal_strlit("auto_reapply");
}

/// No fixed key begins as the per-feature keys do.
proof fn lemma_fixed_initials()
    ensures
        "version"@[0] == 'v',
        "policy_configured"@[0] == 'p',
        "policy"@[0] == 'p',
        "sample_rate"@[0] == 's',
        "bit_depth"@[0] == 'b',
        "drc"@[0] == 'd',
        "force_usbv2"@[0] == 'f',
        "force_bluetooth_qti"@[0] == 'f',
        "amzm"@[0] == 'a',
        "test"@[0] == 't',
        "test_template"@[0] == 't',
        "bluetooth_hal_configured"@[0] == 'b',
        "bluetooth_hal"@[0] == 'b',
        "resampler_configured"@[0] == 'r',
        "resampler_preset"@[0] == 'r',
        "resampler_bypass"@[0] == 'r',
        "resampler_cheat"@[0] == 'r',
        "resampler_stop_band"@[0] == 'r',
        "resampler_half_length"@[0] == 'r',
        "resampler_percent"@[0] == 'r',
        "usb_period_configured"@[0] == 'u',
        "usb_period"@[0] == 'u',
        "diagnostic"@[0] == 'd',
        "diagnostic_all"@[0] == 'd',
        "io_scheduler"@[0] == 'i',
        "io_tone"@[0] == 'i',
        "wifi_no_restart"@[0] == 'w',
        "auto_reapply"@[0] == 'a',
        "jitter_"@[0] == 'j',
        "jitter_"@.len() == 7,
{
    reveal_strlit("version");
    reveal_strlit("policy_configured");
    reveal_strlit("policy");
    reveal_strlit("sample_rate");
    reveal_strlit("bit_depth");
    reveal_strlit("drc");
    reveal_strlit("force_usbv2");
    reveal_strlit("force_bluetooth_qti");
    reveal_strlit("amzm");
    reveal_strlit("test");
    reveal_strlit("test_template");
    reveal_strlit("bluetooth_hal_configured");
    reveal_strlit("bluetooth_hal");
    reveal_strlit("resampler_configured");
    reveal_strlit("resampler_preset");
    reveal_strlit("resampler_bypass");
    reveal_strlit("resampler_cheat");
    reveal_strlit("resampler_stop_band");
    reveal_strlit("resampler_half_length");
    reveal_strlit("resampler_percent");
    reveal_strlit("usb_period_configured");
    reveal_strlit("usb_period");
    reveal_strlit("diagnostic");
    reveal_strlit("diagnostic_all");
    reveal_strlit("io_scheduler");
    reveal_strlit("io_tone");
    reveal_strlit("wifi_no_restart");
    reveal_strlit("auto_reapply");
    reveal_strlit("jitter_");
}

#[verifier::rlimit(40)]
#[verifier::spinoff_prover]
proof fn lemma_entry_0(t: StoredView, s: StoredView)
    requires
        storable(s),
    ensures
        entry_reads_back(t, s, 0),
{
    lemma_fixed_fingerprints();
    assert(required_keys()[0] == "version"@);
    assert(state_values(s)[0] == fixed_values(s)[0]);
}

#[verifier::rlimit(40)]
#[verifier::spinoff_prover]
proof fn lemma_entry_1(t: StoredView, s: StoredView)
    requires
        storable(s),
    ensures
        entry_reads_back(t, s, 1),
{
    lemma_fixed_fingerprints();
    assert(required_keys()[1] == "policy_configured"@);
    assert(state_values(s)[1] == fixed_values(s)[1]);
    lemma_bool_entry(required_keys()[1], s.policy_configured);
}

#[verifier::rlimit(40)]
#[verifier::spinoff_prover]
proof fn lemma_entry_2(t: StoredView, s: StoredView)
    requires
        storable(s),
    ensures
        entry_reads_back(t, s, 2),
{
    lemma_fixed_fingerprints();
    assert(required_keys()[2] == "policy"@);
    assert(state_values(s)[2] == fixed_values(s)[2]);
}

#[verifier::rlimit(40)]
#[verifier::spinoff_prover]
proof fn lemma_entry_3(t: StoredView, s: StoredView)
    requires
        storable(s),
    ensures
        entry_reads_back(t, s, 3),
{
    lemma_fixed_fingerprints();
    assert(required_keys()[3] == "sample_rate"@);
    assert(state_values(s)[3] == fixed_values(s)[3]);
    lemma_parse_decimal(s.policy.sample_rate);
    lemma_rate_range_accepted(s.policy.sample_rate);
}

#[verifier::rlimit(40)]
#[verifier::spinoff_prover]
proof fn lemma_entry_4(t: StoredView, s: StoredView)
    requires
        storable(s),
    ensures
        entry_reads_back(t, s, 4),
{
    lemma_fixed_fingerprints();
    assert(required_keys()[4] == "bit_depth"@);
    assert(state_values(s)[4] == fixed_values(s)[4]);
}

#[verifier::rlimit(40)]
#[verifier::spinoff_prover]
proof fn lemma_entry_5(t: StoredView, s: StoredView)
    requires
        storable(s),
    ensures
        entry_reads_back(t, s, 5),
{
    lemma_fixed_fingerprints();
    assert(required_keys()[5] == "drc"@);
    assert(state_values(s)[5] == fixed_values(s)[5]);
    lemma_bool_entry(required_keys()[5], s.policy.drc);
}

#[verifier::rlimit(40)]
#[verifier::spinoff_prover]
proof fn lemma_entry_6(t: StoredView, s: StoredView)
    requires
        storable(s),
    ensures
        entry_reads_back(t, s, 6),
{
    lemma_fixed_fingerprints();
    assert(required_keys()[6] == "force_usbv2"@);
    assert(state_values(s)[6] == fixed_values(s)[6]);
    lemma_bool_entry(required_keys()[6], s.policy.force_usbv2);
}

#[verifier::rlimit(40)]
#[verifier::spinoff_prover]
proof fn lemma_entry_7(t: StoredView, s: StoredView)
    requires
        storable(s),
    ensures
        entry_reads_back(t, s, 7),
{
    lemma_fixed_fingerprints();
    assert(required_keys()[7] == "force_bluetooth_qti"@);
    assert(state_values(s)[7] == fixed_values(s)[7]);
    lemma_bool_entry(required_keys()[7], s.policy.force_bluetooth_qti);
}

#[verifier::rlimit(40)]
#[verifier::spinoff_prover]
proof fn lemma_entry_8(t: StoredView, s: StoredView)
    requires
        storable(s),
    ensures
        entry_reads_back(t, s, 8),
{
    lemma_fixed_fingerprints();
    assert(required_keys()[8] == "amzm"@);
    assert(state_values(s)[8] == fixed_values(s)[8]);
    lemma_bool_entry(required_keys()[8], s.policy.amzm);
}

#[verifier::rlimit(40)]
#[verifier::spinoff_prover]
proof fn lemma_entry_9(t: StoredView, s: StoredView)
    requires
        storable(s),
    ensures
        entry_reads_back(t, s, 9),
{
    lemma_fixed_fingerprints();
    assert(required_keys()[9] == "test"@);
    assert(state_values(s)[9] == fixed_values(s)[9]);
    lemma_bool_entry(required_keys()[9], s.policy.test);
}

#[verifier::rlimit(40)]
#[verifier::spinoff_prover]
proof fn lemma_entry_10(t: StoredView, s: StoredView)
    requires
        storable(s),
    ensures
        entry_reads_back(t, s, 10),
{
    lemma_fixed_fingerprints();
    assert(required_keys()[10] == "test_template"@);
    assert(state_values(s)[10] == fixed_values(s)[10]);
}

#[verifier::rlimit(40)]
#[verifier::spinoff_prover]
proof fn lemma_entry_11(t: StoredView, s: StoredView)
    requires
        storable(s),
    ensures
        entry_reads_back(t, s, 11),
{
    lemma_fixed_fingerprints();
    assert(required_keys()[11] == "bluetooth_hal_configured"@);
    assert(state_values(s)[11] == fixed_values(s)[11]);
    lemma_bool_entry(required_keys()[11], s.bluetooth_hal_configured);
}

#[verifier::rlimit(40)]
#[verifier::spinoff_prover]
proof fn lemma_entry_12(t: StoredView, s: StoredView)
    requires
        storable(s),
    ensures
        entry_reads_back(t, s, 12),
{
    lemma_fixed_fingerprints();
    assert(required_keys()[12] == "bluetooth_hal"@);
    assert(state_values(s)[12] == fixed_values(s)[12]);
}

#[verifier::rlimit(40)]
#[verifier::spinoff_prover]
proof fn lemma_entry_13(t: StoredView, s: StoredView)
    requires
        storable(s),
    ensures
        entry_reads_back(t, s, 13),
{
    lemma_fixed_fingerprints();
    assert(required_keys()[13] == "resampler_configured"@);
    assert(state_values(s)[13] == fixed_values(s)[13]);
    lemma_bool_entry(required_keys()[13], s.resampler_configured);
}

#[verifier::rlimit(40)]
#[verifier::spinoff_prover]
proof fn lemma_entry_14(t: StoredView, s: StoredView)
    requires
        storable(s),
    ensures
        entry_reads_back(t, s, 14),
{
    lemma_fixed_fingerprints();
    assert(required_keys()[14] == "resampler_preset"@);
    assert(state_values(s)[14] == fixed_values(s)[14]);
    lemma_canonical_preset_stable(s.resampler_preset);
}

#[verifier::rlimit(40)]
#[verifier::spinoff_prover]
proof fn lemma_entry_15(t: StoredView, s: StoredView)
    requires
        storable(s),
    ensures
        entry_reads_back(t, s, 15),
{
    lemma_fixed_fingerprints();
    assert(required_keys()[15] == "resampler_bypass"@);
    assert(state_values(s)[15] == fixed_values(s)[15]);
}

#[verifier::rlimit(40)]
#[verifier::spinoff_prover]
proof fn lemma_entry_16(t: StoredView, s: StoredView)
    requires
        storable(s),
    ensures
        entry_reads_back(t, s, 16),
{
    lemma_fixed_fingerprints();
    assert(required_keys()[16] == "resampler_cheat"@);
    assert(state_values(s)[16] == fixed_values(s)[16]);
    lemma_bool_entry(required_keys()[16], s.resampler_cheat);
}

#[verifier::rlimit(40)]
#[verifier::spinoff_prover]
proof fn lemma_entry_17(t: StoredView, s: StoredView)
    requires
        storable(s),
    ensures
        entry_reads_back(t, s, 17),
{
    lemma_fixed_fingerprints();
    assert(required_keys()[17] == "resampler_stop_band"@);
    assert(state_values(s)[17] == fixed_values(s)[17]);
    lemma_number_entry(s.resampler_stop_band, 20, 242, "resampler stop band"@);
}

#[verifier::rlimit(40)]
#[verifier::spinoff_prover]
proof fn lemma_entry_18(t: StoredView, s: StoredView)
    requires
        storable(s),
    ensures
        entry_reads_back(t, s, 18),
{
    lemma_fixed_fingerprints();
    assert(required_keys()[18] == "resampler_half_length"@);
    assert(state_values(s)[18] == fixed_values(s)[18]);
    lemma_number_entry(s.resampler_half_length, 8, 640, "resampler half length"@);
}

#[verifier::rlimit(40)]
#[verifier::spinoff_prover]
proof fn lemma_entry_19(t: StoredView, s: StoredView)
    requires
        storable(s),
    ensures
        entry_reads_back(t, s, 19),
{
    lemma_fixed_fingerprints();
    assert(required_keys()[19] == "resampler_percent"@);
    assert(state_values(s)[19] == fixed_values(s)[19]);
    lemma_number_entry(s.resampler_percent, 1, 200, "resampler percent"@);
}

#[verifier::rlimit(40)]
#[verifier::spinoff_prover]
proof fn lemma_entry_20(t: StoredView, s: StoredView)
    requires
        storable(s),
    ensures
        entry_reads_back(t, s, 20),
{
    lemma_fixed_fingerprints();
    assert(required_keys()[20] == "usb_period_configured"@);
    assert(state_values(s)[20] == fixed_values(s)[20]);
    lemma_bool_entry(required_keys()[20], s.usb_period_configured);
}

#[verifier::rlimit(40)]
#[verifier::spinoff_prover]
proof fn lemma_entry_21(t: StoredView, s: StoredView)
    requires
        storable(s),
    ensures
        entry_reads_back(t, s, 21),
{
    lemma_fixed_fingerprints();
    assert(required_keys()[21] == "usb_period"@);
    assert(state_values(s)[21] == fixed_values(s)[21]);
    lemma_number_entry(s.usb_period, 125, 50_000, "USB period"@);
}

#[verifier::rlimit(40)]
#[verifier::spinoff_prover]
proof fn lemma_entry_22(t: StoredView, s: StoredView)
    requires
        storable(s),
    ensures
        entry_reads_back(t, s, 22),
{
    lemma_fixed_fingerprints();
    assert(required_keys()[22] == "diagnostic"@);
    assert(state_values(s)[22] == fixed_values(s)[22]);
}

#[verifier::rlimit(40)]
#[verifier::spinoff_prover]
proof fn lemma_entry_23(t: StoredView, s: StoredView)
    requires
        storable(s),
    ensures
        entry_reads_back(t, s, 23),
{
    lemma_fixed_fingerprints();
    assert(required_keys()[23] == "diagnostic_all"@);
    assert(state_values(s)[23] == fixed_values(s)[23]);
    lemma_bool_entry(required_keys()[23], s.diagnostic_all);
}

#[verifier::rlimit(40)]
#[verifier::spinoff_prover]
proof fn lemma_entry_24(t: StoredView, s: StoredView)
    requires
        storable(s),
    ensures
        entry_reads_back(t, s, 24),
{
    lemma_fixed_fingerprints();
    assert(required_keys()[24] == "io_scheduler"@);
    assert(state_values(s)[24] == fixed_values(s)[24]);
}

#[verifier::rlimit(40)]
#[verifier::spinoff_prover]
proof fn lemma_entry_25(t: StoredView, s: StoredView)
    requires
        storable(s),
    ensures
        entry_reads_back(t, s, 25),
{
    lemma_fixed_fingerprints();
    assert(required_keys()[25] == "io_tone"@);
    assert(state_values(s)[25] == fixed_values(s)[25]);
}

#[verifier::rlimit(40)]
#[verifier::spinoff_prover]
proof fn lemma_entry_26(t: StoredView, s: StoredView)
    requires
        storable(s),
    ensures
        entry_reads_back(t, s, 26),
{
    lemma_fixed_fingerprints();
    assert(required_keys()[26] == "wifi_no_restart"@);
    assert(state_values(s)[26] == fixed_values(s)[26]);
    lemma_bool_entry(required_keys()[26], s.wifi_no_restart);
}

#[verifier::rlimit(40)]
#[verifier::spinoff_prover]
proof fn lemma_entry_27(t: StoredView, s: StoredView)
    requires
        storable(s),
    ensures
        entry_reads_back(t, s, 27),
{
    lemma_fixed_fingerprints();
    assert(required_keys()[27] == "auto_reapply"@);
    assert(state_values(s)[27] == fixed_values(s)[27]);
    lemma_bool_entry(required_keys()[27], s.auto_reapply);
}

#[verifier::rlimit(40)]
#[verifier::spinoff_prover]
proof fn lemma_entry_28(t: StoredView, s: StoredView)
    requires
        storable(s),
    ensures
        entry_reads_back(t, s, 28),
{
    lemma_fixed_initials();
    assert(required_keys()[28] == jitter_key_of(0, false));
    assert(jitter_key_of(0, false)[0] == 'j');
    assert(state_values(s)[28] == flag_values(s)[0]);
    lemma_jitter_entry(t, s, 0, false);
}

#[verifier::rlimit(40)]
#[verifier::spinoff_prover]
proof fn lemma_entry_29(t: StoredView, s: StoredView)
    requires
        storable(s),
    ensures
        entry_reads_back(t, s, 29),
{
    lemma_fixed_initials();
    assert(required_keys()[29] == jitter_key_of(0, true));
    assert(jitter_key_of(0, true)[0] == 'j');
    assert(state_values(s)[29] == flag_values(s)[1]);
    lemma_jitter_entry(t, s, 0, true);
}

#[verifier::rlimit(40)]
#[verifier::spinoff_prover]
proof fn lemma_entry_30(t: StoredView, s: StoredView)
    requires
        storable(s),
    ensures
        entry_reads_back(t, s, 30),
{
    lemma_fixed_initials();
    assert(required_keys()[30] == jitter_key_of(1, false));
    assert(jitter_key_of(1, false)[0] == 'j');
    assert(state_values(s)[30] == flag_values(s)[2]);
    lemma_jitter_entry(t, s, 1, false);
}

#[verifier::rlimit(40)]
#[verifier::spinoff_prover]
proof fn lemma_entry_31(t: StoredView, s: StoredView)
    requires
        storable(s),
    ensures
        entry_reads_back(t, s, 31),
{
    lemma_fixed_initials();
    assert(required_keys()[31] == jitter_key_of(1, true));
    assert(jitter_key_of(1, true)[0] == 'j');
    assert(state_values(s)[31] == flag_values(s)[3]);
    lemma_jitter_entry(t, s, 1, true);
}

#[verifier::rlimit(40)]
#[verifier::spinoff_prover]
proof fn lemma_entry_32(t: StoredView, s: StoredView)
    requires
        storable(s),
    ensures
        entry_reads_back(t, s, 32),
{
    lemma_fixed_initials();
    assert(required_keys()[32] == jitter_key_of(2, false));
    assert(jitter_key_of(2, false)[0] == 'j');
    assert(state_values(s)[32] == flag_values(s)[4]);
    lemma_jitter_entry(t, s, 2, false);
}

#[verifier::rlimit(40)]
#[verifier::spinoff_prover]
proof fn lemma_entry_33(t: StoredView, s: StoredView)
    requires
        storable(s),
    ensures
        entry_reads_back(t, s, 33),
{
    lemma_fixed_initials();
    assert(required_keys()[33] == jitter_key_of(2, true));
    assert(jitter_key_of(2, true)[0] == 'j');
    assert(state_values(s)[33] == flag_values(s)[5]);
    lemma_jitter_entry(t, s, 2, true);
}

#[verifier::rlimit(40)]
#[verifier::spinoff_prover]
proof fn lemma_entry_34(t: StoredView, s: StoredView)
    requires
        storable(s),
    ensures
        entry_reads_back(t, s, 34),
{
    lemma_fixed_initials();
    assert(required_keys()[34] == jitter_key_of(3, false));
    assert(jitter_key_of(3, false)[0] == 'j');
    assert(state_values(s)[34] == flag_values(s)[6]);
    lemma_jitter_entry(t, s, 3, false);
}

#[verifier::rlimit(40)]
#[verifier::spinoff_prover]
proof fn lemma_entry_35(t: StoredView, s: StoredView)
    requires
        storable(s),
    ensures
        entry_reads_back(t, s, 35),
{
    lemma_fixed_initials();
    assert(required_keys()[35] == jitter_key_of(3, true));
    assert(jitter_key_of(3, true)[0] == 'j');
    assert(state_values(s)[35] == flag_values(s)[7]);
    lemma_jitter_entry(t, s, 3, true);
}

#[verifier::rlimit(40)]
#[verifier::spinoff_prover]
proof fn lemma_entry_36(t: StoredView, s: StoredView)
    requires
        storable(s),
    ensures
        entry_reads_back(t, s, 36),
{
    lemma_fixed_initials();
    assert(required_keys()[36] == jitter_key_of(4, false));
    assert(jitter_key_of(4, false)[0] == 'j');
    assert(state_values(s)[36] == flag_values(s)[8]);
    lemma_jitter_entry(t, s, 4, false);
}

#[verifier::rlimit(40)]
#[verifier::spinoff_prover]
proof fn lemma_entry_37(t: StoredView, s: StoredView)
    requires
        storable(s),
    ensures
        entry_reads_back(t, s, 37),
{
    lemma_fixed_initials();
    assert(required_keys()[37] == jitter_key_of(4, true));
    assert(jitter_key_of(4, true)[0] == 'j');
    assert(state_values(s)[37] == flag_values(s)[9]);
    lemma_jitter_entry(t, s, 4, true);
}

#[verifier::rlimit(40)]
#[verifier::spinoff_prover]
proof fn lemma_entry_38(t: StoredView, s: StoredView)
    requires
        storable(s),
    ensures
        entry_reads_back(t, s, 38),
{
    lemma_fixed_initials();
    assert(required_keys()[38] == jitter_key_of(5, false));
    assert(jitter_key_of(5, false)[0] == 'j');
    assert(state_values(s)[38] == flag_values(s)[10]);
    lemma_jitter_entry(t, s, 5, false);
}

#[verifier::rlimit(40)]
#[verifier::spinoff_prover]
proof fn lemma_entry_39(t: StoredView, s: StoredView)
    requires
        storable(s),
    ensures
        entry_reads_back(t, s, 39),
{
    lemma_fixed_initials();
    assert(required_keys()[39] == jitter_key_of(5, true));
    assert(jitter_key_of(5, true)[0] == 'j');
    assert(state_values(s)[39] == flag_values(s)[11]);
    lemma_jitter_entry(t, s, 5, true);
}

#[verifier::rlimit(40)]
#[verifier::spinoff_prover]
proof fn lemma_entry_40(t: StoredView, s: StoredView)
    requires
        storable(s),
    ensures
        entry_reads_back(t, s, 40),
{
    lemma_fixed_initials();
    assert(required_keys()[40] == jitter_key_of(6, false));
    assert(jitter_key_of(6, false)[0] == 'j');
    assert(state_values(s)[40] == flag_values(s)[12]);
    lemma_jitter_entry(t, s, 6, false);
}

#[verifier::rlimit(40)]
#[verifier::spinoff_prover]
proof fn lemma_entry_41(t: StoredView, s: StoredView)
    requires
        storable(s),
    ensures
        entry_reads_back(t, s, 41),
{
    lemma_fixed_initials();
    assert(required_keys()[41] == jitter_key_of(6, true));
    assert(jitter_key_of(6, true)[0] == 'j');
    assert(state_values(s)[41] == flag_values(s)[13]);
    lemma_jitter_entry(t, s, 6, true);
}

#[verifier::rlimit(40)]
#[verifier::spinoff_prover]
proof fn lemma_entry_42(t: StoredView, s: StoredView)
    requires
        storable(s),
    ensures
        entry_reads_back(t, s, 42),
{
    lemma_fixed_initials();
    assert(required_keys()[42] == jitter_key_of(7, false));
    assert(jitter_key_of(7, false)[0] == 'j');
    assert(state_values(s)[42] == flag_values(s)[14]);
    lemma_jitter_entry(t, s, 7, false);
}

#[verifier::rlimit(40)]
#[verifier::spinoff_prover]
proof fn lemma_entry_43(t: StoredView, s: StoredView)
    requires
        storable(s),
    ensures
        entry_reads_back(t, s, 43),
{
    lemma_fixed_initials();
    assert(required_keys()[43] == jitter_key_of(7, true));
    assert(jitter_key_of(7, true)[0] == 'j');
    assert(state_values(s)[43] == flag_values(s)[15]);
    lemma_jitter_entry(t, s, 7, true);
}

#[verifier::rlimit(40)]
#[verifier::spinoff_prover]
proof fn lemma_entry_44(t: StoredView, s: StoredView)
    requires
        storable(s),
    ensures
        entry_reads_back(t, s, 44),
{
    lemma_fixed_initials();
    assert(required_keys()[44] == jitter_key_of(8, false));
    assert(jitter_key_of(8, false)[0] == 'j');
    assert(state_values(s)[44] == flag_values(s)[16]);
    lemma_jitter_entry(t, s, 8, false);
}

#[verifier::rlimit(40)]
#[verifier::spinoff_prover]
proof fn lemma_entry_45(t: StoredView, s: StoredView)
    requires
        storable(s),
    ensures
        entry_reads_back(t, s, 45),
{
    lemma_fixed_initials();
    assert(required_keys()[45] == jitter_key_of(8, true));
    assert(jitter_key_of(8, true)[0] == 'j');
    assert(state_values(s)[45] == flag_values(s)[17]);
    lemma_jitter_entry(t, s, 8, true);
}

#[verifier::rlimit(40)]
#[verifier::spinoff_prover]
proof fn lemma_entry_46(t: StoredView, s: StoredView)
    requires
        storable(s),
    ensures
        entry_reads_back(t, s, 46),
{
    lemma_fixed_initials();
    assert(required_keys()[46] == jitter_key_of(9, false));
    assert(jitter_key_of(9, false)[0] == 'j');
    assert(state_values(s)[46] == flag_values(s)[18]);
    lemma_jitter_entry(t, s, 9, false);
}

#[verifier::rlimit(40)]
#[verifier::spinoff_prover]
proof fn lemma_entry_47(t: StoredView, s: StoredView)
    requires
        storable(s),
    ensures
        entry_reads_back(t, s, 47),
{
    lemma_fixed_initials();
    assert(required_keys()[47] == jitter_key_of(9, true));
    assert(jitter_key_of(9, true)[0] == 'j');
    assert(state_values(s)[47] == flag_values(s)[19]);
    lemma_jitter_entry(t, s, 9, true);
}

#[verifier::rlimit(40)]
#[verifier::spinoff_prover]
proof fn lemma_entry_48(t: StoredView, s: StoredView)
    requires
        storable(s),
    ensures
        entry_reads_back(t, s, 48),
{
    lemma_fixed_initials();
    assert(required_keys()[48] == jitter_key_of(10, false));
    assert(jitter_key_of(10, false)[0] == 'j');
    assert(state_values(s)[48] == flag_values(s)[20]);
    lemma_jitter_entry(t, s, 10, false);
}

#[verifier::rlimit(40)]
#[verifier::spinoff_prover]
proof fn lemma_entry_49(t: StoredView, s: StoredView)
    requires
        storable(s),
    ensures
        entry_reads_back(t, s, 49),
{
    lemma_fixed_initials();
    assert(required_keys()[49] == jitter_key_of(10, true));
    assert(jitter_key_of(10, true)[0] == 'j');
    assert(state_values(s)[49] == flag_values(s)[21]);
    lemma_jitter_entry(t, s, 10, true);
}
/// Reading back the value written for any required key sets that key's
/// field.
pub proof fn lemma_entry_reads_back(t: StoredView, s: StoredView, i: int)
    requires
        storable(s),
        0 <= i < 50,
    ensures
        entry_reads_back(t, s, i),
{
    if i == 0 {
        lemma_entry_0(t, s);
    } else if i == 1 {
        lemma_entry_1(t, s);
    } else if i == 2 {
        lemma_entry_2(t, s);
    } else if i == 3 {
        lemma_entry_3(t, s);
    } else if i == 4 {
        lemma_entry_4(t, s);
    } else if i == 5 {
        lemma_entry_5(t, s);
    } else if i == 6 {
        lemma_entry_6(t, s);
    } else if i == 7 {
        lemma_entry_7(t, s);
    } else if i == 8 {
        lemma_entry_8(t, s);
    } else if i == 9 {
        lemma_entry_9(t, s);
    } else if i == 10 {
        lemma_entry_10(t, s);
    } else if i == 11 {
        lemma_entry_11(t, s);
    } else if i == 12 {
        lemma_entry_12(t, s);
    } else if i == 13 {
        lemma_entry_13(t, s);
    } else if i == 14 {
        lemma_entry_14(t, s);
    } else if i == 15 {
        lemma_entry_15(t, s);
    } else if i == 16 {
        lemma_entry_16(t, s);
    } else if i == 17 {
        lemma_entry_17(t, s);
    } else if i == 18 {
        lemma_entry_18(t, s);
    } else if i == 19 {
        lemma_entry_19(t, s);
    } else if i == 20 {
        lemma_entry_20(t, s);
    } else if i == 21 {
        lemma_entry_21(t, s);
    } else if i == 22 {
        lemma_entry_22(t, s);
    } else if i == 23 {
        lemma_entry_23(t, s);
    } else if i == 24 {
        lemma_entry_24(t, s);
    } else if i == 25 {
        lemma_entry_25(t, s);
    } else if i == 26 {
        lemma_entry_26(t, s);
    } else if i == 27 {
        lemma_entry_27(t, s);
    } else if i == 28 {
        lemma_entry_28(t, s);
    } else if i == 29 {
        lemma_entry_29(t, s);
    } else if i == 30 {
        lemma_entry_30(t, s);
    } else if i == 31 {
        lemma_entry_31(t, s);
    } else if i == 32 {
        lemma_entry_32(t, s);
    } else if i == 33 {
        lemma_entry_33(t, s);
    } else if i == 34 {
        lemma_entry_34(t, s);
    } else if i == 35 {
        lemma_entry_35(t, s);
    } else if i == 36 {
        lemma_entry_36(t, s);
    } else if i == 37 {
        lemma_entry_37(t, s);
    } else if i == 38 {
        lemma_entry_38(t, s);
    } else if i == 39 {
        lemma_entry_39(t, s);
    } else if i == 40 {
        lemma_entry_40(t, s);
    } else if i == 41 {
        lemma_entry_41(t, s);
    } else if i == 42 {
        lemma_entry_42(t, s);
    } else if i == 43 {
        lemma_entry_43(t, s);
    } else if i == 44 {
        lemma_entry_44(t, s);
    } else if i == 45 {
        lemma_entry_45(t, s);
    } else if i == 46 {
        lemma_entry_46(t, s);
    } else if i == 47 {
        lemma_entry_47(t, s);
    } else if i == 48 {
        lemma_entry_48(t, s);
    } else if i == 49 {
        lemma_entry_49(t, s);
    }
}

// ---------------------------------------------------------------------------
// The whole file
// ---------------------------------------------------------------------------

/// The defaults with the fields of the first `n` required keys taken from
/// `c`.
pub open spec fn prefix_state(c: StoredView, n: int) -> StoredView
    decreases n,
{
    if n <= 0 {
        default_stored()
    } else {
        assign_key(prefix_state(c, n - 1), c, n - 1)
    }
}

/// Applying the first `n` entries of a complete file to the defaults takes
/// the fields of the first `n` keys from the state written.
pub proof fn lemma_apply_prefix(s: StoredView, n: int)
    requires
        storable(s),
        0 <= n <= 50,
    ensures
        apply_entries(default_stored(), required_entries(state_values(s)), n) == Ok::<
            StoredView,
            Seq<char>,
        >(prefix_state(canonical_state(s), n)),
    decreases n,
{
    if n > 0 {
        lemma_apply_prefix(s, n - 1);
        lemma_entry_reads_back(prefix_state(canonical_state(s), n - 1), s, n - 1);
    }
}

proof fn lemma_prefix_policy(c: StoredView)
    ensures
        prefix_state(c, 11) == (StoredView {
            policy: c.policy,
            policy_configured: c.policy_configured,
            ..default_stored()
        }),
{
    reveal_with_fuel(prefix_state, 12);
}

proof fn lemma_prefix_resampler(c: StoredView)
    ensures
        prefix_state(c, 20) == (StoredView {
            policy: c.policy,
            policy_configured: c.policy_configured,
            bluetooth_hal_configured: c.bluetooth_hal_configured,
            bluetooth_hal: c.bluetooth_hal,
            resampler_configured: c.resampler_configured,
            resampler_preset: c.resampler_preset,
            resampler_bypass: c.resampler_bypass,
            resampler_cheat: c.resampler_cheat,
            resampler_stop_band: c.resampler_stop_band,
            resampler_half_length: c.resampler_half_length,
            resampler_percent: c.resampler_percent,
            ..default_stored()
        }),
{
    lemma_prefix_policy(c);
    reveal_with_fuel(prefix_state, 10);
}

proof fn lemma_prefix_fixed(c: StoredView)
    ensures
        prefix_state(c, 28) == (StoredView {
            jitter_values: default_stored().jitter_values,
            jitter_configured: default_stored().jitter_configured,
            ..c
        }),
{
    lemma_prefix_resampler(c);
    reveal_with_fuel(prefix_state, 9);
}

/// `d` with its first `k` flags taken from `c`.
pub open spec fn merged_flags(d: Seq<bool>, c: Seq<bool>, k: int) -> Seq<bool> {
    Seq::new(11, |i: int| if i < k { c[i] } else { d[i] })
}

proof fn lemma_prefix_flags(c: StoredView, k: int)
    requires
        0 <= k <= 11,
    ensures
        prefix_state(c, 28 + 2 * k) == (StoredView {
            jitter_values: merged_flags(default_stored().jitter_values, c.jitter_values, k),
            jitter_configured: merged_flags(default_stored().jitter_configured, c.jitter_configured, k),
            ..c
        }),
    decreases k,
{
    let d = default_stored();
    if k == 0 {
        lemma_prefix_fixed(c);
        assert(merged_flags(d.jitter_values, c.jitter_values, 0) =~= d.jitter_values);
        assert(merged_flags(d.jitter_configured, c.jitter_configured, 0) =~= d.jitter_configured);
    } else {
        lemma_prefix_flags(c, k - 1);
        assert(merged_flags(d.jitter_values, c.jitter_values, k - 1).update(k - 1, c.jitter_values[k - 1])
            =~= merged_flags(d.jitter_values, c.jitter_values, k));
        assert(merged_flags(d.jitter_configured, c.jitter_configured, k - 1).update(
            k - 1,
            c.jitter_configured[k - 1],
        ) =~= merged_flags(d.jitter_configured, c.jitter_configured, k));
        assert(prefix_state(c, 28 + 2 * k - 1) == assign_key(prefix_state(c, 28 + 2 * (k - 1)), c, 28 + 2 * (k - 1)));
    }
}

/// Applying every entry of a complete file to the defaults gives the state
/// written, its preset canonical.
pub proof fn lemma_apply_all(s: StoredView)
    requires
        storable(s),
    ensures
        apply_entries(default_stored(), required_entries(state_values(s)), 50) == Ok::<
            StoredView,
            Seq<char>,
        >(canonical_state(s)),
{
    let c = canonical_state(s);
    lemma_apply_prefix(s, 50);
    lemma_prefix_flags(c, 11);
    assert(merged_flags(default_stored().jitter_values, c.jitter_values, 11) =~= c.jitter_values);
    assert(merged_flags(default_stored().jitter_configured, c.jitter_configured, 11)
        =~= c.jitter_configured);
}

/// The version lines of a complete file: only its first line is `version`.
proof fn lemma_version_lines(values: Seq<Seq<char>>, n: int)
    requires
        values.len() == 50,
        0 <= n <= 50,
        forall|i: int| 0 <= i < 50 ==> split_once(#[trigger] entry_line(required_keys(), values, i), '=')
            == Some((required_keys()[i], values[i])),
        values[0] == "3"@,
    ensures
        version_upto(Seq::new(50, |i: int| entry_line(required_keys(), values, i)), n) == Ok::<
            Option<u32>,
            Seq<char>,
        >(if n == 0 { None } else { Some(3u32) }),
    decreases n,
{
    if n > 0 {
        lemma_version_lines(values, n - 1);
        let ls = Seq::new(50, |i: int| entry_line(required_keys(), values, i));
        assert(split_once(ls[n - 1], '=') == Some((required_keys()[n - 1], values[n - 1])));
        lemma_required_keys_distinct();
        reveal_strlit("version");
        assert(required_keys()[0] == "version"@);
        if n == 1 {
            reveal_strlit("3");
            assert("3"@ =~= decimal(3));
            lemma_parse_decimal(3);
        } else {
            assert(required_keys()[n - 1] != required_keys()[0]);
        }
    }
}

/// A state written by the controller reads back as that state, its
/// resampler preset in canonical form, and as a current file that needs no
/// rewrite.
pub proof fn lemma_state_round_trip(s: StoredView)
    requires
        storable(s),
    ensures
        parse_v3_spec(rendered_state(s)) == Ok::<StoredView, Seq<char>>(canonical_state(s)),
        load_outcome_spec(rendered_state(s)) == Ok::<OutcomeView, Seq<char>>(
            OutcomeView::Current(canonical_state(s)),
        ),
        parsed_state(rendered_state(s)) == canonical_state(s),
{
    let keys = required_keys();
    let values = state_values(s);
    assert(keys.len() == 50);
    assert(values.len() == 50);
    lemma_values_single_line(s);
    assert forall|i: int| 0 <= i < 50 implies single_line(#[trigger] keys[i]) && keys[i].len() > 0
        && lacks(keys[i], '=') by {
        lemma_required_key(i);
    }
    lemma_render_lines(keys, values, 0);
    let ls = Seq::new(50, |i: int| entry_line(keys, values, i));
    assert(lines(rendered_state(s)) =~= ls);
    lemma_entries_of_lines(keys, values, 50);
    assert(Seq::new(50, |i: int| (keys[i], values[i])) =~= required_entries(values));
    let es = required_entries(values);
    assert(entries_spec(rendered_state(s)) == Ok::<Seq<(Seq<char>, Seq<char>)>, Seq<char>>(es));
    lemma_no_key_error(values, 50);
    lemma_none_missing(values, 0);
    lemma_apply_all(s);
    assert(resampler_mode_spec(canonical_state(s)) == resampler_mode_spec(s));
    reveal_strlit("=");
    assert forall|i: int| 0 <= i < 50 implies split_once(#[trigger] entry_line(keys, values, i), '=')
        == Some((keys[i], values[i])) by {
        lemma_required_key(i);
        assert("="@ =~= seq!['=']);
        lemma_split_once_join(keys[i], '=', values[i]);
    }
    assert(values[0] == "3"@);
    lemma_version_lines(values, 50);
    assert(version_spec(rendered_state(s)) == Ok::<Option<u32>, Seq<char>>(Some(3u32)));
}

proof fn lemma_render_ends_with_newline(keys: Seq<Seq<char>>, values: Seq<Seq<char>>, i: int)
    requires
        0 <= i < keys.len(),
    ensures
        render_from(keys, values, i).len() > 0,
        render_from(keys, values, i).last() == '\n',
    decreases keys.len() - i,
{
    reveal_strlit("\n");
    let head = keys[i] + "="@ + values[i] + "\n"@;
    let tail = render_from(keys, values, i + 1);
    assert(render_from(keys, values, i) == head + tail);
    assert(head.last() == '\n');
    if i + 1 < keys.len() {
        lemma_render_ends_with_newline(keys, values, i + 1);
        assert((head + tail).last() == tail.last());
    } else {
        assert(head + tail =~= head);
    }
}

/// A written state whose text fields hold no line break is one `key=value`
/// line per required key, in the order of `required_keys()`, and nothing
/// else: `version=3` first, the resampler preset in canonical form, the
/// test template empty when there is none; the text ends with a newline.
pub proof fn lemma_rendered_layout(s: StoredView)
    requires
        text_fields_single_line(s),
    ensures
        lines(rendered_state(s)) == Seq::new(
            50,
            |i: int| required_keys()[i] + "="@ + state_values(s)[i],
        ),
        forall|i: int|
            0 <= i < 50 ==> split_once(#[trigger] lines(rendered_state(s))[i], '=') == Some(
                (required_keys()[i], state_values(s)[i]),
            ),
        rendered_state(s) == "version"@ + "="@ + "3"@ + "\n"@ + render_from(required_keys(), state_values(s), 1),
        required_keys()[10] == "test_template"@,
        state_values(s)[10] == template_text(s.policy.test_template),
        required_keys()[14] == "resampler_preset"@,
        state_values(s)[14] == canonical_preset(s.resampler_preset),
        rendered_state(s).last() == '\n',
{
    let keys = required_keys();
    let values = state_values(s);
    assert(keys.len() == 50);
    assert(values.len() == 50);
    lemma_values_single_line(s);
    assert forall|i: int| 0 <= i < 50 implies single_line(#[trigger] keys[i]) && keys[i].len() > 0
        && lacks(keys[i], '=') by {
        lemma_required_key(i);
    }
    lemma_render_lines(keys, values, 0);
    assert(lines(rendered_state(s)) =~= Seq::new(50, |i: int| entry_line(keys, values, i)));
    reveal_strlit("=");
    assert forall|i: int| 0 <= i < 50 implies split_once(#[trigger] lines(rendered_state(s))[i], '=')
        == Some((keys[i], values[i])) by {
        lemma_required_key(i);
        assert("="@ =~= seq!['=']);
        lemma_split_once_join(keys[i], '=', values[i]);
    }
    assert(keys[0] == crate::state::FIXED_STATE_KEYS[0]@);
    assert(keys[10] == crate::state::FIXED_STATE_KEYS[10]@);
    assert(keys[14] == crate::state::FIXED_STATE_KEYS[14]@);
    lemma_render_ends_with_newline(keys, values, 0);
}

/// The default state is one a version 3 file can hold.
pub proof fn lemma_default_storable()
    ensures
        storable(default_stored()),
{
    let d = default_stored();
    reveal_strlit("auto");
    reveal_strlit("32");
    reveal_strlit("offload");
    reveal_strlit("179-408-99");
    reveal_strlit("none");
    reveal_strlit("audio");
    reveal_strlit("*");
    reveal_strlit("medium");
    assert(POLICIES[0].0@ == d.policy.policy);
    assert(crate::catalog::BIT_DEPTHS[2].0@ == d.policy.bit_depth);
    assert(IO_SCHEDULERS@[0]@ == d.io_scheduler);
    assert(IO_TONES@[2]@ == d.io_tone);
    assert(preset_table(canonical_preset(d.resampler_preset)) is Some);
}

/// Every written state starts with its version line.
pub proof fn lemma_written_state_starts_with_version(s: StoredView)
    ensures
        rendered_state(s) == "version"@ + "="@ + "3"@ + "\n"@ + render_from(required_keys(), state_values(s), 1),
{
    lemma_required_key(0);
    assert(required_keys()[0] == crate::state::FIXED_STATE_KEYS[0]@);
}

/// A degraded state that was left at the defaults recovers through a
/// policy reset: the reset is applied, and the state then written starts
/// with its version line and reads back as a current state.
pub proof fn lemma_degraded_reset_recovers(snap: SnapshotView)
    requires
        snap.degraded is Some,
        snap.settings == default_stored(),
    ensures
        update_plan_spec(snap, DeltaView::PolicyReset) matches Ok((t, _)) && ({
            let written = rendered_state(t.settings);
            &&& written == "version"@ + "="@ + "3"@ + "\n"@ + render_from(
                required_keys(),
                state_values(t.settings),
                1,
            )
            &&& load_outcome_spec(written) == Ok::<OutcomeView, Seq<char>>(
                OutcomeView::Current(canonical_state(t.settings)),
            )
        }),
{
    lemma_default_storable();
    let t = delta_spec(snap.settings, DeltaView::PolicyReset).0;
    assert(t == default_stored());
    lemma_state_round_trip(t);
    lemma_written_state_starts_with_version(t);
}

} // verus!
