//! Reading a state file back: the strict version 3 reader, the migration of
//! version 1 and 2 files, the salvage of unversioned files, and the
//! decisions of loading and updating the store around the file's I/O.
use vstd::prelude::*;

use crate::domain::{ExtraAction, StoredSettings, StoredView};
use crate::domain::{default_stored, opt_view};
use crate::state::{
    apply_state_value, apply_value_spec, is_known_state_key, known_key, required_keys,
    required_state_keys, reset_resampler_spec, reset_resampler_to_canonical_default,
    resampler_mode_spec, validate_resampler_mode, delta_spec, DeltaView, StateDelta,
    RESAMPLER_CUSTOM_KEYS,
};
use crate::text::{
    concat2, concat3, decimal, eq_str, lines, owned, parse_u32, parse_u32_spec, split_lines,
    split_once, split_once_char, trim, trim_str, u64_to_string, views,
};

verus! {

broadcast use vstd::string::group_string_axioms;

// ---------------------------------------------------------------------------
// Entries
// ---------------------------------------------------------------------------

/// A `key=value` line of a state file.
pub struct StateEntry {
    pub line_number: usize,
    pub key: String,
    pub value: String,
}

/// A line as an entry: the text before and after its first `=`, or why it
/// is not one.
pub open spec fn line_entry(line: Seq<char>, number: nat) -> Result<
    (Seq<char>, Seq<char>),
    Seq<char>,
> {
    match split_once(line, '=') {
        None => Err("malformed state line "@ + decimal(number)),
        Some((k, v)) => if k.len() == 0 {
            Err("empty state key on line "@ + decimal(number))
        } else {
            Ok((k, v))
        },
    }
}

/// The entries of the first `n` lines, or the error of the first line that
/// is not an entry.
pub open spec fn entries_upto(ls: Seq<Seq<char>>, n: int) -> Result<
    Seq<(Seq<char>, Seq<char>)>,
    Seq<char>,
>
    decreases n,
{
    if n <= 0 {
        Ok(Seq::empty())
    } else {
        match entries_upto(ls, n - 1) {
            Err(e) => Err(e),
            Ok(es) => match line_entry(ls[n - 1], n as nat) {
                Ok(e) => Ok(es.push(e)),
                Err(m) => Err(m),
            },
        }
    }
}

/// The entries of a text whose every line is `key=value` with a key.
pub open spec fn entries_spec(content: Seq<char>) -> Result<Seq<(Seq<char>, Seq<char>)>, Seq<char>> {
    entries_upto(lines(content), lines(content).len() as int)
}

/// The keys of a list of entries.
pub open spec fn keys_of(es: Seq<(Seq<char>, Seq<char>)>) -> Seq<Seq<char>> {
    es.map_values(|e: (Seq<char>, Seq<char>)| e.0)
}

/// The entries a vector holds, numbered from 1 in order.
pub open spec fn entries_view(v: Seq<StateEntry>, es: Seq<(Seq<char>, Seq<char>)>) -> bool {
    &&& v.len() == es.len()
    &&& forall|i: int|
        0 <= i < v.len() ==> (#[trigger] v[i]).line_number == i + 1 && v[i].key@ == es[i].0
            && v[i].value@ == es[i].1
}

/// Splits a text into entries; every line must be `key=value` with a
/// non-empty key.
pub fn parse_entries_strict(content: &str) -> (r: Result<Vec<StateEntry>, String>)
    ensures
        match entries_spec(content@) {
            Ok(es) => r matches Ok(v) && entries_view(v@, es),
            Err(e) => r matches Err(m) && m@ == e,
        },
{
    let ls = split_lines(content);
    let mut out: Vec<StateEntry> = Vec::new();
    let mut i: usize = 0;
    while i < ls.len()
        invariant
            i <= ls@.len(),
            views(ls@) == lines(content@),
            out@.len() == i,
            entries_upto(lines(content@), i as int) matches Ok(es) && entries_view(out@, es),
        decreases ls@.len() - i,
    {
        let ghost es = entries_upto(lines(content@), i as int)->Ok_0;
        assert(ls@[i as int]@ == lines(content@)[i as int]);
        let number = i + 1;
        match split_once_char(ls[i].as_str(), '=') {
            None => {
                let digits = u64_to_string(number as u64);
                proof {
                    lemma_entries_upto_error(lines(content@), i as int + 1);
                }
                return Err(concat2("malformed state line ", digits.as_str()));
            },
            Some((key, value)) => {
                if key.as_str().is_empty() {
                    let digits = u64_to_string(number as u64);
                    proof {
                        lemma_entries_upto_error(lines(content@), i as int + 1);
                    }
                    return Err(concat2("empty state key on line ", digits.as_str()));
                }
                let ghost kv = (key@, value@);
                let ghost before = out@;
                out.push(StateEntry { line_number: number, key, value });
                assert forall|j: int| 0 <= j < out@.len() implies (#[trigger] out@[j]).line_number
                    == j + 1 && out@[j].key@ == es.push(kv)[j].0 && out@[j].value@ == es.push(
                    kv,
                )[j].1 by {
                    if j < before.len() {
                        assert(out@[j] == before[j]);
                    }
                }
            },
        }
        i += 1;
    }
    assert(lines(content@).len() == ls@.len());
    Ok(out)
}

/// An error among the first `n` lines stays the error of the whole text.
proof fn lemma_entries_upto_error(ls: Seq<Seq<char>>, n: int)
    requires
        0 <= n <= ls.len(),
        entries_upto(ls, n) is Err,
    ensures
        entries_upto(ls, ls.len() as int) == entries_upto(ls, n),
    decreases ls.len() - n,
{
    if n < ls.len() {
        lemma_entries_upto_error(ls, n + 1);
    }
}

// ---------------------------------------------------------------------------
// The version line
// ---------------------------------------------------------------------------

/// The version recorded by the first `n` lines: lines that are not
/// `key=value` are passed over, `version` may occur once and must be a
/// number.
pub open spec fn version_upto(ls: Seq<Seq<char>>, n: int) -> Result<Option<u32>, Seq<char>>
    decreases n,
{
    if n <= 0 {
        Ok(None)
    } else {
        match version_upto(ls, n - 1) {
            Err(e) => Err(e),
            Ok(found) => match split_once(ls[n - 1], '=') {
                None => Ok(found),
                Some((k, v)) => if k != "version"@ {
                    Ok(found)
                } else if found is Some {
                    Err("duplicate state key: version"@)
                } else {
                    match parse_u32_spec(v) {
                        None => Err("invalid state version: "@ + v),
                        Some(x) => Ok(Some(x)),
                    }
                },
            },
        }
    }
}

pub open spec fn version_spec(content: Seq<char>) -> Result<Option<u32>, Seq<char>> {
    version_upto(lines(content), lines(content).len() as int)
}

proof fn lemma_version_upto_error(ls: Seq<Seq<char>>, n: int)
    requires
        0 <= n <= ls.len(),
        version_upto(ls, n) is Err,
    ensures
        version_upto(ls, ls.len() as int) == version_upto(ls, n),
    decreases ls.len() - n,
{
    if n < ls.len() {
        lemma_version_upto_error(ls, n + 1);
    }
}

/// The version a state file declares, `None` for an unversioned file.
pub fn detect_state_version(content: &str) -> (r: Result<Option<u32>, String>)
    ensures
        match version_spec(content@) {
            Ok(v) => r == Ok::<Option<u32>, String>(v),
            Err(e) => r matches Err(m) && m@ == e,
        },
{
    let ls = split_lines(content);
    let mut version: Option<u32> = None;
    let mut i: usize = 0;
    while i < ls.len()
        invariant
            i <= ls@.len(),
            views(ls@) == lines(content@),
            version_upto(lines(content@), i as int) == Ok::<Option<u32>, Seq<char>>(version),
        decreases ls@.len() - i,
    {
        assert(ls@[i as int]@ == lines(content@)[i as int]);
        if let Some((key, value)) = split_once_char(ls[i].as_str(), '=') {
            if eq_str(key.as_str(), "version") {
                if version.is_some() {
                    proof {
                        lemma_version_upto_error(lines(content@), i as int + 1);
                    }
                    return Err(owned("duplicate state key: version"));
                }
                match parse_u32(value.as_str()) {
                    Some(x) => {
                        version = Some(x);
                    },
                    None => {
                        proof {
                            lemma_version_upto_error(lines(content@), i as int + 1);
                        }
                        return Err(concat2("invalid state version: ", value.as_str()));
                    },
                }
            }
        }
        i += 1;
    }
    assert(lines(content@).len() == ls@.len());
    Ok(version)
}

// ---------------------------------------------------------------------------
// The strict version 3 reader
// ---------------------------------------------------------------------------

/// The first key error among the first `n` entries: a key that a state file
/// cannot hold, or one that occurred before.
pub open spec fn key_error_upto(es: Seq<(Seq<char>, Seq<char>)>, n: int) -> Option<Seq<char>>
    decreases n,
{
    if n <= 0 {
        None
    } else {
        match key_error_upto(es, n - 1) {
            Some(e) => Some(e),
            None => {
                let k = es[n - 1].0;
                if !known_key(k) {
                    Some("unknown state key on line "@ + decimal(n as nat) + ": "@ + k)
                } else if keys_of(es).take(n - 1).contains(k) {
                    Some("duplicate state key: "@ + k)
                } else {
                    None
                }
            },
        }
    }
}

proof fn lemma_key_error_upto(es: Seq<(Seq<char>, Seq<char>)>, n: int)
    requires
        0 <= n <= es.len(),
        key_error_upto(es, n) is Some,
    ensures
        key_error_upto(es, es.len() as int) == key_error_upto(es, n),
    decreases es.len() - n,
{
    if n < es.len() {
        lemma_key_error_upto(es, n + 1);
    }
}

/// The first of `required_keys()` from position `j` on that `ks` lacks.
pub open spec fn missing_from(ks: Seq<Seq<char>>, j: int) -> Option<Seq<char>>
    decreases 50 - j,
{
    if j < 0 || j >= 50 {
        None
    } else if !ks.contains(required_keys()[j]) {
        Some(required_keys()[j])
    } else {
        missing_from(ks, j + 1)
    }
}

/// The state after applying the first `n` entries to `s` in order, or the
/// first entry's error.
pub open spec fn apply_entries(s: StoredView, es: Seq<(Seq<char>, Seq<char>)>, n: int) -> Result<
    StoredView,
    Seq<char>,
>
    decreases n,
{
    if n <= 0 {
        Ok(s)
    } else {
        match apply_entries(s, es, n - 1) {
            Err(e) => Err(e),
            Ok(t) => apply_value_spec(t, es[n - 1].0, es[n - 1].1),
        }
    }
}

proof fn lemma_apply_entries_error(s: StoredView, es: Seq<(Seq<char>, Seq<char>)>, n: int)
    requires
        0 <= n <= es.len(),
        apply_entries(s, es, n) is Err,
    ensures
        apply_entries(s, es, es.len() as int) == apply_entries(s, es, n),
    decreases es.len() - n,
{
    if n < es.len() {
        lemma_apply_entries_error(s, es, n + 1);
    }
}

/// What the strict reader makes of a version 3 file: every line an entry,
/// every key known and present once, every value valid, and the
/// resampler's percent within its mode.
pub open spec fn parse_v3_spec(content: Seq<char>) -> Result<StoredView, Seq<char>> {
    match entries_spec(content) {
        Err(e) => Err(e),
        Ok(es) => match key_error_upto(es, es.len() as int) {
            Some(e) => Err(e),
            None => match missing_from(keys_of(es), 0) {
                Some(k) => Err("missing state key: "@ + k),
                None => match apply_entries(crate::domain::default_stored(), es, es.len() as int) {
                    Err(e) => Err(e),
                    Ok(t) => match resampler_mode_spec(t) {
                        Ok(()) => Ok(t),
                        Err(e) => Err(e),
                    },
                },
            },
        },
    }
}

fn seen_before(entries: &Vec<StateEntry>, n: usize, key: &str) -> (r: bool)
    requires
        n <= entries@.len(),
    ensures
        r == exists|j: int| 0 <= j < n && (#[trigger] entries@[j]).key@ == key@,
{
    let mut j: usize = 0;
    while j < n
        invariant
            j <= n <= entries@.len(),
            forall|k: int| 0 <= k < j ==> (#[trigger] entries@[k]).key@ != key@,
        decreases n - j,
    {
        if eq_str(entries[j].key.as_str(), key) {
            return true;
        }
        j += 1;
    }
    false
}

/// The first key error of a list of entries.
fn check_keys(entries: &Vec<StateEntry>, Ghost(es): Ghost<Seq<(Seq<char>, Seq<char>)>>) -> (r:
    Option<String>)
    requires
        entries_view(entries@, es),
    ensures
        match key_error_upto(es, es.len() as int) {
            Some(e) => r matches Some(m) && m@ == e,
            None => r is None,
        },
{
    let mut i: usize = 0;
    while i < entries.len()
        invariant
            i <= entries@.len(),
            entries_view(entries@, es),
            key_error_upto(es, i as int) is None,
        decreases entries@.len() - i,
    {
        let key = entries[i].key.as_str();
        assert(entries@[i as int].key@ == es[i as int].0);
        if !is_known_state_key(key) {
            let digits = u64_to_string(entries[i].line_number as u64);
            proof {
                lemma_key_error_upto(es, i + 1);
            }
            let head = concat3("unknown state key on line ", digits.as_str(), ": ");
            return Some(concat2(head.as_str(), key));
        }
        let dup = seen_before(entries, i, key);
        proof {
            assert(keys_of(es).take(i as int).contains(es[i as int].0) == dup) by {
                if dup {
                    let j = choose|j: int| 0 <= j < i && (#[trigger] entries@[j]).key@ == key@;
                    assert(keys_of(es).take(i as int)[j] == es[i as int].0);
                }
                if keys_of(es).take(i as int).contains(es[i as int].0) {
                    let j = choose|j: int|
                        0 <= j < i && #[trigger] keys_of(es).take(i as int)[j] == es[i as int].0;
                    assert(entries@[j].key@ == key@);
                }
            }
        }
        if dup {
            proof {
                lemma_key_error_upto(es, i + 1);
            }
            return Some(concat2("duplicate state key: ", key));
        }
        i += 1;
    }
    None
}

proof fn lemma_missing_from(ks: Seq<Seq<char>>, j: int)
    requires
        0 <= j <= 50,
        forall|k: int| 0 <= k < j ==> ks.contains(#[trigger] required_keys()[k]),
    ensures
        missing_from(ks, 0) == missing_from(ks, j),
    decreases j,
{
    if j > 0 {
        lemma_missing_from(ks, j - 1);
    }
}

/// The first required key that no entry holds.
fn find_missing(entries: &Vec<StateEntry>, Ghost(es): Ghost<Seq<(Seq<char>, Seq<char>)>>) -> (r:
    Option<String>)
    requires
        entries_view(entries@, es),
    ensures
        match missing_from(keys_of(es), 0) {
            Some(k) => r matches Some(m) && m@ == k,
            None => r is None,
        },
{
    let required = required_state_keys();
    assert(required_keys().len() == 50);
    assert(views(required@).len() == required@.len());
    let mut j: usize = 0;
    while j < 50
        invariant
            j <= 50,
            required@.len() == 50,
            views(required@) == required_keys(),
            entries_view(entries@, es),
            forall|k: int| 0 <= k < j ==> keys_of(es).contains(#[trigger] required_keys()[k]),
        decreases 50 - j,
    {
        assert(required@[j as int]@ == required_keys()[j as int]);
        let present = seen_before(entries, entries.len(), required[j].as_str());
        proof {
            assert(keys_of(es).contains(required_keys()[j as int]) == present) by {
                if present {
                    let i = choose|i: int|
                        0 <= i < entries@.len() && (#[trigger] entries@[i]).key@ == required@[j as int]@;
                    assert(keys_of(es)[i] == required_keys()[j as int]);
                }
                if keys_of(es).contains(required_keys()[j as int]) {
                    let i = choose|i: int|
                        0 <= i < keys_of(es).len() && #[trigger] keys_of(es)[i] == required_keys()[j as int];
                    assert(entries@[i].key@ == required@[j as int]@);
                }
            }
        }
        if !present {
            proof {
                lemma_missing_from(keys_of(es), j as int);
            }
            return Some(required[j].clone());
        }
        j += 1;
    }
    proof {
        lemma_missing_from(keys_of(es), 50);
    }
    None
}

/// Applies the entries in order to `settings`; stops at the first error.
fn apply_all(
    settings: &mut StoredSettings,
    entries: &Vec<StateEntry>,
    Ghost(es): Ghost<Seq<(Seq<char>, Seq<char>)>>,
) -> (r: Result<(), String>)
    requires
        entries_view(entries@, es),
    ensures
        old(settings).jitter_complete() ==> final(settings).jitter_complete(),
        match apply_entries(old(settings)@, es, es.len() as int) {
            Ok(t) => r is Ok && final(settings)@ == t,
            Err(e) => r matches Err(m) && m@ == e,
        },
{
    let ghost start = settings@;
    let mut i: usize = 0;
    while i < entries.len()
        invariant
            i <= entries@.len(),
            entries_view(entries@, es),
            start == old(settings)@,
            old(settings).jitter_complete() ==> settings.jitter_complete(),
            apply_entries(start, es, i as int) == Ok::<StoredView, Seq<char>>(settings@),
        decreases entries@.len() - i,
    {
        assert(entries@[i as int].key@ == es[i as int].0);
        let r = apply_state_value(settings, entries[i].key.as_str(), entries[i].value.as_str());
        if let Err(e) = r {
            proof {
                lemma_apply_entries_error(start, es, i + 1);
            }
            return Err(e);
        }
        i += 1;
    }
    Ok(())
}

/// Reads a version 3 file strictly: any malformed line, unknown, repeated
/// or missing key, or invalid value is an error.
pub fn parse_v3_strict(content: &str) -> (r: Result<StoredSettings, String>)
    ensures
        r matches Ok(st) ==> st.jitter_complete(),
        match parse_v3_spec(content@) {
            Ok(t) => r matches Ok(s) && s@ == t,
            Err(e) => r matches Err(m) && m@ == e,
        },
{
    let entries = parse_entries_strict(content)?;
    let ghost es = entries_spec(content@)->Ok_0;
    if let Some(e) = check_keys(&entries, Ghost(es)) {
        return Err(e);
    }
    if let Some(k) = find_missing(&entries, Ghost(es)) {
        return Err(concat2("missing state key: ", k.as_str()));
    }
    let mut settings = StoredSettings::default();
    apply_all(&mut settings, &entries, Ghost(es))?;
    validate_resampler_mode(&settings)?;
    Ok(settings)
}

// ---------------------------------------------------------------------------
// Version 1 and 2 files
// ---------------------------------------------------------------------------

/// The state after the first `n` entries whose keys are known; an invalid
/// value of a known key is an error.
pub open spec fn apply_known_entries(s: StoredView, es: Seq<(Seq<char>, Seq<char>)>, n: int) -> Result<
    StoredView,
    Seq<char>,
>
    decreases n,
{
    if n <= 0 {
        Ok(s)
    } else {
        match apply_known_entries(s, es, n - 1) {
            Err(e) => Err(e),
            Ok(t) => if known_key(es[n - 1].0) {
                apply_value_spec(t, es[n - 1].0, es[n - 1].1)
            } else {
                Ok(t)
            },
        }
    }
}

proof fn lemma_apply_known_entries_error(s: StoredView, es: Seq<(Seq<char>, Seq<char>)>, n: int)
    requires
        0 <= n <= es.len(),
        apply_known_entries(s, es, n) is Err,
    ensures
        apply_known_entries(s, es, es.len() as int) == apply_known_entries(s, es, n),
    decreases es.len() - n,
{
    if n < es.len() {
        lemma_apply_known_entries_error(s, es, n + 1);
    }
}

/// Every key of the custom resampler group occurs in `keys`.
pub open spec fn custom_group_complete(keys: Seq<Seq<char>>) -> bool {
    forall|i: int| 0 <= i < 5 ==> keys.contains(#[trigger] RESAMPLER_CUSTOM_KEYS[i]@)
}

/// A migrated resampler: a custom group that is incomplete or out of range
/// falls back to the default preset, and a cutoff percent above 100 is
/// capped.
pub open spec fn normalize_legacy_spec(t: StoredView, observed: Seq<Seq<char>>) -> StoredView {
    if t.resampler_preset == "custom"@ && (!custom_group_complete(observed)
        || resampler_mode_spec(t) is Err) {
        reset_resampler_spec(t)
    } else if !t.resampler_cheat && t.resampler_percent > 100 {
        StoredView { resampler_percent: 100, ..t }
    } else {
        t
    }
}

/// What a version 1 or 2 file migrates to. Such a file that is not blank
/// and does not say otherwise recorded an applied policy.
pub open spec fn parse_legacy_spec(content: Seq<char>) -> Result<StoredView, Seq<char>> {
    match entries_spec(content) {
        Err(e) => Err(e),
        Ok(es) => {
            let base = StoredView {
                policy_configured: trim(content).len() > 0 && !keys_of(es).contains(
                    "policy_configured"@,
                ),
                ..default_stored()
            };
            match apply_known_entries(base, es, es.len() as int) {
                Err(e) => Err(e),
                Ok(t) => Ok(normalize_legacy_spec(t, keys_of(es))),
            }
        },
    }
}

/// Whether some entry has key `key`.
fn has_key(entries: &Vec<StateEntry>, key: &str, Ghost(es): Ghost<Seq<(Seq<char>, Seq<char>)>>) -> (r:
    bool)
    requires
        entries_view(entries@, es),
    ensures
        r == keys_of(es).contains(key@),
{
    let r = seen_before(entries, entries.len(), key);
    proof {
        if r {
            let i = choose|i: int| 0 <= i < entries@.len() && (#[trigger] entries@[i]).key@ == key@;
            assert(keys_of(es)[i] == key@);
        }
        if keys_of(es).contains(key@) {
            let i = choose|i: int| 0 <= i < keys_of(es).len() && #[trigger] keys_of(es)[i] == key@;
            assert(entries@[i].key@ == key@);
        }
    }
    r
}

fn custom_keys_in(entries: &Vec<StateEntry>, Ghost(es): Ghost<Seq<(Seq<char>, Seq<char>)>>) -> (r:
    bool)
    requires
        entries_view(entries@, es),
    ensures
        r == custom_group_complete(keys_of(es)),
{
    let group = RESAMPLER_CUSTOM_KEYS;
    let mut i: usize = 0;
    while i < 5
        invariant
            i <= 5,
            group == RESAMPLER_CUSTOM_KEYS,
            entries_view(entries@, es),
            forall|k: int| 0 <= k < i ==> keys_of(es).contains(#[trigger] RESAMPLER_CUSTOM_KEYS[k]@),
        decreases 5 - i,
    {
        if !has_key(entries, group[i], Ghost(es)) {
            return false;
        }
        i += 1;
    }
    true
}

/// Brings the resampler of a migrated file into range.
fn normalize_legacy_resampler(
    settings: &mut StoredSettings,
    entries: &Vec<StateEntry>,
    Ghost(es): Ghost<Seq<(Seq<char>, Seq<char>)>>,
)
    requires
        entries_view(entries@, es),
    ensures
        old(settings).jitter_complete() ==> final(settings).jitter_complete(),
        final(settings)@ == normalize_legacy_spec(old(settings)@, keys_of(es)),
{
    if eq_str(settings.resampler_preset.as_str(), "custom") && (!custom_keys_in(entries, Ghost(es))
        || validate_resampler_mode(settings).is_err()) {
        reset_resampler_to_canonical_default(settings);
    } else if !settings.resampler_cheat && settings.resampler_percent > 100 {
        settings.resampler_percent = 100;
    }
}

/// Migrates a version 1 or 2 file: known keys are read as in version 3,
/// others are passed over.
pub fn parse_versioned_legacy(content: &str) -> (r: Result<StoredSettings, String>)
    ensures
        r matches Ok(st) ==> st.jitter_complete(),
        match parse_legacy_spec(content@) {
            Ok(t) => r matches Ok(s) && s@ == t,
            Err(e) => r matches Err(m) && m@ == e,
        },
{
    let entries = parse_entries_strict(content)?;
    let ghost es = entries_spec(content@)->Ok_0;
    let mut settings = StoredSettings::default();
    let blank = trim_str(content).as_str().is_empty();
    settings.policy_configured = !blank && !has_key(&entries, "policy_configured", Ghost(es));
    let ghost start = settings@;
    assert(start == StoredView {
        policy_configured: trim(content@).len() > 0 && !keys_of(es).contains("policy_configured"@),
        ..default_stored()
    });
    let mut i: usize = 0;
    while i < entries.len()
        invariant
            i <= entries@.len(),
            entries_view(entries@, es),
            es == entries_spec(content@)->Ok_0,
            entries_spec(content@) is Ok,
            start == (StoredView {
                policy_configured: trim(content@).len() > 0 && !keys_of(es).contains(
                    "policy_configured"@,
                ),
                ..default_stored()
            }),
            apply_known_entries(start, es, i as int) == Ok::<StoredView, Seq<char>>(settings@),
            settings.jitter_complete(),
        decreases entries@.len() - i,
    {
        assert(entries@[i as int].key@ == es[i as int].0);
        if is_known_state_key(entries[i].key.as_str()) {
            let r = apply_state_value(
                &mut settings,
                entries[i].key.as_str(),
                entries[i].value.as_str(),
            );
            if let Err(e) = r {
                proof {
                    lemma_apply_known_entries_error(start, es, i + 1);
                }
                return Err(e);
            }
        }
        i += 1;
    }
    normalize_legacy_resampler(&mut settings, &entries, Ghost(es));
    Ok(settings)
}

// ---------------------------------------------------------------------------
// Unversioned files
// ---------------------------------------------------------------------------

/// The salvage of an unversioned file so far: the state, the keys whose
/// values were taken, the keys seen, and what was passed over.
pub struct SalvageView {
    pub settings: StoredView,
    pub accepted: Seq<Seq<char>>,
    pub seen: Seq<Seq<char>>,
    pub ignored: Seq<Seq<char>>,
}

/// What one line of an unversioned file adds to a salvage.
pub open spec fn salvage_line(st: SalvageView, line: Seq<char>, number: nat) -> SalvageView {
    match split_once(line, '=') {
        None => SalvageView { ignored: st.ignored.push("malformed line "@ + decimal(number)), ..st },
        Some((k, v)) => if k.len() == 0 {
            SalvageView { ignored: st.ignored.push("empty key on line "@ + decimal(number)), ..st }
        } else if !known_key(k) || k == "version"@ {
            SalvageView { ignored: st.ignored.push("unknown key "@ + k), ..st }
        } else {
            let marked = if st.seen.contains(k) {
                SalvageView { ignored: st.ignored.push("duplicate key "@ + k), ..st }
            } else {
                SalvageView { seen: st.seen.push(k), ..st }
            };
            match apply_value_spec(marked.settings, k, v) {
                Ok(t) => SalvageView { settings: t, accepted: marked.accepted.push(k), ..marked },
                Err(e) => SalvageView { ignored: marked.ignored.push(e), ..marked },
            }
        },
    }
}

/// The salvage of the first `n` lines, from the defaults.
pub open spec fn salvage_upto(ls: Seq<Seq<char>>, n: int) -> SalvageView
    decreases n,
{
    if n <= 0 {
        SalvageView {
            settings: default_stored(),
            accepted: Seq::empty(),
            seen: Seq::empty(),
            ignored: Seq::empty(),
        }
    } else {
        salvage_line(salvage_upto(ls, n - 1), ls[n - 1], n as nat)
    }
}

/// The salvaged state with its resampler brought into range, and what was
/// passed over.
pub open spec fn salvage_finish(st: SalvageView) -> (StoredView, Seq<Seq<char>>) {
    let t = st.settings;
    if t.resampler_preset == "custom"@ {
        if !custom_group_complete(st.accepted) || resampler_mode_spec(t) is Err {
            (
                reset_resampler_spec(t),
                st.ignored.push("incomplete or invalid custom resampler group"@),
            )
        } else {
            (t, st.ignored)
        }
    } else if resampler_mode_spec(t) is Err {
        (
            StoredView { resampler_percent: default_stored().resampler_percent, ..t },
            st.ignored.push("resampler percent does not match cutoff mode"@),
        )
    } else {
        (t, st.ignored)
    }
}

/// `parts` separated by `sep`.
pub open spec fn join_with(parts: Seq<Seq<char>>, sep: Seq<char>) -> Seq<char>
    decreases parts.len(),
{
    if parts.len() == 0 {
        Seq::empty()
    } else if parts.len() == 1 {
        parts[0]
    } else {
        join_with(parts.drop_last(), sep) + sep + parts.last()
    }
}

/// Why an unversioned file was rewritten: at most four of the entries it
/// passed over are named.
pub open spec fn salvage_reason(content: Seq<char>, ignored: Seq<Seq<char>>) -> Seq<char> {
    if content.len() == 0 {
        "empty unversioned state rebuilt from defaults"@
    } else if ignored.len() == 0 {
        "unversioned legacy state rebuilt as complete v3"@
    } else {
        "unversioned legacy state salvaged; ignored "@ + decimal(ignored.len()) + " entry(s): "@
            + join_with(ignored.take(if ignored.len() > 4 { 4 } else { ignored.len() as int }), "; "@)
            + if ignored.len() > 4 {
            "; and "@ + decimal((ignored.len() - 4) as nat) + " more"@
        } else {
            Seq::empty()
        }
    }
}

/// What an unversioned file is rebuilt as, and why.
pub open spec fn salvage_spec(content: Seq<char>) -> (StoredView, Seq<char>) {
    let ls = lines(content);
    let done = salvage_finish(salvage_upto(ls, ls.len() as int));
    (done.0, salvage_reason(content, done.1))
}

/// Whether `v` holds a string equal to `s`.
fn contains_string(v: &Vec<String>, s: &str) -> (r: bool)
    ensures
        r == views(v@).contains(s@),
{
    let mut i: usize = 0;
    while i < v.len()
        invariant
            i <= v@.len(),
            forall|j: int| 0 <= j < i ==> (#[trigger] v@[j])@ != s@,
        decreases v@.len() - i,
    {
        if eq_str(v[i].as_str(), s) {
            assert(views(v@)[i as int] == s@);
            return true;
        }
        i += 1;
    }
    proof {
        if views(v@).contains(s@) {
            let j = choose|j: int| 0 <= j < views(v@).len() && views(v@)[j] == s@;
            assert(v@[j]@ == s@);
        }
    }
    false
}

/// The first `n` strings of `parts`, separated by `sep`.
fn join_prefix(parts: &Vec<String>, n: usize, sep: &str) -> (r: String)
    requires
        n <= parts@.len(),
    ensures
        r@ == join_with(views(parts@).take(n as int), sep@),
{
    let mut out = String::new();
    let mut i: usize = 0;
    assert(views(parts@).take(0) =~= Seq::<Seq<char>>::empty());
    while i < n
        invariant
            i <= n <= parts@.len(),
            out@ == join_with(views(parts@).take(i as int), sep@),
        decreases n - i,
    {
        assert(views(parts@).take(i + 1).drop_last() =~= views(parts@).take(i as int));
        if i > 0 {
            crate::text::push_str(&mut out, sep);
        } else {
            assert(out@ == Seq::<char>::empty());
        }
        crate::text::push_str(&mut out, parts[i].as_str());
        proof {
            if i == 0 {
                assert(out@ =~= views(parts@).take(1)[0]);
            }
        }
        i += 1;
    }
    out
}

struct Salvage {
    settings: StoredSettings,
    accepted: Vec<String>,
    seen: Vec<String>,
    ignored: Vec<String>,
}

impl View for Salvage {
    type V = SalvageView;

    closed spec fn view(&self) -> SalvageView {
        SalvageView {
            settings: self.settings@,
            accepted: views(self.accepted@),
            seen: views(self.seen@),
            ignored: views(self.ignored@),
        }
    }
}

fn push_view(v: &mut Vec<String>, s: String)
    ensures
        views(final(v)@) == views(old(v)@).push(s@),
{
    v.push(s);
    assert(views(v@) =~= views(old(v)@).push(s@));
}

fn salvage_step(st: &mut Salvage, line: &str, number: usize)
    requires
        number > 0,
    ensures
        old(st).settings.jitter_complete() ==> final(st).settings.jitter_complete(),
        final(st)@ == salvage_line(old(st)@, line@, number as nat),
{
    let digits = u64_to_string(number as u64);
    match split_once_char(line, '=') {
        None => {
            push_view(&mut st.ignored, concat2("malformed line ", digits.as_str()));
        },
        Some((key, value)) => {
            if key.as_str().is_empty() {
                push_view(&mut st.ignored, concat2("empty key on line ", digits.as_str()));
            } else if !is_known_state_key(key.as_str()) || eq_str(key.as_str(), "version") {
                push_view(&mut st.ignored, concat2("unknown key ", key.as_str()));
            } else {
                if contains_string(&st.seen, key.as_str()) {
                    push_view(&mut st.ignored, concat2("duplicate key ", key.as_str()));
                } else {
                    push_view(&mut st.seen, key.clone());
                }
                match apply_state_value(&mut st.settings, key.as_str(), value.as_str()) {
                    Ok(()) => {
                        push_view(&mut st.accepted, key);
                    },
                    Err(e) => {
                        push_view(&mut st.ignored, e);
                    },
                }
            }
        },
    }
}

fn accepted_custom_group(accepted: &Vec<String>) -> (r: bool)
    ensures
        r == custom_group_complete(views(accepted@)),
{
    let group = RESAMPLER_CUSTOM_KEYS;
    let mut i: usize = 0;
    while i < 5
        invariant
            i <= 5,
            group == RESAMPLER_CUSTOM_KEYS,
            forall|k: int| 0 <= k < i ==> views(accepted@).contains(#[trigger] RESAMPLER_CUSTOM_KEYS[k]@),
        decreases 5 - i,
    {
        if !contains_string(accepted, group[i]) {
            return false;
        }
        i += 1;
    }
    true
}

/// Rebuilds an unversioned file: every valid value of a known key is taken,
/// everything else is passed over and named in the returned reason.
pub fn salvage_unversioned(content: &str) -> (r: (StoredSettings, String))
    ensures
        r.0.jitter_complete(),
        (r.0@, r.1@) == salvage_spec(content@),
{
    let ls = split_lines(content);
    let mut st = Salvage {
        settings: StoredSettings::default(),
        accepted: Vec::new(),
        seen: Vec::new(),
        ignored: Vec::new(),
    };
    proof {
        assert(views(st.accepted@) =~= Seq::<Seq<char>>::empty());
        assert(views(st.seen@) =~= Seq::<Seq<char>>::empty());
        assert(views(st.ignored@) =~= Seq::<Seq<char>>::empty());
    }
    let mut i: usize = 0;
    while i < ls.len()
        invariant
            i <= ls@.len(),
            views(ls@) == lines(content@),
            st.settings.jitter_complete(),
            st@ == salvage_upto(lines(content@), i as int),
        decreases ls@.len() - i,
    {
        assert(ls@[i as int]@ == lines(content@)[i as int]);
        salvage_step(&mut st, ls[i].as_str(), i + 1);
        i += 1;
    }
    assert(lines(content@).len() == ls@.len());
    let mut settings = st.settings;
    let mut ignored = st.ignored;
    if eq_str(settings.resampler_preset.as_str(), "custom") {
        if !accepted_custom_group(&st.accepted) || validate_resampler_mode(&settings).is_err() {
            reset_resampler_to_canonical_default(&mut settings);
            push_view(&mut ignored, owned("incomplete or invalid custom resampler group"));
        }
    } else if validate_resampler_mode(&settings).is_err() {
        settings.resampler_percent = 99;
        push_view(&mut ignored, owned("resampler percent does not match cutoff mode"));
    }
    let reason = if content.is_empty() {
        owned("empty unversioned state rebuilt from defaults")
    } else if ignored.len() == 0 {
        owned("unversioned legacy state rebuilt as complete v3")
    } else {
        let count = u64_to_string(ignored.len() as u64);
        let shown_count: usize = if ignored.len() > 4 {
            4
        } else {
            ignored.len()
        };
        let shown = join_prefix(&ignored, shown_count, "; ");
        let head = concat3("unversioned legacy state salvaged; ignored ", count.as_str(), " entry(s): ");
        let mut reason = concat2(head.as_str(), shown.as_str());
        if ignored.len() > 4 {
            let more = u64_to_string((ignored.len() - 4) as u64);
            let tail = concat3("; and ", more.as_str(), " more");
            crate::text::push_str(&mut reason, tail.as_str());
        }
        reason
    };
    (settings, reason)
}

// ---------------------------------------------------------------------------
// Any state file
// ---------------------------------------------------------------------------

/// What reading a state file yields: the state as it is, or a state to
/// write back in version 3 together with where it came from.
pub enum LoadOutcome {
    Current(StoredSettings),
    Rewrite {
        settings: StoredSettings,
        migrated_from: Option<u32>,
        recovery_reason: Option<String>,
    },
}

pub enum OutcomeView {
    Current(StoredView),
    Rewrite {
        settings: StoredView,
        migrated_from: Option<u32>,
        recovery_reason: Option<Seq<char>>,
    },
}

impl LoadOutcome {
    /// The settings read hold one entry per jitter feature in each flag
    /// vector.
    pub open spec fn settings_complete(&self) -> bool {
        match self {
            LoadOutcome::Current(s) => s.jitter_complete(),
            LoadOutcome::Rewrite { settings, .. } => settings.jitter_complete(),
        }
    }
}

impl View for LoadOutcome {
    type V = OutcomeView;

    open spec fn view(&self) -> OutcomeView {
        match self {
            LoadOutcome::Current(s) => OutcomeView::Current(s@),
            LoadOutcome::Rewrite { settings, migrated_from, recovery_reason } =>
                OutcomeView::Rewrite {
                settings: settings@,
                migrated_from: *migrated_from,
                recovery_reason: opt_view(*recovery_reason),
            },
        }
    }
}

/// What a state file of any version is read as.
pub open spec fn load_outcome_spec(content: Seq<char>) -> Result<OutcomeView, Seq<char>> {
    match version_spec(content) {
        Err(e) => Err(e),
        Ok(None) => {
            let (t, reason) = salvage_spec(content);
            Ok(OutcomeView::Rewrite { settings: t, migrated_from: None, recovery_reason: Some(reason) })
        },
        Ok(Some(v)) => if v == 3 {
            match parse_v3_spec(content) {
                Ok(t) => Ok(OutcomeView::Current(t)),
                Err(e) => Err(e),
            }
        } else if v == 1 || v == 2 {
            match parse_legacy_spec(content) {
                Ok(t) => Ok(
                    OutcomeView::Rewrite { settings: t, migrated_from: Some(v), recovery_reason: None },
                ),
                Err(e) => Err(e),
            }
        } else {
            Err("unsupported state version: "@ + decimal(v as nat))
        },
    }
}

/// Line `i` of a state file is a `version=...` line.
pub open spec fn version_line(ls: Seq<Seq<char>>, i: int) -> bool {
    split_once(ls[i], '=') matches Some((k, _)) && k == "version"@
}

/// The value written on line `i`, read as a number.
pub open spec fn line_number(ls: Seq<Seq<char>>, i: int) -> Option<u32> {
    match split_once(ls[i], '=') {
        Some((_, v)) => parse_u32_spec(v),
        None => None,
    }
}

proof fn lemma_no_version_upto(ls: Seq<Seq<char>>, n: int)
    requires
        0 <= n <= ls.len(),
        forall|k: int| 0 <= k < n ==> !#[trigger] version_line(ls, k),
    ensures
        version_upto(ls, n) == Ok::<Option<u32>, Seq<char>>(None),
    decreases n,
{
    if n > 0 {
        lemma_no_version_upto(ls, n - 1);
        assert(!version_line(ls, n - 1));
    }
}

proof fn lemma_one_version_upto(ls: Seq<Seq<char>>, i: int, n: int)
    requires
        0 <= i < n <= ls.len(),
        version_line(ls, i),
        line_number(ls, i) is Some,
        forall|k: int| 0 <= k < n && k != i ==> !#[trigger] version_line(ls, k),
    ensures
        version_upto(ls, n) == Ok::<Option<u32>, Seq<char>>(line_number(ls, i)),
    decreases n,
{
    if n == i + 1 {
        lemma_no_version_upto(ls, i);
    } else {
        lemma_one_version_upto(ls, i, n - 1);
        assert(!version_line(ls, n - 1));
    }
}

/// A state file without a version line is rebuilt as an unversioned state
/// and written back, with the reason.
pub proof fn lemma_unversioned_rewritten(content: Seq<char>)
    requires
        forall|k: int| 0 <= k < lines(content).len() ==> !#[trigger] version_line(lines(content), k),
    ensures
        load_outcome_spec(content) == Ok::<OutcomeView, Seq<char>>(
            OutcomeView::Rewrite {
                settings: salvage_spec(content).0,
                migrated_from: None,
                recovery_reason: Some(salvage_spec(content).1),
            },
        ),
{
    lemma_no_version_upto(lines(content), lines(content).len() as int);
}

/// A state file with one version line holding `v`: version 3 is read as
/// current, versions 1 and 2 are migrated and written back, any other
/// version is refused.
pub proof fn lemma_single_version_outcome(content: Seq<char>, i: int)
    requires
        0 <= i < lines(content).len(),
        version_line(lines(content), i),
        line_number(lines(content), i) is Some,
        forall|k: int| 0 <= k < lines(content).len() && k != i ==> !#[trigger] version_line(lines(content), k),
    ensures
        ({
            let v = line_number(lines(content), i)->Some_0;
            &&& v == 3 ==> (load_outcome_spec(content) is Err || load_outcome_spec(content) matches Ok(
                OutcomeView::Current(_),
            ))
            &&& (v == 1 || v == 2) ==> (load_outcome_spec(content) is Err || (load_outcome_spec(content)
                matches Ok(OutcomeView::Rewrite { migrated_from, recovery_reason, .. })
                && migrated_from == Some(v) && recovery_reason is None))
            &&& !(v == 1 || v == 2 || v == 3) ==> load_outcome_spec(content) == Err::<OutcomeView, Seq<char>>(
                "unsupported state version: "@ + decimal(v as nat),
            )
        }),
{
    lemma_one_version_upto(lines(content), i, lines(content).len() as int);
}

/// A state file with a second version line is refused once the first one
/// holds a number.
pub proof fn lemma_repeated_version_refused(content: Seq<char>, i: int, j: int)
    requires
        0 <= i < j < lines(content).len(),
        version_line(lines(content), i),
        version_line(lines(content), j),
        line_number(lines(content), i) is Some,
        forall|k: int| 0 <= k < j && k != i ==> !#[trigger] version_line(lines(content), k),
    ensures
        load_outcome_spec(content) == Err::<OutcomeView, Seq<char>>("duplicate state key: version"@),
{
    let ls = lines(content);
    lemma_one_version_upto(ls, i, j);
    assert(version_upto(ls, j + 1) == Err::<Option<u32>, Seq<char>>("duplicate state key: version"@));
    lemma_version_upto_error(ls, j + 1);
}

/// Reads a state file: version 3 strictly, versions 1 and 2 and unversioned
/// files as states to write back.
pub fn parse_stored_settings_checked(content: &str) -> (r: Result<LoadOutcome, String>)
    ensures
        r matches Ok(o) ==> o.settings_complete(),
        match load_outcome_spec(content@) {
            Ok(o) => r matches Ok(x) && x@ == o,
            Err(e) => r matches Err(m) && m@ == e,
        },
{
    match detect_state_version(content)? {
        None => {
            let (settings, reason) = salvage_unversioned(content);
            Ok(LoadOutcome::Rewrite { settings, migrated_from: None, recovery_reason: Some(reason) })
        },
        Some(version) => {
            if version == 3 {
                let settings = parse_v3_strict(content)?;
                Ok(LoadOutcome::Current(settings))
            } else if version == 1 || version == 2 {
                let settings = parse_versioned_legacy(content)?;
                Ok(
                    LoadOutcome::Rewrite {
                        settings,
                        migrated_from: Some(version),
                        recovery_reason: None,
                    },
                )
            } else {
                let digits = u64_to_string(version as u64);
                Err(concat2("unsupported state version: ", digits.as_str()))
            }
        },
    }
}

/// The state a file holds, the defaults for one that cannot be read.
pub open spec fn parsed_state(content: Seq<char>) -> StoredView {
    match load_outcome_spec(content) {
        Ok(OutcomeView::Current(t)) => t,
        Ok(OutcomeView::Rewrite { settings, .. }) => settings,
        Err(_) => default_stored(),
    }
}

/// The state a file holds; the defaults for a file that cannot be read.
pub fn parse_stored_settings(content: &str) -> (r: StoredSettings)
    ensures
        r.jitter_complete(),
        r@ == parsed_state(content@),
{
    match parse_stored_settings_checked(content) {
        Ok(LoadOutcome::Current(settings)) => settings,
        Ok(LoadOutcome::Rewrite { settings, .. }) => settings,
        Err(_) => StoredSettings::default(),
    }
}

// ---------------------------------------------------------------------------
// Loading and updating the store
// ---------------------------------------------------------------------------

/// Whether the state could be read.
#[derive(Clone, Debug, PartialEq, Eq)]
pub enum StateHealth {
    Healthy,
    Degraded(String),
}

/// The reason a state is degraded, `None` when it is healthy.
pub open spec fn degraded_reason(h: StateHealth) -> Option<Seq<char>> {
    match h {
        StateHealth::Healthy => None,
        StateHealth::Degraded(reason) => Some(reason@),
    }
}

impl StateHealth {
    pub fn is_degraded(&self) -> (r: bool)
        ensures
            r == (degraded_reason(*self) is Some),
    {
        matches!(self, StateHealth::Degraded(_))
    }

    pub fn reason(&self) -> (r: Option<&str>)
        ensures
            match degraded_reason(*self) {
                Some(x) => r matches Some(m) && m@ == x,
                None => r is None,
            },
    {
        match self {
            StateHealth::Healthy => None,
            StateHealth::Degraded(reason) => Some(reason.as_str()),
        }
    }
}

/// The state as loaded, with its health and where it came from.
pub struct StateSnapshot {
    pub settings: StoredSettings,
    pub health: StateHealth,
    pub migrated_from: Option<u32>,
    pub recovery_reason: Option<String>,
}

pub struct SnapshotView {
    pub settings: StoredView,
    pub degraded: Option<Seq<char>>,
    pub migrated_from: Option<u32>,
    pub recovery_reason: Option<Seq<char>>,
}

impl View for StateSnapshot {
    type V = SnapshotView;

    open spec fn view(&self) -> SnapshotView {
        SnapshotView {
            settings: self.settings@,
            degraded: degraded_reason(self.health),
            migrated_from: self.migrated_from,
            recovery_reason: opt_view(self.recovery_reason),
        }
    }
}

/// What reading the state file gave.
pub enum StateRead {
    Missing,
    Unreadable(String),
    Content(String),
}

/// The next step of a load: done, or write back a state first.
pub enum LoadPlan {
    Ready(StateSnapshot),
    Rewrite { settings: StoredSettings, migrated_from: Option<u32>, recovery_reason: Option<String> },
}

/// A snapshot of defaults: healthy, or degraded for `reason`.
pub open spec fn defaults_snapshot(reason: Option<Seq<char>>) -> SnapshotView {
    SnapshotView {
        settings: default_stored(),
        degraded: reason,
        migrated_from: None,
        recovery_reason: None,
    }
}

/// What a load decides on what was read: a missing file is a fresh healthy
/// state, an unreadable or invalid one leaves the defaults in a degraded
/// state, a current file is taken as it is and any other is written back.
pub open spec fn load_plan_spec(read: StateRead) -> Result<SnapshotView, OutcomeView> {
    match read {
        StateRead::Missing => Ok(defaults_snapshot(None)),
        StateRead::Unreadable(e) => Ok(defaults_snapshot(Some("cannot read state: "@ + e@))),
        StateRead::Content(c) => match load_outcome_spec(c@) {
            Ok(OutcomeView::Current(t)) => Ok(
                SnapshotView { settings: t, degraded: None, migrated_from: None, recovery_reason: None },
            ),
            Ok(o) => Err(o),
            Err(reason) => Ok(defaults_snapshot(Some(reason))),
        },
    }
}

fn defaults_with(reason: Option<String>) -> (r: StateSnapshot)
    ensures
        r@ == defaults_snapshot(opt_view(reason)),
{
    StateSnapshot {
        settings: StoredSettings::default(),
        health: match reason {
            Some(x) => StateHealth::Degraded(x),
            None => StateHealth::Healthy,
        },
        migrated_from: None,
        recovery_reason: None,
    }
}

/// Decides a load from what reading the state file gave.
pub fn plan_load(read: StateRead) -> (r: LoadPlan)
    ensures
        match load_plan_spec(read) {
            Ok(snap) => r matches LoadPlan::Ready(x) && x@ == snap,
            Err(o) => r matches LoadPlan::Rewrite { settings, migrated_from, recovery_reason }
                && o == (OutcomeView::Rewrite {
                settings: settings@,
                migrated_from,
                recovery_reason: opt_view(recovery_reason),
            }),
        },
{
    match read {
        StateRead::Missing => LoadPlan::Ready(defaults_with(None)),
        StateRead::Unreadable(e) => LoadPlan::Ready(
            defaults_with(Some(concat2("cannot read state: ", e.as_str()))),
        ),
        StateRead::Content(c) => match parse_stored_settings_checked(c.as_str()) {
            Ok(LoadOutcome::Current(settings)) => LoadPlan::Ready(
                StateSnapshot {
                    settings,
                    health: StateHealth::Healthy,
                    migrated_from: None,
                    recovery_reason: None,
                },
            ),
            Ok(LoadOutcome::Rewrite { settings, migrated_from, recovery_reason }) => LoadPlan::Rewrite {
                settings,
                migrated_from,
                recovery_reason,
            },
            Err(reason) => LoadPlan::Ready(defaults_with(Some(reason))),
        },
    }
}

/// Ends a load that wrote a state back: the written state when the write
/// succeeded, else the defaults in a degraded state.
pub fn finish_rewrite(
    settings: StoredSettings,
    migrated_from: Option<u32>,
    recovery_reason: Option<String>,
    saved: Result<(), String>,
) -> (r: StateSnapshot)
    ensures
        match saved {
            Ok(()) => r@ == (SnapshotView {
                settings: settings@,
                degraded: None,
                migrated_from,
                recovery_reason: opt_view(recovery_reason),
            }),
            Err(e) => r@ == defaults_snapshot(Some("state rewrite failed: "@ + e@)),
        },
{
    match saved {
        Ok(()) => StateSnapshot { settings, health: StateHealth::Healthy, migrated_from, recovery_reason },
        Err(e) => defaults_with(Some(concat2("state rewrite failed: ", e.as_str()))),
    }
}

/// What an update decides on a loaded snapshot: a degraded state refuses
/// every change but a policy reset; otherwise the change is applied, and
/// the flag says whether the state must be saved.
pub open spec fn update_plan_spec(snap: SnapshotView, d: DeltaView) -> Result<
    (SnapshotView, bool),
    Seq<char>,
> {
    if snap.degraded is Some && !(d is PolicyReset) {
        Err("state is degraded: "@ + snap.degraded->0)
    } else {
        let (t, changed) = delta_spec(snap.settings, d);
        Ok((SnapshotView { settings: t, ..snap }, changed))
    }
}

/// A degraded state refuses every change but a policy reset, with an error
/// that names why it is degraded; a policy reset is applied to it. A
/// healthy state refuses no change.
pub proof fn lemma_degraded_refuses_all_but_reset(snap: SnapshotView, d: DeltaView)
    ensures
        snap.degraded is Some && !(d is PolicyReset) ==> update_plan_spec(snap, d) == Err::<
            (SnapshotView, bool),
            Seq<char>,
        >("state is degraded: "@ + snap.degraded->0),
        snap.degraded is None || d is PolicyReset ==> (update_plan_spec(snap, d) matches Ok((t, changed))
            && (t.settings, changed) == delta_spec(snap.settings, d)),
{
}

/// Applies a change to a loaded snapshot, unless its state is degraded.
pub fn plan_update(snapshot: StateSnapshot, delta: &StateDelta) -> (r: Result<
    (StateSnapshot, bool),
    String,
>)
    ensures
        match update_plan_spec(snapshot@, delta@) {
            Ok((snap, changed)) => r matches Ok((x, c)) && x@ == snap && c == changed,
            Err(e) => r matches Err(m) && m@ == e,
        },
{
    let mut snapshot = snapshot;
    if let Some(reason) = snapshot.health.reason() {
        if !matches!(delta, StateDelta::PolicyReset) {
            return Err(concat2("state is degraded: ", reason));
        }
    }
    let changed = delta.apply(&mut snapshot.settings);
    Ok((snapshot, changed))
}

/// Ends an update whose state was saved: the saved state is healthy and
/// current; a failed save is the update's error.
pub fn finish_update(snapshot: StateSnapshot, saved: Result<(), String>) -> (r: Result<
    StateSnapshot,
    String,
>)
    ensures
        match saved {
            Ok(()) => r matches Ok(x) && x@ == (SnapshotView {
                settings: snapshot@.settings,
                degraded: None,
                migrated_from: None,
                recovery_reason: None,
            }),
            Err(e) => r matches Err(m) && m@ == e@,
        },
{
    match saved {
        Ok(()) => Ok(
            StateSnapshot {
                settings: snapshot.settings,
                health: StateHealth::Healthy,
                migrated_from: None,
                recovery_reason: None,
            },
        ),
        Err(e) => Err(e),
    }
}

} // verus!
