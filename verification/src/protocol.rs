//! The controller's machine-readable contract: a JSON document that lists
//! every option the WebUI may offer, written by a small dependency-free
//! JSON writer whose every string goes through `json_quote`.
use vstd::prelude::*;

use crate::capabilities::DeviceCapabilities;
use crate::catalog::{
    BIT_DEPTHS, BLUETOOTH_HAL_OPTIONS, DIAGNOSTIC_TYPES, DOCUMENTED_RATES, IO_SCHEDULERS,
    IO_TONES, JITTER_FEATURES, POLICIES, RESAMPLER_BYPASSES, RESAMPLER_MODES,
};
use crate::text::{concat3, decimal, eq_str, push_char, push_decimal, push_str, u32_to_string};

verus! {

broadcast use vstd::string::group_string_axioms;

/// The controller's own version, as the schema reports it.
pub const CONTROLLER_VERSION: &'static str = "0.1.0";

// ---------------------------------------------------------------------------
// JSON strings
// ---------------------------------------------------------------------------

/// A control character (`char::is_control`: the C0 and C1 ranges).
pub open spec fn is_control(c: char) -> bool {
    (c as u32) < 0x20 || (0x7f <= (c as u32) && (c as u32) < 0xa0)
}

/// The lower-case hexadecimal digit for `d < 16`.
pub open spec fn hex_digit(d: nat) -> char {
    if d < 10 {
        (d + 48) as char
    } else {
        (d + 87) as char
    }
}

/// How one character is written inside a JSON string.
pub open spec fn escape_char(c: char) -> Seq<char> {
    if c == '"' {
        seq!['\\', '"']
    } else if c == '\\' {
        seq!['\\', '\\']
    } else if c == '\n' {
        seq!['\\', 'n']
    } else if c == '\r' {
        seq!['\\', 'r']
    } else if c == '\t' {
        seq!['\\', 't']
    } else if is_control(c) {
        seq!['\\', 'u', '0', '0', hex_digit((c as nat) / 16), hex_digit((c as nat) % 16)]
    } else {
        seq![c]
    }
}

/// The escaped body of a JSON string.
pub open spec fn escape(s: Seq<char>) -> Seq<char>
    decreases s.len(),
{
    if s.len() == 0 {
        Seq::empty()
    } else {
        escape(s.drop_last()) + escape_char(s.last())
    }
}

/// A JSON string literal holding `s`.
pub open spec fn quoted(s: Seq<char>) -> Seq<char> {
    seq!['"'] + escape(s) + seq!['"']
}

/// The value of a hexadecimal digit of either case.
pub open spec fn hex_value(c: char) -> Option<nat> {
    if '0' <= c <= '9' {
        Some((c as nat - 48) as nat)
    } else if 'a' <= c <= 'f' {
        Some((c as nat - 87) as nat)
    } else if 'A' <= c <= 'F' {
        Some((c as nat - 55) as nat)
    } else {
        None
    }
}

/// The character a `\uXXXX` escape names, outside the surrogate range.
pub open spec fn unicode_escape(s: Seq<char>) -> Option<char> {
    match (hex_value(s[0]), hex_value(s[1]), hex_value(s[2]), hex_value(s[3])) {
        (Some(a), Some(b), Some(c), Some(d)) => {
            let n = ((a * 16 + b) * 16 + c) * 16 + d;
            if 0xd800 <= n <= 0xdfff {
                None
            } else {
                Some(n as char)
            }
        },
        _ => None,
    }
}

/// The character a two-character escape `\x` names.
pub open spec fn short_escape(x: char) -> Option<char> {
    if x == '"' {
        Some('"')
    } else if x == '\\' {
        Some('\\')
    } else if x == '/' {
        Some('/')
    } else if x == 'b' {
        Some('\u{8}')
    } else if x == 'f' {
        Some('\u{c}')
    } else if x == 'n' {
        Some('\n')
    } else if x == 'r' {
        Some('\r')
    } else if x == 't' {
        Some('\t')
    } else {
        None
    }
}

/// The text the body of a JSON string stands for (RFC 8259, without
/// surrogate pairs); `None` when the body is not well formed.
pub open spec fn unescape(s: Seq<char>) -> Option<Seq<char>>
    decreases s.len(),
{
    if s.len() == 0 {
        Some(Seq::empty())
    } else if s[0] == '\\' {
        if s.len() >= 2 && short_escape(s[1]) is Some {
            match unescape(s.skip(2)) {
                Some(rest) => Some(seq![short_escape(s[1])->0] + rest),
                None => None,
            }
        } else if s.len() >= 6 && s[1] == 'u' && unicode_escape(s.subrange(2, 6)) is Some {
            match unescape(s.skip(6)) {
                Some(rest) => Some(seq![unicode_escape(s.subrange(2, 6))->0] + rest),
                None => None,
            }
        } else {
            None
        }
    } else if s[0] == '"' || (s[0] as u32) < 0x20 {
        None
    } else {
        match unescape(s.skip(1)) {
            Some(rest) => Some(seq![s[0]] + rest),
            None => None,
        }
    }
}

/// The text a JSON string literal stands for.
pub open spec fn json_string_value(lit: Seq<char>) -> Option<Seq<char>> {
    if lit.len() >= 2 && lit[0] == '"' && lit.last() == '"' {
        unescape(lit.subrange(1, lit.len() - 1))
    } else {
        None
    }
}

proof fn lemma_hex_digit_plain(d: nat)
    requires
        d < 16,
    ensures
        !is_control(hex_digit(d)),
{
    if d < 10 {
        assert(((d + 48) as char) as u32 == d + 48);
    } else {
        assert(((d + 87) as char) as u32 == d + 87);
    }
}

proof fn lemma_escape_char_plain(c: char)
    ensures
        forall|j: int| 0 <= j < escape_char(c).len() ==> !is_control(#[trigger] escape_char(c)[j]),
{
    if c != '"' && c != '\\' && c != '\n' && c != '\r' && c != '\t' && is_control(c) {
        lemma_hex_digit_plain((c as nat) / 16);
        lemma_hex_digit_plain((c as nat) % 16);
    }
}

proof fn lemma_escape_plain(s: Seq<char>)
    ensures
        forall|j: int| 0 <= j < escape(s).len() ==> !is_control(#[trigger] escape(s)[j]),
    decreases s.len(),
{
    if s.len() > 0 {
        lemma_escape_plain(s.drop_last());
        lemma_escape_char_plain(s.last());
        let a = escape(s.drop_last());
        let b = escape_char(s.last());
        assert forall|j: int| 0 <= j < escape(s).len() implies !is_control(#[trigger] escape(s)[j]) by {
            if j < a.len() {
                assert(escape(s)[j] == a[j]);
            } else {
                assert(escape(s)[j] == b[j - a.len()]);
            }
        }
    }
}

/// What `json_quote` writes starts and ends with a double quote and holds
/// no control character.
pub proof fn lemma_quoted_plain(s: Seq<char>)
    ensures
        quoted(s).len() >= 2,
        quoted(s)[0] == '"',
        quoted(s).last() == '"',
        forall|i: int| 0 <= i < quoted(s).len() ==> !is_control(#[trigger] quoted(s)[i]),
{
    lemma_escape_plain(s);
    let q = quoted(s);
    let e = escape(s);
    assert forall|i: int| 0 <= i < q.len() implies !is_control(#[trigger] q[i]) by {
        if i == 0 || i == q.len() - 1 {
        } else {
            assert(q[i] == e[i - 1]);
        }
    }
}

proof fn lemma_escape_front(s: Seq<char>)
    requires
        s.len() > 0,
    ensures
        escape(s) == escape_char(s[0]) + escape(s.skip(1)),
    decreases s.len(),
{
    if s.len() == 1 {
        assert(s.skip(1) =~= Seq::<char>::empty());
        assert(s.drop_last() =~= Seq::<char>::empty());
        assert(escape_char(s[0]) + Seq::<char>::empty() =~= escape_char(s[0]));
    } else {
        lemma_escape_front(s.drop_last());
        assert(s.drop_last().skip(1) =~= s.skip(1).drop_last());
        assert(s.skip(1).last() == s.last());
        assert(escape(s) =~= escape_char(s[0]) + escape(s.skip(1)));
    }
}

proof fn lemma_hex_round_trip(d: nat)
    requires
        d < 16,
    ensures
        hex_value(hex_digit(d)) == Some(d),
{
}

proof fn lemma_unescape_char(c: char, rest: Seq<char>)
    ensures
        unescape(escape_char(c) + rest) == match unescape(rest) {
            Some(r) => Some(seq![c] + r),
            None => None::<Seq<char>>,
        },
{
    let e = escape_char(c);
    let s = e + rest;
    if c == '"' || c == '\\' || c == '\n' || c == '\r' || c == '\t' {
        assert(s.skip(2) =~= rest);
    } else if is_control(c) {
        let n = c as nat;
        lemma_hex_round_trip(n / 16);
        lemma_hex_round_trip(n % 16);
        assert(s.subrange(2, 6) =~= seq!['0', '0', hex_digit(n / 16), hex_digit(n % 16)]);
        assert(hex_value('0') == Some(0nat));
        assert(((0nat * 16 + 0) * 16 + n / 16) * 16 + n % 16 == n);
        assert(n as char == c);
        assert(s.skip(6) =~= rest);
    } else {
        assert(s.skip(1) =~= rest);
    }
}

proof fn lemma_unescape_escape(s: Seq<char>)
    ensures
        unescape(escape(s)) == Some(s),
    decreases s.len(),
{
    if s.len() == 0 {
    } else {
        lemma_escape_front(s);
        lemma_unescape_escape(s.skip(1));
        lemma_unescape_char(s[0], escape(s.skip(1)));
        assert(seq![s[0]] + s.skip(1) =~= s);
    }
}

/// Every text `json_quote` writes reads back, as a JSON string, as the
/// text it was given.
pub proof fn lemma_quoted_reads_back(s: Seq<char>)
    ensures
        json_string_value(quoted(s)) == Some(s),
{
    let q = quoted(s);
    assert(q.subrange(1, q.len() - 1) =~= escape(s));
    lemma_unescape_escape(s);
}

fn hex_digit_char(d: u32) -> (c: char)
    requires
        d < 16,
    ensures
        c == hex_digit(d as nat),
{
    match d {
        0 => '0',
        1 => '1',
        2 => '2',
        3 => '3',
        4 => '4',
        5 => '5',
        6 => '6',
        7 => '7',
        8 => '8',
        9 => '9',
        10 => 'a',
        11 => 'b',
        12 => 'c',
        13 => 'd',
        14 => 'e',
        _ => 'f',
    }
}

fn push_escaped(out: &mut String, c: char)
    ensures
        final(out)@ == old(out)@ + escape_char(c),
{
    let n = c as u32;
    if c == '"' {
        push_char(out, '\\');
        push_char(out, '"');
    } else if c == '\\' {
        push_char(out, '\\');
        push_char(out, '\\');
    } else if c == '\n' {
        push_char(out, '\\');
        push_char(out, 'n');
    } else if c == '\r' {
        push_char(out, '\\');
        push_char(out, 'r');
    } else if c == '\t' {
        push_char(out, '\\');
        push_char(out, 't');
    } else if n < 0x20 || (0x7f <= n && n < 0xa0) {
        push_char(out, '\\');
        push_char(out, 'u');
        push_char(out, '0');
        push_char(out, '0');
        push_char(out, hex_digit_char(n / 16));
        push_char(out, hex_digit_char(n % 16));
    } else {
        push_char(out, c);
    }
    assert(final(out)@ =~= old(out)@ + escape_char(c));
}

/// `value` as a JSON string literal.
pub fn json_quote(value: &str) -> (r: String)
    ensures
        r@ == quoted(value@),
{
    let v = crate::text::chars_of(value);
    let mut out = String::new();
    push_char(&mut out, '"');
    let mut i: usize = 0;
    while i < v.len()
        invariant
            i <= v@.len(),
            v@ == value@,
            out@ == seq!['"'] + escape(v@.take(i as int)),
        decreases v@.len() - i,
    {
        assert(v@.take(i as int + 1).drop_last() =~= v@.take(i as int));
        push_escaped(&mut out, v[i]);
        assert(out@ =~= seq!['"'] + escape(v@.take(i as int + 1)));
        i += 1;
    }
    assert(v@.take(v@.len() as int) =~= value@);
    push_char(&mut out, '"');
    assert(out@ =~= quoted(value@));
    out
}

// ---------------------------------------------------------------------------
// Fields; every writer appends to what was written before (`o`)
// ---------------------------------------------------------------------------

/// `true` or `false`.
pub open spec fn bool_text(b: bool) -> Seq<char> {
    if b {
        "true"@
    } else {
        "false"@
    }
}

fn bool_str(b: bool) -> (r: &'static str)
    ensures
        r@ == bool_text(b),
{
    if b {
        "true"
    } else {
        "false"
    }
}

/// `"key":"value"`.
pub open spec fn string_field(o: Seq<char>, key: Seq<char>, value: Seq<char>) -> Seq<char> {
    o + quoted(key) + ":"@ + quoted(value)
}

/// `"key":n`.
pub open spec fn number_field(o: Seq<char>, key: Seq<char>, n: nat) -> Seq<char> {
    o + quoted(key) + ":"@ + decimal(n)
}

/// A comma before every item but the first.
pub open spec fn sep(o: Seq<char>, i: int) -> Seq<char> {
    if i > 0 {
        o + ","@
    } else {
        o
    }
}

pub fn json_string_field(out: &mut String, key: &str, value: &str)
    ensures
        final(out)@ == string_field(old(out)@, key@, value@),
{
    let k = json_quote(key);
    push_str(out, k.as_str());
    push_str(out, ":");
    let v = json_quote(value);
    push_str(out, v.as_str());
}

pub fn json_number(out: &mut String, key: &str, value: u32)
    ensures
        final(out)@ == number_field(old(out)@, key@, value as nat),
{
    let k = json_quote(key);
    push_str(out, k.as_str());
    push_str(out, ":");
    push_decimal(out, value as u64);
}

fn push_sep(out: &mut String, index: usize)
    ensures
        final(out)@ == sep(old(out)@, index as int),
{
    if index > 0 {
        push_str(out, ",");
    }
}

/// `"a","b",...`.
pub open spec fn string_array(o: Seq<char>, values: Seq<&str>, n: int) -> Seq<char>
    decreases n,
{
    if n <= 0 {
        o
    } else {
        sep(string_array(o, values, n - 1), n - 1) + quoted(values[n - 1]@)
    }
}

pub fn json_string_array(out: &mut String, values: &[&str])
    ensures
        final(out)@ == string_array(old(out)@, values@, values@.len() as int),
{
    let ghost o = out@;
    let mut i: usize = 0;
    while i < values.len()
        invariant
            i <= values@.len(),
            out@ == string_array(o, values@, i as int),
        decreases values@.len() - i,
    {
        push_sep(out, i);
        let q = json_quote(values[i]);
        push_str(out, q.as_str());
        i += 1;
    }
}

/// One action: `{"value":..,"kind":..,"selectable":..}`.
pub open spec fn action_item(o: Seq<char>, a: (&str, &str, bool), i: int) -> Seq<char> {
    string_field(string_field(sep(o, i) + "{"@, "value"@, a.0@) + ","@, "kind"@, a.1@)
        + ",\"selectable\":"@ + bool_text(a.2) + "}"@
}

pub open spec fn action_array(o: Seq<char>, actions: Seq<(&str, &str, bool)>, n: int) -> Seq<
    char,
>
    decreases n,
{
    if n <= 0 {
        o
    } else {
        action_item(action_array(o, actions, n - 1), actions[n - 1], n - 1)
    }
}

pub fn json_action_array(out: &mut String, actions: &[(&str, &str, bool)])
    ensures
        final(out)@ == action_array(old(out)@, actions@, actions@.len() as int),
{
    let ghost o = out@;
    let mut i: usize = 0;
    while i < actions.len()
        invariant
            i <= actions@.len(),
            out@ == action_array(o, actions@, i as int),
        decreases actions@.len() - i,
    {
        let (value, kind, selectable) = actions[i];
        push_sep(out, i);
        push_str(out, "{");
        json_string_field(out, "value", value);
        push_str(out, ",");
        json_string_field(out, "kind", kind);
        push_str(out, ",\"selectable\":");
        push_str(out, bool_str(selectable));
        push_str(out, "}");
        i += 1;
    }
}


// ---------------------------------------------------------------------------
// Catalog lists
// ---------------------------------------------------------------------------

/// `{"value":..,"flag":..,"label_key":..,"description_key":..,"default":..,"recommended":..}`
pub open spec fn policy_item(o: Seq<char>, p: (&str, &str, &str), i: int) -> Seq<char> {
    let v = p.0@;
    let auto = v == "auto"@;
    string_field(
        string_field(
            string_field(string_field(sep(o, i) + "{"@, "value"@, v) + ","@, "flag"@, p.1@) + ","@,
            "label_key"@,
            "policy.option."@ + v + ".label"@,
        ) + ","@,
        "description_key"@,
        "policy.option."@ + v + ".description"@,
    ) + ",\"default\":"@ + bool_text(auto) + ",\"recommended\":"@ + bool_text(auto) + "}"@
}

pub open spec fn policy_items(o: Seq<char>, n: int) -> Seq<char>
    decreases n,
{
    if n <= 0 {
        o
    } else {
        policy_item(policy_items(o, n - 1), POLICIES@[n - 1], n - 1)
    }
}

fn push_policy_items(out: &mut String)
    ensures
        final(out)@ == policy_items(old(out)@, POLICIES@.len() as int),
{
    let ghost o = out@;
    let list = POLICIES;
    let mut i: usize = 0;
    while i < list.len()
        invariant
            i <= list@.len(),
            list@ == POLICIES@,
            out@ == policy_items(o, i as int),
        decreases list@.len() - i,
    {
        let (value, flag, _label) = list[i];
        push_sep(out, i);
        push_str(out, "{");
        json_string_field(out, "value", value);
        push_str(out, ",");
        json_string_field(out, "flag", flag);
        push_str(out, ",");
        json_string_field(out, "label_key", concat3("policy.option.", value, ".label").as_str());
        push_str(out, ",");
        json_string_field(
            out,
            "description_key",
            concat3("policy.option.", value, ".description").as_str(),
        );
        let auto = eq_str(value, "auto");
        push_str(out, ",\"default\":");
        push_str(out, bool_str(auto));
        push_str(out, ",\"recommended\":");
        push_str(out, bool_str(auto));
        push_str(out, "}");
        i += 1;
    }
}

/// `{"value":rate,"label_key":"rate.<rate>","default":..}`
pub open spec fn rate_item(o: Seq<char>, r: (u32, &str), i: int) -> Seq<char> {
    string_field(number_field(sep(o, i) + "{"@, "value"@, r.0 as nat) + ","@, "label_key"@, "rate."@
        + decimal(r.0 as nat)) + ",\"default\":"@ + bool_text(r.0 == 44_100) + "}"@
}

pub open spec fn rate_items(o: Seq<char>, n: int) -> Seq<char>
    decreases n,
{
    if n <= 0 {
        o
    } else {
        rate_item(rate_items(o, n - 1), DOCUMENTED_RATES@[n - 1], n - 1)
    }
}

fn push_rate_items(out: &mut String)
    ensures
        final(out)@ == rate_items(old(out)@, DOCUMENTED_RATES@.len() as int),
{
    let ghost o = out@;
    let list = DOCUMENTED_RATES;
    let mut i: usize = 0;
    while i < list.len()
        invariant
            i <= list@.len(),
            list@ == DOCUMENTED_RATES@,
            out@ == rate_items(o, i as int),
        decreases list@.len() - i,
    {
        let (value, _label) = list[i];
        push_sep(out, i);
        push_str(out, "{");
        json_number(out, "value", value);
        push_str(out, ",");
        let mut key = crate::text::owned("rate.");
        let digits = u32_to_string(value);
        push_str(&mut key, digits.as_str());
        json_string_field(out, "label_key", key.as_str());
        push_str(out, ",\"default\":");
        push_str(out, bool_str(value == 44_100));
        push_str(out, "}");
        i += 1;
    }
}

/// `{"value":..,"label_key":"<prefix><value><suffix>","default":..}`
pub open spec fn labeled_item(
    o: Seq<char>,
    v: Seq<char>,
    prefix: Seq<char>,
    suffix: Seq<char>,
    default: Seq<char>,
    i: int,
) -> Seq<char> {
    string_field(string_field(sep(o, i) + "{"@, "value"@, v) + ","@, "label_key"@, prefix + v
        + suffix) + ",\"default\":"@ + bool_text(v == default) + "}"@
}

pub open spec fn labeled_items(
    o: Seq<char>,
    values: Seq<&str>,
    prefix: Seq<char>,
    suffix: Seq<char>,
    default: Seq<char>,
    n: int,
) -> Seq<char>
    decreases n,
{
    if n <= 0 {
        o
    } else {
        labeled_item(
            labeled_items(o, values, prefix, suffix, default, n - 1),
            values[n - 1]@,
            prefix,
            suffix,
            default,
            n - 1,
        )
    }
}

fn push_labeled_items(
    out: &mut String,
    values: &[&str],
    prefix: &str,
    suffix: &str,
    default: &str,
)
    ensures
        final(out)@ == labeled_items(
            old(out)@,
            values@,
            prefix@,
            suffix@,
            default@,
            values@.len() as int,
        ),
{
    let ghost o = out@;
    let mut i: usize = 0;
    while i < values.len()
        invariant
            i <= values@.len(),
            out@ == labeled_items(o, values@, prefix@, suffix@, default@, i as int),
        decreases values@.len() - i,
    {
        let value = values[i];
        push_sep(out, i);
        push_str(out, "{");
        json_string_field(out, "value", value);
        push_str(out, ",");
        json_string_field(out, "label_key", concat3(prefix, value, suffix).as_str());
        push_str(out, ",\"default\":");
        push_str(out, bool_str(eq_str(value, default)));
        push_str(out, "}");
        i += 1;
    }
}

/// `{"value":..,"label_key":..,"description_key":..,"default":..}`, with
/// `"recommended"` mirroring the default where `recommended` is set.
pub open spec fn described_item(
    o: Seq<char>,
    v: Seq<char>,
    prefix: Seq<char>,
    default: Seq<char>,
    recommended: bool,
    i: int,
) -> Seq<char> {
    let head = string_field(
        string_field(string_field(sep(o, i) + "{"@, "value"@, v) + ","@, "label_key"@, prefix + v
            + ".label"@) + ","@,
        "description_key"@,
        prefix + v + ".description"@,
    ) + ",\"default\":"@ + bool_text(v == default);
    if recommended {
        head + ",\"recommended\":"@ + bool_text(v == default) + "}"@
    } else {
        head + "}"@
    }
}

pub open spec fn described_items(
    o: Seq<char>,
    values: Seq<&str>,
    prefix: Seq<char>,
    default: Seq<char>,
    recommended: bool,
    n: int,
) -> Seq<char>
    decreases n,
{
    if n <= 0 {
        o
    } else {
        described_item(
            described_items(o, values, prefix, default, recommended, n - 1),
            values[n - 1]@,
            prefix,
            default,
            recommended,
            n - 1,
        )
    }
}

fn push_described_items(
    out: &mut String,
    values: &[&str],
    prefix: &str,
    default: &str,
    recommended: bool,
)
    ensures
        final(out)@ == described_items(
            old(out)@,
            values@,
            prefix@,
            default@,
            recommended,
            values@.len() as int,
        ),
{
    let ghost o = out@;
    let mut i: usize = 0;
    while i < values.len()
        invariant
            i <= values@.len(),
            out@ == described_items(o, values@, prefix@, default@, recommended, i as int),
        decreases values@.len() - i,
    {
        let value = values[i];
        push_sep(out, i);
        push_str(out, "{");
        json_string_field(out, "value", value);
        push_str(out, ",");
        json_string_field(out, "label_key", concat3(prefix, value, ".label").as_str());
        push_str(out, ",");
        json_string_field(out, "description_key", concat3(prefix, value, ".description").as_str());
        let is_default = eq_str(value, default);
        push_str(out, ",\"default\":");
        push_str(out, bool_str(is_default));
        if recommended {
            push_str(out, ",\"recommended\":");
            push_str(out, bool_str(is_default));
        }
        push_str(out, "}");
        i += 1;
    }
}


/// The policy switches the WebUI offers, with their upstream flags.
pub const SWITCHES: [(&'static str, &'static str); 5] = [
    ("drc", "--drc"),
    ("force_usbv2", "--force-usbv2"),
    ("force_bluetooth_qti", "--force-bluetooth-qti"),
    ("amzm", "--amzm"),
    ("test", "--test"),
];

/// `{"key":..,"flag":..,"default":false,"label_key":..,"description_key":..}`
pub open spec fn switch_item(o: Seq<char>, w: (&str, &str), i: int) -> Seq<char> {
    let k = w.0@;
    string_field(
        string_field(
            string_field(string_field(sep(o, i) + "{"@, "key"@, k) + ","@, "flag"@, w.1@)
                + ",\"default\":false,"@,
            "label_key"@,
            "switch."@ + k + ".label"@,
        ) + ","@,
        "description_key"@,
        "switch."@ + k + ".description"@,
    ) + "}"@
}

pub open spec fn switch_items(o: Seq<char>, n: int) -> Seq<char>
    decreases n,
{
    if n <= 0 {
        o
    } else {
        switch_item(switch_items(o, n - 1), SWITCHES@[n - 1], n - 1)
    }
}

fn push_switch_items(out: &mut String)
    ensures
        final(out)@ == switch_items(old(out)@, SWITCHES@.len() as int),
{
    let ghost o = out@;
    let list = SWITCHES;
    let mut i: usize = 0;
    while i < list.len()
        invariant
            i <= list@.len(),
            list@ == SWITCHES@,
            out@ == switch_items(o, i as int),
        decreases list@.len() - i,
    {
        let (key, flag) = list[i];
        push_sep(out, i);
        push_str(out, "{");
        json_string_field(out, "key", key);
        push_str(out, ",");
        json_string_field(out, "flag", flag);
        push_str(out, ",\"default\":false,");
        json_string_field(out, "label_key", concat3("switch.", key, ".label").as_str());
        push_str(out, ",");
        json_string_field(out, "description_key", concat3("switch.", key, ".description").as_str());
        push_str(out, "}");
        i += 1;
    }
}

/// What the Bluetooth HAL tool can be asked.
pub const BLUETOOTH_HAL_ACTIONS: [&'static str; 6] = [
    "status",
    "reset",
    "aosp",
    "legacy",
    "offload",
    "sysbta",
];

/// An action's kind: `status`, `reset`, or `set` for a HAL choice.
pub open spec fn hal_action_kind(v: Seq<char>) -> Seq<char> {
    if v == "status"@ {
        "status"@
    } else if v == "reset"@ {
        "reset"@
    } else {
        "set"@
    }
}

/// `{"value":..,"label_key":..,"kind":..,"selectable":..}`
pub open spec fn hal_action_item(o: Seq<char>, v: Seq<char>, i: int) -> Seq<char> {
    string_field(string_field(sep(o, i) + "{"@, "value"@, v) + ","@, "label_key"@,
        "bluetooth_hal.action."@ + v + ".label"@) + ",\"kind\":"@ + quoted(hal_action_kind(v))
        + ",\"selectable\":"@ + bool_text(!(v == "status"@ || v == "reset"@)) + "}"@
}

pub open spec fn hal_action_items(o: Seq<char>, n: int) -> Seq<char>
    decreases n,
{
    if n <= 0 {
        o
    } else {
        hal_action_item(hal_action_items(o, n - 1), BLUETOOTH_HAL_ACTIONS@[n - 1]@, n - 1)
    }
}

fn push_hal_action_items(out: &mut String)
    ensures
        final(out)@ == hal_action_items(old(out)@, BLUETOOTH_HAL_ACTIONS@.len() as int),
{
    let ghost o = out@;
    let list = BLUETOOTH_HAL_ACTIONS;
    let mut i: usize = 0;
    while i < list.len()
        invariant
            i <= list@.len(),
            list@ == BLUETOOTH_HAL_ACTIONS@,
            out@ == hal_action_items(o, i as int),
        decreases list@.len() - i,
    {
        let value = list[i];
        push_sep(out, i);
        push_str(out, "{");
        json_string_field(out, "value", value);
        push_str(out, ",");
        json_string_field(
            out,
            "label_key",
            concat3("bluetooth_hal.action.", value, ".label").as_str(),
        );
        let is_status = eq_str(value, "status");
        let is_reset = eq_str(value, "reset");
        let kind = if is_status {
            "status"
        } else if is_reset {
            "reset"
        } else {
            "set"
        };
        push_str(out, ",\"kind\":");
        let q = json_quote(kind);
        push_str(out, q.as_str());
        push_str(out, ",\"selectable\":");
        push_str(out, bool_str(!(is_status || is_reset)));
        push_str(out, "}");
        i += 1;
    }
}

/// A preset: described, selectable, default and recommended for `179-408-99`.
pub open spec fn preset_item(o: Seq<char>, v: Seq<char>, i: int) -> Seq<char> {
    let d = v == "179-408-99"@;
    string_field(
        string_field(string_field(sep(o, i) + "{"@, "value"@, v) + ","@, "label_key"@,
            "resampler.preset."@ + v + ".label"@) + ","@,
        "description_key"@,
        "resampler.preset."@ + v + ".description"@,
    ) + ",\"kind\":\"preset\",\"selectable\":true,\"default\":"@ + bool_text(d)
        + ",\"recommended\":"@ + bool_text(d) + "}"@
}

pub open spec fn preset_items(o: Seq<char>, n: int) -> Seq<char>
    decreases n,
{
    if n <= 0 {
        o
    } else {
        preset_item(
            preset_items(o, n - 1),
            crate::catalog::RESAMPLER_PRESET_NAMES@[n - 1]@,
            n - 1,
        )
    }
}

fn push_preset_items(out: &mut String)
    ensures
        final(out)@ == preset_items(
            old(out)@,
            crate::catalog::RESAMPLER_PRESET_NAMES@.len() as int,
        ),
{
    let ghost o = out@;
    let list = crate::catalog::RESAMPLER_PRESET_NAMES;
    let mut i: usize = 0;
    while i < list.len()
        invariant
            i <= list@.len(),
            list@ == crate::catalog::RESAMPLER_PRESET_NAMES@,
            out@ == preset_items(o, i as int),
        decreases list@.len() - i,
    {
        let value = list[i];
        push_sep(out, i);
        push_str(out, "{");
        json_string_field(out, "value", value);
        push_str(out, ",");
        json_string_field(out, "label_key", concat3("resampler.preset.", value, ".label").as_str());
        push_str(out, ",");
        json_string_field(
            out,
            "description_key",
            concat3("resampler.preset.", value, ".description").as_str(),
        );
        let d = eq_str(value, "179-408-99");
        push_str(out, ",\"kind\":\"preset\",\"selectable\":true,\"default\":");
        push_str(out, bool_str(d));
        push_str(out, ",\"recommended\":");
        push_str(out, bool_str(d));
        push_str(out, "}");
        i += 1;
    }
}

/// A preset group: `{"value":..,"label_key":..,"options":[..]}`.
pub open spec fn group_item(o: Seq<char>, v: Seq<char>, options: Seq<&str>, i: int) -> Seq<char> {
    string_array(
        string_field(string_field(sep(o, i) + "{"@, "value"@, v) + ","@, "label_key"@,
            "resampler.group."@ + v + ".label"@) + ",\"options\":["@,
        options,
        options.len() as int,
    ) + "]}"@
}

fn push_group_item(out: &mut String, value: &str, options: &[&str], index: usize)
    ensures
        final(out)@ == group_item(old(out)@, value@, options@, index as int),
{
    push_sep(out, index);
    push_str(out, "{");
    json_string_field(out, "value", value);
    push_str(out, ",");
    json_string_field(out, "label_key", concat3("resampler.group.", value, ".label").as_str());
    push_str(out, ",\"options\":[");
    json_string_array(out, options);
    push_str(out, "]}");
}

/// The three preset groups in schema order.
pub open spec fn group_items(o: Seq<char>) -> Seq<char> {
    group_item(
        group_item(
            group_item(
                o,
                crate::catalog::RESAMPLER_GROUP_NAMES@[0]@,
                crate::catalog::RESAMPLER_STANDARD_PRESETS@,
                0,
            ),
            crate::catalog::RESAMPLER_GROUP_NAMES@[1]@,
            crate::catalog::RESAMPLER_NONLINEAR_PRESETS@,
            1,
        ),
        crate::catalog::RESAMPLER_GROUP_NAMES@[2]@,
        crate::catalog::RESAMPLER_SIMULATED_PRESETS@,
        2,
    )
}

fn push_group_items(out: &mut String)
    ensures
        final(out)@ == group_items(old(out)@),
{
    let names = crate::catalog::RESAMPLER_GROUP_NAMES;
    push_group_item(out, names[0], &crate::catalog::RESAMPLER_STANDARD_PRESETS, 0);
    push_group_item(out, names[1], &crate::catalog::RESAMPLER_NONLINEAR_PRESETS, 1);
    push_group_item(out, names[2], &crate::catalog::RESAMPLER_SIMULATED_PRESETS, 2);
}

/// A bypass option with the sample rate it passes through.
pub open spec fn bypass_item(o: Seq<char>, b: (&str, u32), i: int) -> Seq<char> {
    let v = b.0@;
    number_field(
        string_field(string_field(sep(o, i) + "{"@, "value"@, v) + ","@, "label_key"@,
            "resampler.bypass."@ + v + ".label"@) + ","@,
        "sample_rate"@,
        b.1 as nat,
    ) + ",\"default\":"@ + bool_text(v == "none"@) + "}"@
}

pub open spec fn bypass_items(o: Seq<char>, n: int) -> Seq<char>
    decreases n,
{
    if n <= 0 {
        o
    } else {
        bypass_item(bypass_items(o, n - 1), RESAMPLER_BYPASSES@[n - 1], n - 1)
    }
}

fn push_bypass_items(out: &mut String)
    ensures
        final(out)@ == bypass_items(old(out)@, RESAMPLER_BYPASSES@.len() as int),
{
    let ghost o = out@;
    let list = RESAMPLER_BYPASSES;
    let mut i: usize = 0;
    while i < list.len()
        invariant
            i <= list@.len(),
            list@ == RESAMPLER_BYPASSES@,
            out@ == bypass_items(o, i as int),
        decreases list@.len() - i,
    {
        let (value, rate) = list[i];
        push_sep(out, i);
        push_str(out, "{");
        json_string_field(out, "value", value);
        push_str(out, ",");
        json_string_field(out, "label_key", concat3("resampler.bypass.", value, ".label").as_str());
        push_str(out, ",");
        json_number(out, "sample_rate", rate);
        push_str(out, ",\"default\":");
        push_str(out, bool_str(eq_str(value, "none")));
        push_str(out, "}");
        i += 1;
    }
}

/// A jitter feature, with its risk and what it touches.
pub open spec fn feature_item(o: Seq<char>, f: Seq<char>, i: int) -> Seq<char> {
    string_field(
        string_field(string_field(sep(o, i) + "{"@, "value"@, f) + ","@, "label_key"@, "jitter."@
            + f + ".label"@) + ","@,
        "description_key"@,
        "jitter."@ + f + ".description"@,
    ) + ",\"default\":false,\"high_risk\":"@ + bool_text(f == "selinux"@ || f == "thermal"@)
        + ",\"requires_audio_restart\":"@ + bool_text(f == "effect"@)
        + ",\"capabilities\":{\"io_parameters\":"@ + bool_text(f == "io"@) + ",\"wifi_no_restart\":"@
        + bool_text(f == "wifi"@) + "}}"@
}

pub open spec fn feature_items(o: Seq<char>, n: int) -> Seq<char>
    decreases n,
{
    if n <= 0 {
        o
    } else {
        feature_item(feature_items(o, n - 1), JITTER_FEATURES@[n - 1]@, n - 1)
    }
}

fn push_feature_items(out: &mut String)
    ensures
        final(out)@ == feature_items(old(out)@, JITTER_FEATURES@.len() as int),
{
    let ghost o = out@;
    let list = JITTER_FEATURES;
    let mut i: usize = 0;
    while i < list.len()
        invariant
            i <= list@.len(),
            list@ == JITTER_FEATURES@,
            out@ == feature_items(o, i as int),
        decreases list@.len() - i,
    {
        let f = list[i];
        push_sep(out, i);
        push_str(out, "{");
        json_string_field(out, "value", f);
        push_str(out, ",");
        json_string_field(out, "label_key", concat3("jitter.", f, ".label").as_str());
        push_str(out, ",");
        json_string_field(out, "description_key", concat3("jitter.", f, ".description").as_str());
        push_str(out, ",\"default\":false,\"high_risk\":");
        push_str(out, bool_str(eq_str(f, "selinux") || eq_str(f, "thermal")));
        push_str(out, ",\"requires_audio_restart\":");
        push_str(out, bool_str(eq_str(f, "effect")));
        push_str(out, ",\"capabilities\":{\"io_parameters\":");
        push_str(out, bool_str(eq_str(f, "io")));
        push_str(out, ",\"wifi_no_restart\":");
        push_str(out, bool_str(eq_str(f, "wifi")));
        push_str(out, "}}");
        i += 1;
    }
}


/// `"a","b",...` for owned strings.
pub open spec fn owned_string_array(o: Seq<char>, values: Seq<Seq<char>>, n: int) -> Seq<char>
    decreases n,
{
    if n <= 0 {
        o
    } else {
        sep(owned_string_array(o, values, n - 1), n - 1) + quoted(values[n - 1])
    }
}

fn push_owned_string_array(out: &mut String, values: &Vec<String>)
    ensures
        final(out)@ == owned_string_array(
            old(out)@,
            crate::text::views(values@),
            values@.len() as int,
        ),
{
    let ghost o = out@;
    let mut i: usize = 0;
    while i < values.len()
        invariant
            i <= values@.len(),
            out@ == owned_string_array(o, crate::text::views(values@), i as int),
        decreases values@.len() - i,
    {
        push_sep(out, i);
        let q = json_quote(values[i].as_str());
        push_str(out, q.as_str());
        i += 1;
    }
}

/// `{"value":<depth>,"label_key":"format.<depth>","default":..}` for each bit depth.
pub open spec fn bit_depth_items(o: Seq<char>, n: int) -> Seq<char>
    decreases n,
{
    if n <= 0 {
        o
    } else {
        labeled_item(
            bit_depth_items(o, n - 1),
            BIT_DEPTHS@[n - 1].0@,
            "format."@,
            ""@,
            "32"@,
            n - 1,
        )
    }
}

fn push_bit_depth_items(out: &mut String)
    ensures
        final(out)@ == bit_depth_items(old(out)@, BIT_DEPTHS@.len() as int),
{
    let ghost o = out@;
    let list = BIT_DEPTHS;
    let mut i: usize = 0;
    while i < list.len()
        invariant
            i <= list@.len(),
            list@ == BIT_DEPTHS@,
            out@ == bit_depth_items(o, i as int),
        decreases list@.len() - i,
    {
        let (value, _label) = list[i];
        push_sep(out, i);
        push_str(out, "{");
        json_string_field(out, "value", value);
        push_str(out, ",");
        json_string_field(out, "label_key", concat3("format.", value, "").as_str());
        push_str(out, ",\"default\":");
        push_str(out, bool_str(eq_str(value, "32")));
        push_str(out, "}");
        i += 1;
    }
}

// ---------------------------------------------------------------------------
// Sections of the document
// ---------------------------------------------------------------------------

pub const CAPABILITIES_AND_DEVICE: &'static str = ",\"capabilities\":{\"json_schema\":true,\"audio_restart_interface\":true,\"batch_reapply\":true,\"device_capabilities\":true},\"device\":{";

pub const LIMITS: &'static str = ",\"limits\":{\"sample_rate\":{\"min\":44100,\"max\":768000,\"integer\":true},\"usb_period\":{\"min\":125,\"max\":50000,\"step\":125,\"unit\":\"usec\"},\"resampler\":{\"stop_band\":{\"min\":20,\"max\":242,\"step\":1},\"half_length\":{\"min\":8,\"max\":640,\"step\":8},\"cutoff_percent\":{\"min\":1,\"max\":100,\"step\":1},\"cheat_percent\":{\"min\":1,\"max\":200,\"step\":1}}}";

pub const RESAMPLER_ACTIONS: [(&'static str, &'static str, bool); 4] = [
    ("status", "status", false),
    ("reset", "reset", false),
    ("preset", "set_preset", true),
    ("custom", "set_custom", true),
];

pub const USB_PERIOD_ACTIONS: [(&'static str, &'static str, bool); 3] = [
    ("status", "status", false),
    ("set", "set", true),
    ("reset", "reset", false),
];

pub const JITTER_ACTIONS: [(&'static str, &'static str, bool); 5] = [
    ("status", "status", false),
    ("enable", "set", true),
    ("disable", "set", true),
    ("all", "set_all", true),
    ("reset", "reset", false),
];

pub const DIAGNOSTIC_ACTIONS: [(&'static str, &'static str, bool); 1] = [("run", "run", true)];

pub const CUSTOM_DEFAULTS: &'static str = ",\"default\":{\"bypass\":\"none\",\"mode\":\"cheat\",\"stop_band\":179,\"half_length\":408,\"percent\":99},\"bypass_options\":[";

pub const RESAMPLER_TAIL: &'static str = "],\"parameters\":{\"stop_band\":{\"min\":20,\"max\":242,\"step\":1,\"default\":179,\"unit\":\"dB\"},\"half_length\":{\"min\":8,\"max\":640,\"step\":8,\"default\":408},\"cutoff_percent\":{\"min\":1,\"max\":100,\"step\":1,\"default\":99,\"unit\":\"percent\"},\"cheat_percent\":{\"min\":1,\"max\":200,\"step\":1,\"default\":99,\"unit\":\"percent\"}}},\"operations\":{\"status\":true,\"set_preset\":true,\"set_custom\":true,\"reset\":true}}";

pub const JITTER_DEFAULTS: &'static str = "],\"defaults\":{\"io_scheduler\":\"*\",\"io_tone\":\"medium\",\"wifi_no_restart\":false},\"wifi_no_restart\":{\"supported\":true,\"default\":false,\"label_key\":\"jitter.wifi.no_restart.label\",\"description_key\":\"jitter.wifi.no_restart.description\"},\"reset_features\":[";

pub const DIAGNOSTICS_TAIL: &'static str = "],\"complete_output\":{\"supported\":true,\"argument\":\"all\",\"default\":false,\"label_key\":\"diagnostics.complete_output.label\",\"description_key\":\"diagnostics.complete_output.description\"},\"operations\":{\"run\":true,\"status\":false,\"reset\":false}}}";

/// `full` with the legacy controls, else `limited`.
pub open spec fn mode_text(legacy: bool) -> Seq<char> {
    if legacy {
        "full"@
    } else {
        "limited"@
    }
}

/// A tool's `"label_key"` and `"description_key"` under `tools.<name>`.
pub open spec fn tool_keys(o: Seq<char>, name: Seq<char>) -> Seq<char> {
    string_field(string_field(o, "label_key"@, "tools."@ + name + ".label"@) + ","@,
        "description_key"@, "tools."@ + name + ".description"@)
}

fn push_tool_keys(out: &mut String, name: &str)
    ensures
        final(out)@ == tool_keys(old(out)@, name@),
{
    json_string_field(out, "label_key", concat3("tools.", name, ".label").as_str());
    push_str(out, ",");
    json_string_field(out, "description_key", concat3("tools.", name, ".description").as_str());
}

/// Versions, device and limits.
pub open spec fn head_section(o: Seq<char>, version: Seq<char>, hal: Seq<char>, legacy: bool, reason: Seq<char>) -> Seq<char> {
    string_field(
        string_field(
            string_field(
                string_field(
                    string_field(
                        number_field(number_field(o + "{"@, "schema_version"@, 1) + ","@,
                            "api_version"@, 1) + ","@,
                        "controller_version"@,
                        CONTROLLER_VERSION@,
                    ) + ","@,
                    "script_version"@,
                    version,
                ) + CAPABILITIES_AND_DEVICE@,
                "audio_hal"@,
                hal,
            ) + ","@,
            "mode"@,
            mode_text(legacy),
        ) + ","@,
        "reason"@,
        reason,
    ) + "}"@ + LIMITS@
}

fn push_head_section(out: &mut String, version: &str, caps: &DeviceCapabilities)
    ensures
        final(out)@ == head_section(
            old(out)@,
            version@,
            caps.audio_hal@,
            caps.legacy_controls,
            caps.reason@,
        ),
{
    push_str(out, "{");
    json_number(out, "schema_version", 1);
    push_str(out, ",");
    json_number(out, "api_version", 1);
    push_str(out, ",");
    json_string_field(out, "controller_version", CONTROLLER_VERSION);
    push_str(out, ",");
    json_string_field(out, "script_version", version);
    push_str(out, CAPABILITIES_AND_DEVICE);
    json_string_field(out, "audio_hal", caps.audio_hal.as_str());
    push_str(out, ",");
    json_string_field(out, "mode", if caps.legacy_controls { "full" } else { "limited" });
    push_str(out, ",");
    json_string_field(out, "reason", caps.reason.as_str());
    push_str(out, "}");
    push_str(out, LIMITS);
}

/// Policies, sample rates, bit depths and switches: offered only with the
/// legacy controls.
pub open spec fn policy_section(o: Seq<char>, legacy: bool) -> Seq<char> {
    let a = o + ",\"policy\":{\"available\":"@ + bool_text(legacy)
        + ",\"default\":\"auto\",\"options\":["@;
    let b = (if legacy {
        policy_items(a, POLICIES@.len() as int)
    } else {
        a
    }) + "]},\"sample_rates\":["@;
    let c = (if legacy {
        rate_items(b, DOCUMENTED_RATES@.len() as int)
    } else {
        b
    }) + "],\"bit_depths\":["@;
    let d = (if legacy {
        bit_depth_items(c, BIT_DEPTHS@.len() as int)
    } else {
        c
    }) + "],\"switches\":["@;
    (if legacy {
        switch_items(d, SWITCHES@.len() as int)
    } else {
        d
    }) + "]"@
}

fn push_policy_section(out: &mut String, legacy: bool)
    ensures
        final(out)@ == policy_section(old(out)@, legacy),
{
    push_str(out, ",\"policy\":{\"available\":");
    push_str(out, bool_str(legacy));
    push_str(out, ",\"default\":\"auto\",\"options\":[");
    if legacy {
        push_policy_items(out);
    }
    push_str(out, "]},\"sample_rates\":[");
    if legacy {
        push_rate_items(out);
    }
    push_str(out, "],\"bit_depths\":[");
    if legacy {
        push_bit_depth_items(out);
    }
    push_str(out, "],\"switches\":[");
    if legacy {
        push_switch_items(out);
    }
    push_str(out, "]");
}

/// The Bluetooth HAL tool: it may change the HAL only with the legacy
/// controls.
pub open spec fn bluetooth_section(o: Seq<char>, legacy: bool) -> Seq<char> {
    let a = tool_keys(
        o + ",\"extras\":{\"bluetooth_hal\":{\"available\":"@ + bool_text(legacy)
            + ",\"tool\":\"bluetooth-hal\","@,
        "bluetooth_hal"@,
    ) + ",\"default\":\"offload\",\"recommended\":\"offload\",\"actions\":["@;
    let b = hal_action_items(a, BLUETOOTH_HAL_ACTIONS@.len() as int) + "],\"options\":["@;
    described_items(
        b,
        BLUETOOTH_HAL_OPTIONS@,
        "bluetooth_hal.option."@,
        "offload"@,
        true,
        BLUETOOTH_HAL_OPTIONS@.len() as int,
    ) + "],\"operations\":{\"status\":true,\"set\":"@ + bool_text(legacy) + ",\"reset\":"@
        + bool_text(legacy) + "}}"@
}

fn push_bluetooth_section(out: &mut String, legacy: bool)
    ensures
        final(out)@ == bluetooth_section(old(out)@, legacy),
{
    push_str(out, ",\"extras\":{\"bluetooth_hal\":{\"available\":");
    push_str(out, bool_str(legacy));
    push_str(out, ",\"tool\":\"bluetooth-hal\",");
    push_tool_keys(out, "bluetooth_hal");
    push_str(out, ",\"default\":\"offload\",\"recommended\":\"offload\",\"actions\":[");
    push_hal_action_items(out);
    push_str(out, "],\"options\":[");
    push_described_items(out, &BLUETOOTH_HAL_OPTIONS, "bluetooth_hal.option.", "offload", true);
    push_str(out, "],\"operations\":{\"status\":true,\"set\":");
    push_str(out, bool_str(legacy));
    push_str(out, ",\"reset\":");
    push_str(out, bool_str(legacy));
    push_str(out, "}}");
}

/// The resampler tool: presets, groups and the custom parameters.
pub open spec fn resampler_section(o: Seq<char>) -> Seq<char> {
    let a = tool_keys(o + ",\"resampler\":{\"available\":true,\"tool\":\"resampler\","@, "resampler"@)
        + ",\"default_preset\":\"179-408-99\",\"upstream_default_preset\":\"default\",\"recommended\":\"179-408-99\",\"actions\":["@;
    let b = action_array(a, RESAMPLER_ACTIONS@, RESAMPLER_ACTIONS@.len() as int)
        + "],\"presets\":["@;
    let c = preset_items(b, crate::catalog::RESAMPLER_PRESET_NAMES@.len() as int)
        + "],\"groups\":["@;
    let d = group_items(c) + "],\"custom\":{"@;
    let e = string_field(
        string_field(string_field(d, "value"@, "custom"@) + ","@, "label_key"@,
            "resampler.custom.label"@) + ","@,
        "description_key"@,
        "resampler.custom.description"@,
    ) + CUSTOM_DEFAULTS@;
    let f = bypass_items(e, RESAMPLER_BYPASSES@.len() as int) + "],\"modes\":["@;
    labeled_items(
        f,
        RESAMPLER_MODES@,
        "resampler.mode."@,
        ".label"@,
        "cheat"@,
        RESAMPLER_MODES@.len() as int,
    ) + RESAMPLER_TAIL@
}

fn push_resampler_section(out: &mut String)
    ensures
        final(out)@ == resampler_section(old(out)@),
{
    push_str(out, ",\"resampler\":{\"available\":true,\"tool\":\"resampler\",");
    push_tool_keys(out, "resampler");
    push_str(
        out,
        ",\"default_preset\":\"179-408-99\",\"upstream_default_preset\":\"default\",\"recommended\":\"179-408-99\",\"actions\":[",
    );
    json_action_array(out, &RESAMPLER_ACTIONS);
    push_str(out, "],\"presets\":[");
    push_preset_items(out);
    push_str(out, "],\"groups\":[");
    push_group_items(out);
    push_str(out, "],\"custom\":{");
    json_string_field(out, "value", "custom");
    push_str(out, ",");
    json_string_field(out, "label_key", "resampler.custom.label");
    push_str(out, ",");
    json_string_field(out, "description_key", "resampler.custom.description");
    push_str(out, CUSTOM_DEFAULTS);
    push_bypass_items(out);
    push_str(out, "],\"modes\":[");
    push_labeled_items(out, &RESAMPLER_MODES, "resampler.mode.", ".label", "cheat");
    push_str(out, RESAMPLER_TAIL);
}

/// The USB period tool: setting a period needs the legacy controls.
pub open spec fn usb_period_section(o: Seq<char>, legacy: bool) -> Seq<char> {
    let a = tool_keys(
        o + ",\"usb_period\":{\"available\":"@ + bool_text(legacy) + ",\"tool\":\"usb-period\","@,
        "usb_period"@,
    )
        + ",\"default\":2250,\"recommended\":2250,\"range\":{\"min\":125,\"max\":50000,\"step\":125,\"unit\":\"usec\"},\"actions\":["@;
    action_array(a, USB_PERIOD_ACTIONS@, USB_PERIOD_ACTIONS@.len() as int)
        + "],\"operations\":{\"status\":true,\"set\":"@ + bool_text(legacy)
        + ",\"reset\":true}}"@
}

fn push_usb_period_section(out: &mut String, legacy: bool)
    ensures
        final(out)@ == usb_period_section(old(out)@, legacy),
{
    push_str(out, ",\"usb_period\":{\"available\":");
    push_str(out, bool_str(legacy));
    push_str(out, ",\"tool\":\"usb-period\",");
    push_tool_keys(out, "usb_period");
    push_str(
        out,
        ",\"default\":2250,\"recommended\":2250,\"range\":{\"min\":125,\"max\":50000,\"step\":125,\"unit\":\"usec\"},\"actions\":[",
    );
    json_action_array(out, &USB_PERIOD_ACTIONS);
    push_str(out, "],\"operations\":{\"status\":true,\"set\":");
    push_str(out, bool_str(legacy));
    push_str(out, ",\"reset\":true}}");
}

/// The jitter tool: its features and I/O options.
pub open spec fn jitter_section(o: Seq<char>) -> Seq<char> {
    let a = tool_keys(o + ",\"jitter\":{\"available\":true,\"tool\":\"jitter\","@, "jitter"@)
        + ",\"actions\":["@;
    let b = action_array(a, JITTER_ACTIONS@, JITTER_ACTIONS@.len() as int) + "],\"features\":["@;
    let c = feature_items(b, JITTER_FEATURES@.len() as int) + "],\"io_schedulers\":["@;
    let d = string_array(c, IO_SCHEDULERS@, IO_SCHEDULERS@.len() as int) + "],\"io_tones\":["@;
    let e = string_array(d, IO_TONES@, IO_TONES@.len() as int) + "],\"io_scheduler_options\":["@;
    let f = labeled_items(
        e,
        IO_SCHEDULERS@,
        "jitter.io_scheduler."@,
        ".label"@,
        "*"@,
        IO_SCHEDULERS@.len() as int,
    ) + "],\"io_tone_options\":["@;
    let g = labeled_items(
        f,
        IO_TONES@,
        "jitter.io_tone."@,
        ".label"@,
        "medium"@,
        IO_TONES@.len() as int,
    ) + JITTER_DEFAULTS@;
    string_array(g, JITTER_FEATURES@, JITTER_FEATURES@.len() as int)
        + "],\"operations\":{\"status\":true,\"set\":true,\"reset\":true}}"@
}

fn push_jitter_section(out: &mut String)
    ensures
        final(out)@ == jitter_section(old(out)@),
{
    push_str(out, ",\"jitter\":{\"available\":true,\"tool\":\"jitter\",");
    push_tool_keys(out, "jitter");
    push_str(out, ",\"actions\":[");
    json_action_array(out, &JITTER_ACTIONS);
    push_str(out, "],\"features\":[");
    push_feature_items(out);
    push_str(out, "],\"io_schedulers\":[");
    json_string_array(out, &IO_SCHEDULERS);
    push_str(out, "],\"io_tones\":[");
    json_string_array(out, &IO_TONES);
    push_str(out, "],\"io_scheduler_options\":[");
    push_labeled_items(out, &IO_SCHEDULERS, "jitter.io_scheduler.", ".label", "*");
    push_str(out, "],\"io_tone_options\":[");
    push_labeled_items(out, &IO_TONES, "jitter.io_tone.", ".label", "medium");
    push_str(out, JITTER_DEFAULTS);
    json_string_array(out, &JITTER_FEATURES);
    push_str(out, "],\"operations\":{\"status\":true,\"set\":true,\"reset\":true}}");
}

/// The diagnostics tool, which closes the extras.
pub open spec fn diagnostics_section(o: Seq<char>) -> Seq<char> {
    let a = tool_keys(o + ",\"diagnostics\":{\"available\":true,\"tool\":\"diagnose\","@, "diagnostics"@)
        + ",\"default\":\"audio\",\"actions\":["@;
    let b = action_array(a, DIAGNOSTIC_ACTIONS@, DIAGNOSTIC_ACTIONS@.len() as int)
        + "],\"types\":["@;
    described_items(
        b,
        DIAGNOSTIC_TYPES@,
        "diagnostic."@,
        "audio"@,
        false,
        DIAGNOSTIC_TYPES@.len() as int,
    ) + DIAGNOSTICS_TAIL@
}

fn push_diagnostics_section(out: &mut String)
    ensures
        final(out)@ == diagnostics_section(old(out)@),
{
    push_str(out, ",\"diagnostics\":{\"available\":true,\"tool\":\"diagnose\",");
    push_tool_keys(out, "diagnostics");
    push_str(out, ",\"default\":\"audio\",\"actions\":[");
    json_action_array(out, &DIAGNOSTIC_ACTIONS);
    push_str(out, "],\"types\":[");
    push_described_items(out, &DIAGNOSTIC_TYPES, "diagnostic.", "audio", false);
    push_str(out, DIAGNOSTICS_TAIL);
}

/// The whole schema document for an installation whose upstream script
/// reports `version`, with the templates found under the module.
pub open spec fn schema_json(
    version: Seq<char>,
    hal: Seq<char>,
    legacy: bool,
    reason: Seq<char>,
    templates: Seq<Seq<char>>,
) -> Seq<char> {
    let head = head_section(Seq::empty(), version, hal, legacy, reason);
    let extras = diagnostics_section(
        jitter_section(
            usb_period_section(
                resampler_section(bluetooth_section(policy_section(head, legacy), legacy)),
                legacy,
            ),
        ),
    );
    owned_string_array(extras + ",\"templates\":["@, templates, templates.len() as int) + "]}"@
}

/// Renders the machine-readable controller contract for the given device
/// capabilities.
pub fn render_schema_json_with_capabilities(
    script_version: &str,
    caps: &DeviceCapabilities,
    templates: &Vec<String>,
) -> (r: String)
    ensures
        r@ == schema_json(
            script_version@,
            caps.audio_hal@,
            caps.legacy_controls,
            caps.reason@,
            crate::text::views(templates@),
        ),
{
    let mut out = String::new();
    push_head_section(&mut out, script_version, caps);
    push_policy_section(&mut out, caps.legacy_controls);
    push_bluetooth_section(&mut out, caps.legacy_controls);
    push_resampler_section(&mut out);
    push_usb_period_section(&mut out, caps.legacy_controls);
    push_jitter_section(&mut out);
    push_diagnostics_section(&mut out);
    push_str(&mut out, ",\"templates\":[");
    push_owned_string_array(&mut out, templates);
    push_str(&mut out, "]}");
    out
}

} // verus!
