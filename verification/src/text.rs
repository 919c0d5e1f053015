//! Character-level helpers shared by the parsers and renderers: decimal
//! numbers, line splitting, `key=value` splitting, substring search and the
//! whitespace trimming that the controller's text formats rely on.
use vstd::prelude::*;

verus! {

broadcast use vstd::string::group_string_axioms;

// ---------------------------------------------------------------------------
// Owned strings
// ---------------------------------------------------------------------------

/// Appends one character to an owned string (`String::push`).
#[verifier::external_body]
pub(crate) fn push_char(s: &mut String, c: char)
    ensures
        final(s)@ == old(s)@.push(c),
{
    s.push(c);
}

/// Appends a string slice to an owned string.
pub(crate) fn push_str(s: &mut String, t: &str)
    ensures
        final(s)@ == old(s)@ + t@,
{
    s.append(t);
}

/// An owned copy of a string slice.
pub fn owned(s: &str) -> (r: String)
    ensures
        r@ == s@,
{
    s.to_owned()
}

/// Whether two string slices hold the same characters.
pub fn eq_str(a: &str, b: &str) -> (r: bool)
    ensures
        r == (a@ == b@),
{
    let x = a.to_owned();
    let y = b.to_owned();
    x == y
}

/// `a` followed by `b`.
pub fn concat2(a: &str, b: &str) -> (r: String)
    ensures
        r@ == a@ + b@,
{
    let mut r = a.to_owned();
    push_str(&mut r, b);
    r
}

/// `a`, `b` and `c` in sequence.
pub fn concat3(a: &str, b: &str, c: &str) -> (r: String)
    ensures
        r@ == a@ + b@ + c@,
{
    let mut r = a.to_owned();
    push_str(&mut r, b);
    push_str(&mut r, c);
    r
}

/// The characters of a string slice, in order.
pub fn chars_of(s: &str) -> (v: Vec<char>)
    ensures
        v@ == s@,
{
    let mut v: Vec<char> = Vec::new();
    for c in it: s.chars()
        invariant
            v@ == it.seq().take(it.index()),
            it.seq() == s@,
    {
        v.push(c);
    }
    v
}

/// The characters `v[lo..hi]` as an owned string.
pub fn string_of_range(v: &Vec<char>, lo: usize, hi: usize) -> (r: String)
    requires
        lo <= hi <= v@.len(),
    ensures
        r@ == v@.subrange(lo as int, hi as int),
{
    let mut r = String::new();
    let mut i = lo;
    while i < hi
        invariant
            lo <= i <= hi <= v@.len(),
            r@ == v@.subrange(lo as int, i as int),
        decreases hi - i,
    {
        push_char(&mut r, v[i]);
        assert(v@.subrange(lo as int, i + 1) =~= v@.subrange(lo as int, i as int).push(v@[i as int]));
        i += 1;
    }
    r
}

/// Whether a character sequence equals the characters of a string slice.
pub fn chars_eq(v: &Vec<char>, lo: usize, hi: usize, s: &str) -> (r: bool)
    requires
        lo <= hi <= v@.len(),
    ensures
        r == (v@.subrange(lo as int, hi as int) == s@),
{
    let piece = string_of_range(v, lo, hi);
    eq_str(piece.as_str(), s)
}

// ---------------------------------------------------------------------------
// Decimal numbers
// ---------------------------------------------------------------------------

pub open spec fn is_digit(c: char) -> bool {
    '0' <= c && c <= '9'
}

pub open spec fn digit_value(c: char) -> nat {
    (c as int - '0' as int) as nat
}

pub open spec fn all_digits(s: Seq<char>) -> bool {
    forall|i: int| 0 <= i < s.len() ==> is_digit(#[trigger] s[i])
}

/// The number written by a sequence of decimal digits.
pub open spec fn decimal_value(s: Seq<char>) -> nat
    decreases s.len(),
{
    if s.len() == 0 {
        0
    } else {
        decimal_value(s.drop_last()) * 10 + digit_value(s.last())
    }
}

/// The digits that follow an optional leading `+`.
pub open spec fn unsigned_digits(s: Seq<char>) -> Seq<char> {
    if s.len() > 0 && s[0] == '+' {
        s.drop_first()
    } else {
        s
    }
}

/// What `u32::from_str` accepts: an optional `+`, then at least one decimal
/// digit, denoting a value that fits in 32 bits.
pub open spec fn parse_u32_spec(s: Seq<char>) -> Option<u32> {
    let d = unsigned_digits(s);
    if d.len() > 0 && all_digits(d) && decimal_value(d) <= u32::MAX {
        Some(decimal_value(d) as u32)
    } else {
        None
    }
}

pub open spec fn digit_char(d: nat) -> char {
    (d + '0' as nat) as char
}

/// The shortest decimal writing of `n`.
pub open spec fn decimal(n: nat) -> Seq<char>
    decreases n,
{
    if n < 10 {
        seq![digit_char(n)]
    } else {
        decimal(n / 10).push(digit_char(n % 10))
    }
}

pub proof fn lemma_digit_char(d: nat)
    requires
        d < 10,
    ensures
        is_digit(digit_char(d)),
        digit_value(digit_char(d)) == d,
        digit_char(d) != '+',
        digit_char(d) != '\n',
        digit_char(d) != '=',
{
}

/// Reading back the decimal writing of a number gives the number.
pub proof fn lemma_decimal(n: nat)
    ensures
        decimal(n).len() >= 1,
        all_digits(decimal(n)),
        decimal_value(decimal(n)) == n,
        decimal(n)[0] != '+',
    decreases n,
{
    if n < 10 {
        lemma_digit_char(n);
        assert(decimal(n).drop_last() =~= Seq::<char>::empty());
        assert(decimal_value(decimal(n).drop_last()) == 0);
    } else {
        lemma_decimal(n / 10);
        lemma_digit_char(n % 10);
        let d = decimal(n / 10);
        assert(decimal(n).drop_last() =~= d);
        assert(decimal(n).last() == digit_char(n % 10));
        assert(decimal_value(decimal(n)) == decimal_value(d) * 10 + digit_value(
            decimal(n).last(),
        ));
        assert(decimal_value(d) == n / 10);
        assert(digit_value(decimal(n).last()) == n % 10);
        assert forall|i: int| 0 <= i < decimal(n).len() implies is_digit(#[trigger] decimal(n)[i]) by {
            if i < d.len() {
                assert(decimal(n)[i] == d[i]);
            }
        }
    }
}

/// `u32::from_str` on the decimal writing of a value gives the value.
pub proof fn lemma_parse_decimal(n: u32)
    ensures
        parse_u32_spec(decimal(n as nat)) == Some(n),
{
    lemma_decimal(n as nat);
}

pub proof fn lemma_decimal_value_push(s: Seq<char>, c: char)
    ensures
        decimal_value(s.push(c)) == decimal_value(s) * 10 + digit_value(c),
{
    assert(s.push(c).drop_last() =~= s);
}

pub proof fn lemma_decimal_value_monotone(s: Seq<char>, k: int)
    requires
        0 <= k <= s.len(),
    ensures
        decimal_value(s.take(k)) <= decimal_value(s),
    decreases s.len() - k,
{
    if k < s.len() {
        lemma_decimal_value_monotone(s, k + 1);
        lemma_decimal_value_push(s.take(k), s[k]);
        assert(s.take(k + 1) =~= s.take(k).push(s[k]));
    } else {
        assert(s.take(k) =~= s);
    }
}

fn digit_to_char(d: u32) -> (c: char)
    requires
        d < 10,
    ensures
        c == digit_char(d as nat),
{
    match d {
        0 => '0',
        1 => '1',
        2 => '2',
        3 => '3',
        4 => '4',
        5 => '5',
        6 => '6',
        7 => '7',
        8 => '8',
        _ => '9',
    }
}

/// Appends the decimal writing of `n`.
pub fn push_decimal(out: &mut String, n: u64)
    ensures
        final(out)@ == old(out)@ + decimal(n as nat),
    decreases n,
{
    if n < 10 {
        push_char(out, digit_to_char(n as u32));
        assert(old(out)@.push(digit_char(n as nat)) =~= old(out)@ + decimal(n as nat));
    } else {
        push_decimal(out, n / 10);
        let ghost mid = out@;
        push_char(out, digit_to_char((n % 10) as u32));
        assert(mid.push(digit_char((n % 10) as nat)) =~= old(out)@ + decimal(n as nat));
    }
}

/// The decimal writing of `n` (`u32::to_string`).
pub fn u32_to_string(n: u32) -> (r: String)
    ensures
        r@ == decimal(n as nat),
{
    let mut r = String::new();
    push_decimal(&mut r, n as u64);
    assert(Seq::<char>::empty() + decimal(n as nat) =~= decimal(n as nat));
    r
}

/// The decimal writing of `n` (`u64::to_string`).
pub fn u64_to_string(n: u64) -> (r: String)
    ensures
        r@ == decimal(n as nat),
{
    let mut r = String::new();
    push_decimal(&mut r, n);
    assert(Seq::<char>::empty() + decimal(n as nat) =~= decimal(n as nat));
    r
}

fn char_digit(c: char) -> (d: u32)
    requires
        is_digit(c),
    ensures
        d == digit_value(c),
{
    (c as u32) - ('0' as u32)
}

/// Parses a decimal number the way `u32::from_str` does.
pub fn parse_u32(s: &str) -> (r: Option<u32>)
    ensures
        r == parse_u32_spec(s@),
{
    let v = chars_of(s);
    let mut start: usize = 0;
    if v.len() > 0 && v[0] == '+' {
        start = 1;
    }
    let ghost d = unsigned_digits(s@);
    assert(d =~= v@.subrange(start as int, v@.len() as int));
    if start == v.len() {
        return None;
    }
    let mut acc: u64 = 0;
    let mut i = start;
    while i < v.len()
        invariant
            start <= i <= v@.len(),
            d == v@.subrange(start as int, v@.len() as int),
            d == unsigned_digits(s@),
            all_digits(d.take(i - start)),
            acc == decimal_value(d.take(i - start)),
            acc <= u32::MAX,
        decreases v@.len() - i,
    {
        let c = v[i];
        if !('0' <= c && c <= '9') {
            assert(d[i - start] == c);
            assert(!is_digit(d[i - start]));
            assert(!all_digits(d));
            return None;
        }
        let digit = char_digit(c);
        assert(d.take(i - start + 1) =~= d.take(i - start).push(c));
        proof { lemma_decimal_value_push(d.take(i - start), c); }
        acc = acc * 10 + digit as u64;
        if acc > 0xffff_ffffu64 {
            proof {
                lemma_decimal_value_monotone(d, (i - start + 1) as int);
            }
            assert(decimal_value(d) > u32::MAX);
            return None;
        }
        i += 1;
    }
    assert(d.take(i - start) =~= d);
    Some(acc as u32)
}

// ---------------------------------------------------------------------------
// Searching
// ---------------------------------------------------------------------------

/// Index of the first `c` in `s`, or `s.len()` when there is none.
pub open spec fn first_index(s: Seq<char>, c: char) -> int
    decreases s.len(),
{
    if s.len() == 0 {
        0
    } else if s[0] == c {
        0
    } else {
        1 + first_index(s.drop_first(), c)
    }
}

pub open spec fn lacks(s: Seq<char>, c: char) -> bool {
    forall|j: int| 0 <= j < s.len() ==> s[j] != c
}

/// `first_index` is the position of the first occurrence.
pub proof fn lemma_first_index(s: Seq<char>, c: char, i: int)
    requires
        0 <= i <= s.len(),
        lacks(s.take(i), c),
        i == s.len() || s[i] == c,
    ensures
        first_index(s, c) == i,
    decreases s.len(),
{
    if s.len() > 0 && i > 0 {
        assert(s.take(i)[0] == s[0]);
        assert forall|j: int| 0 <= j < i - 1 implies #[trigger] s.drop_first().take(i - 1)[j] != c by {
            assert(s.take(i)[j + 1] == s[j + 1]);
        }
        lemma_first_index(s.drop_first(), c, i - 1);
    }
}

pub proof fn lemma_first_index_bounds(s: Seq<char>, c: char)
    ensures
        0 <= first_index(s, c) <= s.len(),
        first_index(s, c) < s.len() ==> s[first_index(s, c)] == c,
        lacks(s.take(first_index(s, c)), c),
    decreases s.len(),
{
    if s.len() > 0 && s[0] != c {
        lemma_first_index_bounds(s.drop_first(), c);
        let k = first_index(s.drop_first(), c);
        assert forall|j: int| 0 <= j < k + 1 implies #[trigger] s.take(k + 1)[j] != c by {
            if j > 0 {
                assert(s.take(k + 1)[j] == s.drop_first().take(k)[j - 1]);
            }
        }
    }
}

/// Scans for `c` from position `start`.
pub fn find_char(v: &Vec<char>, c: char, start: usize) -> (r: usize)
    requires
        start <= v@.len(),
    ensures
        start <= r <= v@.len(),
        r < v@.len() ==> v@[r as int] == c,
        forall|j: int| start <= j < r ==> v@[j] != c,
        r - start == first_index(v@.subrange(start as int, v@.len() as int), c),
{
    let mut i = start;
    while i < v.len() && v[i] != c
        invariant
            start <= i <= v@.len(),
            forall|j: int| start <= j < i ==> v@[j] != c,
        decreases v@.len() - i,
    {
        i += 1;
    }
    proof {
        let t = v@.subrange(start as int, v@.len() as int);
        assert forall|j: int| 0 <= j < i - start implies #[trigger] t.take(i - start)[j] != c by {
            assert(t.take(i - start)[j] == v@[start + j]);
        }
        if i < v@.len() {
            assert(t[i - start] == v@[i as int]);
        }
        lemma_first_index(t, c, i - start);
    }
    i
}

/// The part before and the part after the first `c`, if `s` holds one
/// (`str::split_once` with a character pattern).
pub open spec fn split_once(s: Seq<char>, c: char) -> Option<(Seq<char>, Seq<char>)> {
    let i = first_index(s, c);
    if i < s.len() {
        Some((s.take(i), s.skip(i + 1)))
    } else {
        None
    }
}

/// Splitting `k c v` at the first `c` gives back `k` and `v` when `k` lacks `c`.
pub proof fn lemma_split_once_join(k: Seq<char>, c: char, v: Seq<char>)
    requires
        lacks(k, c),
    ensures
        split_once(k + seq![c] + v, c) == Some((k, v)),
{
    let s = k + seq![c] + v;
    assert(s.take(k.len() as int) =~= k);
    lemma_first_index(s, c, k.len() as int);
    assert(s.skip(k.len() as int + 1) =~= v);
}

/// `str::split_once` with a character pattern.
pub fn split_once_char(s: &str, c: char) -> (r: Option<(String, String)>)
    ensures
        match r {
            Some((a, b)) => split_once(s@, c) == Some((a@, b@)),
            None => split_once(s@, c) is None,
        },
{
    let v = chars_of(s);
    let i = find_char(&v, c, 0);
    assert(v@.subrange(0, v@.len() as int) =~= v@);
    if i < v.len() {
        let a = string_of_range(&v, 0, i);
        let b = string_of_range(&v, i + 1, v.len());
        assert(v@.subrange(0, i as int) =~= v@.take(i as int));
        assert(v@.subrange(i + 1, v@.len() as int) =~= v@.skip(i + 1));
        Some((a, b))
    } else {
        None
    }
}

/// Whether `s` holds character `c` (`str::contains` with a character).
pub fn has_char(s: &str, c: char) -> (r: bool)
    ensures
        r == !lacks(s@, c),
{
    let v = chars_of(s);
    let i = find_char(&v, c, 0);
    i < v.len()
}

/// `s` begins with `p`.
pub open spec fn starts_with(s: Seq<char>, p: Seq<char>) -> bool {
    p.len() <= s.len() && s.take(p.len() as int) == p
}

/// `s` ends with `p`.
pub open spec fn ends_with(s: Seq<char>, p: Seq<char>) -> bool {
    p.len() <= s.len() && s.skip(s.len() - p.len()) == p
}

/// `p` occurs in `s` at position `i`.
pub open spec fn occurs_at(s: Seq<char>, p: Seq<char>, i: int) -> bool {
    0 <= i && i + p.len() <= s.len() && s.subrange(i, i + p.len()) == p
}

/// `p` occurs somewhere in `s` (`str::contains` with a string pattern).
pub open spec fn contains(s: Seq<char>, p: Seq<char>) -> bool {
    exists|i: int| occurs_at(s, p, i)
}

/// `p` occurs at `i` and nowhere before.
pub open spec fn first_at(s: Seq<char>, p: Seq<char>, i: int) -> bool {
    occurs_at(s, p, i) && forall|j: int| 0 <= j < i ==> !occurs_at(s, p, j)
}

/// Position of the first occurrence of `p` in `s`, if any.
pub open spec fn first_occurrence(s: Seq<char>, p: Seq<char>) -> Option<int> {
    if contains(s, p) {
        Some(choose|i: int| first_at(s, p, i))
    } else {
        None
    }
}

/// A first occurrence is the first occurrence.
pub proof fn lemma_first_occurrence(s: Seq<char>, p: Seq<char>, i: int)
    requires
        first_at(s, p, i),
    ensures
        first_occurrence(s, p) == Some(i),
{
    let k = choose|k: int| first_at(s, p, k);
    assert(first_at(s, p, k));
    if k < i {
        assert(!occurs_at(s, p, k));
    } else if k > i {
        assert(!occurs_at(s, p, i));
    }
}

pub fn matches_at(v: &Vec<char>, p: &Vec<char>, i: usize) -> (r: bool)
    requires
        i <= v@.len(),
    ensures
        r == occurs_at(v@, p@, i as int),
{
    if p.len() > v.len() - i {
        return false;
    }
    assert(i + p@.len() <= v@.len());
    let mut k: usize = 0;
    while k < p.len()
        invariant
            i + p@.len() <= v@.len(),
            v@.len() <= usize::MAX,
            k <= p@.len(),
            forall|j: int| 0 <= j < k ==> v@[i + j] == p@[j],
        decreases p@.len() - k,
    {
        if v[i + k] != p[k] {
            assert(v@.subrange(i as int, i + p@.len())[k as int] != p@[k as int]);
            return false;
        }
        k += 1;
    }
    assert(v@.subrange(i as int, i + p@.len()) =~= p@);
    true
}

/// Position of the first occurrence of `p` in `v` at or after `start`.
pub fn find_str(v: &Vec<char>, p: &Vec<char>, start: usize) -> (r: Option<usize>)
    requires
        start <= v@.len(),
    ensures
        match r {
            Some(i) => start <= i && occurs_at(v@, p@, i as int) && forall|j: int|
                start <= j < i ==> !occurs_at(v@, p@, j),
            None => forall|j: int| start <= j <= v@.len() ==> !occurs_at(v@, p@, j),
        },
{
    let mut i = start;
    while i < v.len()
        invariant
            start <= i <= v@.len(),
            forall|j: int| start <= j < i ==> !occurs_at(v@, p@, j),
        decreases v@.len() - i,
    {
        if matches_at(v, p, i) {
            return Some(i);
        }
        i += 1;
    }
    if matches_at(v, p, i) {
        return Some(i);
    }
    None
}

/// Whether `p` occurs in `s`.
pub fn contains_str(s: &str, p: &str) -> (r: bool)
    ensures
        r == contains(s@, p@),
{
    let v = chars_of(s);
    let pv = chars_of(p);
    match find_str(&v, &pv, 0) {
        Some(_) => true,
        None => {
            assert forall|j: int| !occurs_at(s@, p@, j) by {
                if 0 <= j <= s@.len() {
                } else {
                }
            }
            false
        },
    }
}

/// The part before and the part after the first occurrence of `p`
/// (`str::split_once` with a string pattern).
pub open spec fn split_at_str(s: Seq<char>, p: Seq<char>) -> Option<(Seq<char>, Seq<char>)> {
    match first_occurrence(s, p) {
        Some(i) => Some((s.take(i), s.skip(i + p.len()))),
        None => None,
    }
}

/// `str::split_once` with a string pattern.
pub fn split_once_str(s: &str, p: &str) -> (r: Option<(String, String)>)
    ensures
        match split_at_str(s@, p@) {
            Some((a, b)) => r matches Some(x) && x.0@ == a && x.1@ == b,
            None => r is None,
        },
{
    let v = chars_of(s);
    let pv = chars_of(p);
    match find_str(&v, &pv, 0) {
        Some(i) => {
            proof {
                lemma_first_occurrence(s@, p@, i as int);
            }
            let n = v.len();
            let lp = pv.len();
            assert(i + lp <= n);
            let a = string_of_range(&v, 0, i);
            let b = string_of_range(&v, i + lp, n);
            assert(v@.subrange(0, i as int) =~= s@.take(i as int));
            assert(v@.subrange(i + pv@.len(), v@.len() as int) =~= s@.skip(i + p@.len()));
            Some((a, b))
        },
        None => {
            assert forall|j: int| !occurs_at(s@, p@, j) by {
                if 0 <= j <= s@.len() {
                } else {
                }
            }
            None
        },
    }
}

/// `s` without the prefix `p`, if it begins with it (`str::strip_prefix`).
pub open spec fn strip_prefix(s: Seq<char>, p: Seq<char>) -> Option<Seq<char>> {
    if starts_with(s, p) {
        Some(s.skip(p.len() as int))
    } else {
        None
    }
}

/// `s` without the suffix `p`, if it ends with it (`str::strip_suffix`).
pub open spec fn strip_suffix(s: Seq<char>, p: Seq<char>) -> Option<Seq<char>> {
    if ends_with(s, p) {
        Some(s.take(s.len() - p.len()))
    } else {
        None
    }
}

/// `str::strip_prefix`.
pub fn strip_prefix_str(s: &str, p: &str) -> (r: Option<String>)
    ensures
        opt_string_view(r) == strip_prefix(s@, p@),
{
    let v = chars_of(s);
    let pv = chars_of(p);
    if pv.len() > v.len() {
        return None;
    }
    if chars_eq(&v, 0, pv.len(), p) {
        assert(v@.subrange(0, pv@.len() as int) =~= s@.take(p@.len() as int));
        let rest = string_of_range(&v, pv.len(), v.len());
        assert(rest@ =~= s@.skip(p@.len() as int));
        Some(rest)
    } else {
        assert(v@.subrange(0, pv@.len() as int) =~= s@.take(p@.len() as int));
        None
    }
}

/// `str::strip_suffix`.
pub fn strip_suffix_str(s: &str, p: &str) -> (r: Option<String>)
    ensures
        opt_string_view(r) == strip_suffix(s@, p@),
{
    let v = chars_of(s);
    let pv = chars_of(p);
    if pv.len() > v.len() {
        return None;
    }
    let cut = v.len() - pv.len();
    if chars_eq(&v, cut, v.len(), p) {
        assert(v@.subrange(cut as int, v@.len() as int) =~= s@.skip(s@.len() - p@.len()));
        let rest = string_of_range(&v, 0, cut);
        assert(rest@ =~= s@.take(s@.len() - p@.len()));
        Some(rest)
    } else {
        assert(v@.subrange(cut as int, v@.len() as int) =~= s@.skip(s@.len() - p@.len()));
        None
    }
}

pub open spec fn opt_string_view(o: Option<String>) -> Option<Seq<char>> {
    match o {
        Some(s) => Some(s@),
        None => None,
    }
}

// ---------------------------------------------------------------------------
// Lines
// ---------------------------------------------------------------------------

/// A line without the carriage return of a `\r\n` ending.
pub open spec fn strip_cr(l: Seq<char>) -> Seq<char> {
    if l.len() > 0 && l.last() == '\r' {
        l.drop_last()
    } else {
        l
    }
}

/// The lines of a text, as `str::lines` yields them: split at `\n`, a
/// `\r` before a `\n` removed, and no empty line after a final `\n`.
pub open spec fn lines(s: Seq<char>) -> Seq<Seq<char>>
    decreases s.len(),
{
    if s.len() == 0 {
        Seq::empty()
    } else {
        let i = first_index(s, '\n');
        if i >= s.len() {
            seq![s]
        } else {
            proof {
                lemma_first_index_bounds(s, '\n');
            }
            seq![strip_cr(s.take(i))] + lines(s.skip(i + 1))
        }
    }
}

/// A line that ends before a newline comes out of `lines` without its
/// carriage return.
pub proof fn lemma_lines_line(a: Seq<char>, b: Seq<char>)
    requires
        lacks(a, '\n'),
    ensures
        lines(a + "\n"@ + b) == seq![strip_cr(a)] + lines(b),
{
    reveal_strlit("\n");
    let s = a + "\n"@ + b;
    assert(s.take(a.len() as int) =~= a);
    assert(s[a.len() as int] == '\n');
    lemma_first_index(s, '\n', a.len() as int);
    assert(s.skip(a.len() as int + 1) =~= b);
}

/// The views of a vector of strings.
pub open spec fn views(v: Seq<String>) -> Seq<Seq<char>> {
    v.map_values(|x: String| x@)
}

/// `str::lines`.
pub fn split_lines(s: &str) -> (r: Vec<String>)
    ensures
        views(r@) == lines(s@),
{
    let v = chars_of(s);
    let mut out: Vec<String> = Vec::new();
    let mut pos: usize = 0;
    assert(v@.skip(0) =~= v@);
    assert(views(out@) =~= Seq::<Seq<char>>::empty());
    while pos < v.len()
        invariant
            pos <= v@.len(),
            v@ == s@,
            lines(s@) == views(out@) + lines(v@.skip(pos as int)),
        decreases v@.len() - pos,
    {
        let ghost rest = v@.skip(pos as int);
        let ghost before = out@;
        let nl = find_char(&v, '\n', pos);
        assert(v@.subrange(pos as int, v@.len() as int) =~= rest);
        if nl >= v.len() {
            let line = string_of_range(&v, pos, v.len());
            out.push(line);
            assert(views(out@) =~= views(before).push(rest));
            assert(v@.skip(v@.len() as int) =~= Seq::<char>::empty());
            assert(lines(s@) =~= views(out@) + lines(v@.skip(v@.len() as int)));
            pos = v.len();
        } else {
            let mut end = nl;
            if end > pos && v[end - 1] == '\r' {
                end = end - 1;
            }
            let line = string_of_range(&v, pos, end);
            assert(line@ == strip_cr(rest.take(nl - pos))) by {
                assert(rest.take(nl - pos) =~= v@.subrange(pos as int, nl as int));
                if nl > pos && v@[nl - 1] == '\r' {
                    assert(rest.take(nl - pos).drop_last() =~= v@.subrange(pos as int, end as int));
                }
            }
            out.push(line);
            assert(views(out@) =~= views(before).push(line@));
            assert(rest.skip(nl - pos + 1) =~= v@.skip(nl + 1));
            assert(lines(s@) =~= views(out@) + lines(v@.skip(nl + 1)));
            pos = nl + 1;
        }
    }
    out
}

// ---------------------------------------------------------------------------
// Whitespace
// ---------------------------------------------------------------------------

/// `char::is_whitespace`: the Unicode `White_Space` characters.
pub open spec fn is_ws(c: char) -> bool {
    ('\u{9}' <= c && c <= '\u{d}') || c == ' ' || c == '\u{85}' || c == '\u{a0}' || c
        == '\u{1680}' || ('\u{2000}' <= c && c <= '\u{200a}') || c == '\u{2028}' || c
        == '\u{2029}' || c == '\u{202f}' || c == '\u{205f}' || c == '\u{3000}'
}

pub fn is_whitespace(c: char) -> (r: bool)
    ensures
        r == is_ws(c),
{
    ('\u{9}' <= c && c <= '\u{d}') || c == ' ' || c == '\u{85}' || c == '\u{a0}' || c
        == '\u{1680}' || ('\u{2000}' <= c && c <= '\u{200a}') || c == '\u{2028}' || c
        == '\u{2029}' || c == '\u{202f}' || c == '\u{205f}' || c == '\u{3000}'
}

/// Number of whitespace characters at the start of `s`.
pub open spec fn leading_ws(s: Seq<char>) -> int
    decreases s.len(),
{
    if s.len() > 0 && is_ws(s[0]) {
        1 + leading_ws(s.drop_first())
    } else {
        0
    }
}

/// Number of whitespace characters at the end of `s`.
pub open spec fn trailing_ws(s: Seq<char>) -> int
    decreases s.len(),
{
    if s.len() > 0 && is_ws(s.last()) {
        1 + trailing_ws(s.drop_last())
    } else {
        0
    }
}

pub open spec fn trim_start(s: Seq<char>) -> Seq<char> {
    s.skip(leading_ws(s))
}

pub open spec fn trim_end(s: Seq<char>) -> Seq<char> {
    s.take(s.len() - trailing_ws(s))
}

/// `str::trim`.
pub open spec fn trim(s: Seq<char>) -> Seq<char> {
    trim_end(trim_start(s))
}

pub proof fn lemma_leading_ws(s: Seq<char>, i: int)
    requires
        0 <= i <= s.len(),
        forall|j: int| 0 <= j < i ==> is_ws(#[trigger] s[j]),
        i == s.len() || !is_ws(s[i]),
    ensures
        leading_ws(s) == i,
    decreases s.len(),
{
    if s.len() > 0 && i > 0 {
        assert(is_ws(s[0]));
        assert forall|j: int| 0 <= j < i - 1 implies is_ws(#[trigger] s.drop_first()[j]) by {
            assert(is_ws(s[j + 1]));
        }
        lemma_leading_ws(s.drop_first(), i - 1);
    }
}

pub proof fn lemma_trailing_ws(s: Seq<char>, i: int)
    requires
        0 <= i <= s.len(),
        forall|j: int| s.len() - i <= j < s.len() ==> is_ws(#[trigger] s[j]),
        i == s.len() || !is_ws(s[s.len() - i - 1]),
    ensures
        trailing_ws(s) == i,
    decreases s.len(),
{
    if s.len() > 0 && i > 0 {
        assert(is_ws(s[s.len() - 1]));
        let t = s.drop_last();
        assert forall|j: int| t.len() - (i - 1) <= j < t.len() implies is_ws(#[trigger] t[j]) by {
            assert(is_ws(s[j]));
        }
        if i - 1 < t.len() {
            assert(t[t.len() - (i - 1) - 1] == s[s.len() - i - 1]);
        }
        lemma_trailing_ws(t, i - 1);
    }
}

/// Position of the first whitespace character of `s`, `s.len()` when there
/// is none.
pub open spec fn first_ws(s: Seq<char>) -> int
    decreases s.len(),
{
    if s.len() == 0 || is_ws(s[0]) {
        0
    } else {
        1 + first_ws(s.drop_first())
    }
}

pub proof fn lemma_first_ws(s: Seq<char>, i: int)
    requires
        0 <= i <= s.len(),
        forall|j: int| 0 <= j < i ==> !is_ws(#[trigger] s[j]),
        i == s.len() || is_ws(s[i]),
    ensures
        first_ws(s) == i,
    decreases s.len(),
{
    if s.len() > 0 && i > 0 {
        assert(!is_ws(s[0]));
        assert forall|j: int| 0 <= j < i - 1 implies !is_ws(#[trigger] s.drop_first()[j]) by {
            assert(!is_ws(s[j + 1]));
        }
        lemma_first_ws(s.drop_first(), i - 1);
    }
}

/// Start and end of the trimmed part of `v`.
pub fn trim_bounds(v: &Vec<char>) -> (r: (usize, usize))
    ensures
        r.0 <= r.1 <= v@.len(),
        v@.subrange(r.0 as int, r.1 as int) == trim(v@),
{
    let mut a: usize = 0;
    while a < v.len() && is_whitespace(v[a])
        invariant
            a <= v@.len(),
            forall|j: int| 0 <= j < a ==> is_ws(#[trigger] v@[j]),
        decreases v@.len() - a,
    {
        a += 1;
    }
    proof {
        lemma_leading_ws(v@, a as int);
    }
    let ghost t = v@.skip(a as int);
    let mut b: usize = v.len();
    while b > a && is_whitespace(v[b - 1])
        invariant
            a <= b <= v@.len(),
            t == v@.skip(a as int),
            forall|j: int| b <= j < v@.len() ==> is_ws(#[trigger] v@[j]),
        decreases b,
    {
        b -= 1;
    }
    proof {
        let k = v@.len() - b;
        assert forall|j: int| t.len() - k <= j < t.len() implies is_ws(#[trigger] t[j]) by {
            assert(t[j] == v@[a + j]);
        }
        if k < t.len() {
            assert(t[t.len() - k - 1] == v@[b - 1]);
        }
        lemma_trailing_ws(t, k);
        assert(v@.subrange(a as int, b as int) =~= t.take(t.len() - k));
    }
    (a, b)
}

/// `str::trim`.
pub fn trim_str(s: &str) -> (r: String)
    ensures
        r@ == trim(s@),
{
    let v = chars_of(s);
    let (a, b) = trim_bounds(&v);
    string_of_range(&v, a, b)
}

// ---------------------------------------------------------------------------
// Splitting into pieces and words
// ---------------------------------------------------------------------------

pub proof fn lemma_leading_ws_bounds(s: Seq<char>)
    ensures
        0 <= leading_ws(s) <= s.len(),
        leading_ws(s) < s.len() ==> !is_ws(s[leading_ws(s)]),
    decreases s.len(),
{
    if s.len() > 0 && is_ws(s[0]) {
        lemma_leading_ws_bounds(s.drop_first());
    }
}

pub proof fn lemma_first_ws_bounds(s: Seq<char>)
    ensures
        0 <= first_ws(s) <= s.len(),
        s.len() > 0 && !is_ws(s[0]) ==> first_ws(s) >= 1,
    decreases s.len(),
{
    if s.len() > 0 && !is_ws(s[0]) {
        lemma_first_ws_bounds(s.drop_first());
    }
}

/// The pieces of `s` between the `c`s (`str::split` with a character).
pub open spec fn split_char(s: Seq<char>, c: char) -> Seq<Seq<char>>
    decreases s.len(),
{
    let i = first_index(s, c);
    if i < s.len() {
        proof {
            lemma_first_index_bounds(s, c);
        }
        seq![s.take(i)] + split_char(s.skip(i + 1), c)
    } else {
        seq![s]
    }
}

/// `str::split` with a character pattern.
pub fn split_str(s: &str, c: char) -> (r: Vec<String>)
    ensures
        views(r@) == split_char(s@, c),
{
    let v = chars_of(s);
    let mut out: Vec<String> = Vec::new();
    let mut pos: usize = 0;
    assert(views(out@) =~= Seq::<Seq<char>>::empty());
    assert(v@.subrange(0, v@.len() as int) =~= v@);
    assert(Seq::<Seq<char>>::empty() + split_char(v@, c) =~= split_char(v@, c));
    loop
        invariant
            pos <= v@.len(),
            v@ == s@,
            views(out@) + split_char(v@.subrange(pos as int, v@.len() as int), c) == split_char(s@, c),
        decreases v@.len() - pos,
    {
        let ghost t = v@.subrange(pos as int, v@.len() as int);
        let i = find_char(&v, c, pos);
        let piece = string_of_range(&v, pos, i);
        let ghost before = out@;
        out.push(piece);
        assert(views(out@) =~= views(before).push(piece@));
        if i < v.len() {
            proof {
                assert(t.take(i - pos) =~= v@.subrange(pos as int, i as int));
                assert(t.skip(i - pos + 1) =~= v@.subrange(i + 1, v@.len() as int));
                assert(views(before) + split_char(t, c) =~= views(out@) + split_char(v@.subrange(i + 1, v@.len() as int), c));
            }
            pos = i + 1;
        } else {
            proof {
                assert(t =~= v@.subrange(pos as int, i as int));
                assert(views(before) + split_char(t, c) =~= views(out@));
            }
            return out;
        }
    }
}

/// The whitespace-separated words of `s` (`str::split_whitespace`).
pub open spec fn words(s: Seq<char>) -> Seq<Seq<char>>
    decreases s.len(),
{
    let t = s.skip(leading_ws(s));
    if t.len() == 0 {
        Seq::empty()
    } else {
        proof {
            lemma_leading_ws_bounds(s);
            lemma_first_ws_bounds(t);
        }
        let k = first_ws(t);
        seq![t.take(k)] + words(t.skip(k))
    }
}

/// `str::split_whitespace`, collected.
pub fn words_of(s: &str) -> (r: Vec<String>)
    ensures
        views(r@) == words(s@),
{
    let v = chars_of(s);
    let mut out: Vec<String> = Vec::new();
    let mut pos: usize = 0;
    assert(views(out@) =~= Seq::<Seq<char>>::empty());
    assert(v@.subrange(0, v@.len() as int) =~= v@);
    assert(Seq::<Seq<char>>::empty() + words(v@) =~= words(v@));
    loop
        invariant
            pos <= v@.len(),
            v@ == s@,
            views(out@) + words(v@.subrange(pos as int, v@.len() as int)) == words(s@),
        decreases v@.len() - pos,
    {
        let ghost t = v@.subrange(pos as int, v@.len() as int);
        let mut a = pos;
        while a < v.len() && is_whitespace(v[a])
            invariant
                pos <= a <= v@.len(),
                forall|j: int| pos <= j < a ==> is_ws(#[trigger] v@[j]),
            decreases v@.len() - a,
        {
            a += 1;
        }
        proof {
            assert forall|j: int| 0 <= j < a - pos implies is_ws(#[trigger] t[j]) by {
                assert(t[j] == v@[pos + j]);
            }
            if a < v@.len() {
                assert(t[a - pos] == v@[a as int]);
            }
            lemma_leading_ws(t, a - pos);
            assert(t.skip(a - pos) =~= v@.subrange(a as int, v@.len() as int));
        }
        if a == v.len() {
            assert(views(out@) + words(t) =~= views(out@));
            return out;
        }
        let ghost u = v@.subrange(a as int, v@.len() as int);
        let mut b = a;
        while b < v.len() && !is_whitespace(v[b])
            invariant
                a <= b <= v@.len(),
                forall|j: int| a <= j < b ==> !is_ws(#[trigger] v@[j]),
            decreases v@.len() - b,
        {
            b += 1;
        }
        proof {
            assert forall|j: int| 0 <= j < b - a implies !is_ws(#[trigger] u[j]) by {
                assert(u[j] == v@[a + j]);
            }
            if b < v@.len() {
                assert(u[b - a] == v@[b as int]);
            }
            lemma_first_ws(u, b - a);
            assert(u.take(b - a) =~= v@.subrange(a as int, b as int));
            assert(u.skip(b - a) =~= v@.subrange(b as int, v@.len() as int));
        }
        let word = string_of_range(&v, a, b);
        let ghost before = out@;
        out.push(word);
        proof {
            assert(views(out@) =~= views(before).push(word@));
            assert(views(before) + words(t) =~= views(out@) + words(v@.subrange(b as int, v@.len() as int)));
        }
        pos = b;
    }
}

// ---------------------------------------------------------------------------
// Replacing every occurrence
// ---------------------------------------------------------------------------

/// An occurrence has a first occurrence at or before it.
pub proof fn lemma_least_occurrence(s: Seq<char>, p: Seq<char>, k: int)
    requires
        occurs_at(s, p, k),
    ensures
        exists|i: int| 0 <= i <= k && first_at(s, p, i),
    decreases k,
{
    if exists|j: int| 0 <= j < k && occurs_at(s, p, j) {
        let j = choose|j: int| 0 <= j < k && occurs_at(s, p, j);
        lemma_least_occurrence(s, p, j);
    } else {
        assert(first_at(s, p, k));
    }
}

/// A first occurrence lies within the text.
pub proof fn lemma_first_occurrence_bounds(s: Seq<char>, p: Seq<char>)
    ensures
        first_occurrence(s, p) matches Some(i) ==> first_at(s, p, i) && 0 <= i && i + p.len() <= s.len(),
{
    if contains(s, p) {
        let k = choose|k: int| occurs_at(s, p, k);
        lemma_least_occurrence(s, p, k);
    }
}

/// `s` with every occurrence of `p` replaced by `r`, from left to right
/// (`str::replace`).
pub open spec fn replace_all(s: Seq<char>, p: Seq<char>, r: Seq<char>) -> Seq<char>
    decreases s.len(),
{
    if p.len() == 0 {
        s
    } else {
        match first_occurrence(s, p) {
            None => s,
            Some(i) => {
                proof {
                    lemma_first_occurrence_bounds(s, p);
                }
                s.take(i) + r + replace_all(s.skip(i + p.len()), p, r)
            },
        }
    }
}

/// `str::replace` with a non-empty pattern.
pub fn replace_str(s: &str, p: &str, r: &str) -> (out: String)
    requires
        p@.len() > 0,
    ensures
        out@ == replace_all(s@, p@, r@),
{
    let v = chars_of(s);
    let pv = chars_of(p);
    let mut out = String::new();
    let mut pos: usize = 0;
    assert(v@.subrange(0, v@.len() as int) =~= v@);
    assert(out@ + replace_all(s@, p@, r@) =~= replace_all(s@, p@, r@));
    loop
        invariant
            pos <= v@.len(),
            v@ == s@,
            pv@ == p@,
            p@.len() > 0,
            out@ + replace_all(v@.subrange(pos as int, v@.len() as int), p@, r@) == replace_all(s@, p@, r@),
        decreases v@.len() - pos,
    {
        let ghost t = v@.subrange(pos as int, v@.len() as int);
        match find_str(&v, &pv, pos) {
            Some(i) => {
                proof {
                    assert forall|j: int| 0 <= j < i - pos implies !occurs_at(t, p@, j) by {
                        assert(!occurs_at(v@, p@, pos + j));
                        if occurs_at(t, p@, j) {
                            assert(v@.subrange(pos + j, pos + j + p@.len()) =~= t.subrange(j, j + p@.len()));
                        }
                    }
                    assert(v@.subrange(i as int, i + p@.len()) =~= t.subrange(i - pos, i - pos + p@.len()));
                    assert(first_at(t, p@, i - pos));
                    lemma_first_occurrence(t, p@, i - pos);
                    assert(t.take(i - pos) =~= v@.subrange(pos as int, i as int));
                    assert(t.skip(i - pos + p@.len()) =~= v@.subrange(i + p@.len(), v@.len() as int));
                }
                let ghost before = out@;
                let piece = string_of_range(&v, pos, i);
                push_str(&mut out, piece.as_str());
                push_str(&mut out, r);
                assert(before + replace_all(t, p@, r@) =~= out@ + replace_all(v@.subrange(i + p@.len(), v@.len() as int), p@, r@));
                let lp = pv.len();
                let n = v.len();
                assert(i + lp <= n);
                pos = i + lp;
            },
            None => {
                proof {
                    assert forall|j: int| !occurs_at(t, p@, j) by {
                        if occurs_at(t, p@, j) {
                            assert(v@.subrange(pos + j, pos + j + p@.len()) =~= t.subrange(j, j + p@.len()));
                            assert(occurs_at(v@, p@, pos + j));
                        }
                    }
                }
                let piece = string_of_range(&v, pos, v.len());
                push_str(&mut out, piece.as_str());
                return out;
            },
        }
    }
}

/// A text that neither starts nor ends with whitespace is its own trim.
pub proof fn lemma_trim_plain(s: Seq<char>)
    requires
        s.len() > 0,
        !is_ws(s[0]),
        !is_ws(s.last()),
    ensures
        trim(s) == s,
{
    lemma_leading_ws(s, 0);
    assert(s.skip(0) =~= s);
    lemma_trailing_ws(s, 0);
    assert(s.take(s.len() as int) =~= s);
}

} // verus!
