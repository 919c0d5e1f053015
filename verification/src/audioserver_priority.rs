//! The audioserver priority feature: audioserver's threads are raised to a
//! target nice value, and each thread's original value is kept in a
//! baseline file, in the shell-compatible `key=value` format, so that it
//! can be restored within the same boot and process.
use vstd::prelude::*;
use vstd::string::StringSliceAdditionalSpecFns;

use crate::operation::int_text;
use crate::text::{
    concat2, concat3, decimal, eq_str, lines, owned, parse_u32, parse_u32_spec, push_str, trim, trim_str,
    split_lines, split_once, split_once_char, strip_prefix, u32_to_string, views, words,
};

verus! {

broadcast use vstd::string::group_string_axioms;

/// The nice value audioserver's threads are raised to.
pub const TARGET_NICE: i32 = -10;

/// The marker file whose content `1` enables the feature.
pub const ENABLED_FILE: &'static str = "audioserver-priority.enabled";

/// The baseline of the threads' original nice values.
pub const BASELINE_FILE: &'static str = "audioserver-priority.baseline";

/// The argument that starts the priority monitor.
pub const WATCH_ARGUMENT: &'static str = "_audioserver-priority-watch";

// ---------------------------------------------------------------------------
// Signed numbers
// ---------------------------------------------------------------------------

/// What `i32::from_str` accepts: an optional sign, then decimal digits,
/// denoting a value that fits in 32 bits.
pub open spec fn parse_i32_spec(s: Seq<char>) -> Option<i32> {
    if s.len() > 0 && s[0] == '-' {
        let rest = s.drop_first();
        if rest.len() > 0 && rest[0] == '+' {
            None
        } else {
            match parse_u32_spec(rest) {
                Some(m) => if m <= 2147483648 {
                    Some((-(m as int)) as i32)
                } else {
                    None
                },
                None => None,
            }
        }
    } else {
        match parse_u32_spec(s) {
            Some(m) => if m <= 2147483647 {
                Some(m as i32)
            } else {
                None
            },
            None => None,
        }
    }
}

fn starts_with_char(s: &str, c: char) -> (r: bool)
    ensures
        r == (s@.len() > 0 && s@[0] == c),
{
    let v = crate::text::chars_of(s);
    v.len() > 0 && v[0] == c
}

/// Parses a decimal number the way `i32::from_str` does.
pub fn parse_i32(s: &str) -> (r: Option<i32>)
    ensures
        r == parse_i32_spec(s@),
{
    if starts_with_char(s, '-') {
        let v = crate::text::chars_of(s);
        let rest = crate::text::string_of_range(&v, 1, v.len());
        assert(rest@ =~= s@.drop_first());
        if starts_with_char(rest.as_str(), '+') {
            return None;
        }
        match parse_u32(rest.as_str()) {
            Some(m) => if m <= 2147483647 {
                Some(-(m as i32))
            } else if m == 2147483648 {
                Some(-2147483647i32 - 1)
            } else {
                None
            },
            None => None,
        }
    } else {
        match parse_u32(s) {
            Some(m) => if m <= 2147483647 {
                Some(m as i32)
            } else {
                None
            },
            None => None,
        }
    }
}

/// Reading back the decimal writing of a signed value gives the value.
pub proof fn lemma_parse_int_text(n: i32)
    ensures
        parse_i32_spec(int_text(n as int)) == Some(n),
{
    reveal_strlit("-");
    if n < 0 {
        let m = (-(n as int)) as nat;
        crate::text::lemma_decimal(m);
        crate::text::lemma_parse_decimal(m as u32);
        let s = "-"@ + decimal(m);
        assert(s[0] == '-');
        assert(s.drop_first() =~= decimal(m));
    } else {
        crate::text::lemma_decimal(n as nat);
        crate::text::lemma_parse_decimal(n as u32);
        crate::text::lemma_digit_char((decimal(n as nat)[0] as nat - 48) as nat);
        assert(crate::text::is_digit(decimal(n as nat)[0]));
    }
}

// ---------------------------------------------------------------------------
// Thread status
// ---------------------------------------------------------------------------

/// A thread's nice value and scheduling policy.
#[derive(Clone, Copy, Debug, PartialEq, Eq, Structural)]
pub struct TaskStat {
    pub nice: i32,
    pub policy: u32,
}

/// `p` occurs at `i` and nowhere after.
pub open spec fn last_at(s: Seq<char>, p: Seq<char>, i: int) -> bool {
    crate::text::occurs_at(s, p, i) && forall|j: int| i < j ==> !crate::text::occurs_at(s, p, j)
}

/// The parts before and after the last occurrence of `p`
/// (`str::rsplit_once`).
pub open spec fn rsplit_at(s: Seq<char>, p: Seq<char>) -> Option<(Seq<char>, Seq<char>)> {
    if exists|i: int| last_at(s, p, i) {
        let i = choose|i: int| last_at(s, p, i);
        Some((s.take(i), s.skip(i + p.len())))
    } else {
        None
    }
}

fn last_occurrence(v: &Vec<char>, p: &Vec<char>) -> (r: Option<usize>)
    ensures
        match r {
            Some(k) => last_at(v@, p@, k as int),
            None => forall|j: int| !crate::text::occurs_at(v@, p@, j),
        },
{
    let mut i: usize = v.len();
    loop
        invariant
            i <= v@.len(),
            forall|j: int| i < j ==> !crate::text::occurs_at(v@, p@, j),
        decreases i,
    {
        if crate::text::matches_at(v, p, i) {
            return Some(i);
        }
        if i == 0 {
            return None;
        }
        i -= 1;
    }
}

/// The nice value (field 19 of `/proc/.../stat`) and the policy (field
/// 41): counted after the command name, which may hold spaces and
/// parentheses, so from the last `) `.
pub open spec fn task_stat_spec(stat: Seq<char>) -> Option<TaskStat> {
    match rsplit_at(stat, ") "@) {
        None => None,
        Some((_, rest)) => {
            let fields = words(rest);
            if fields.len() > 38 {
                match (parse_i32_spec(fields[16]), parse_u32_spec(fields[38])) {
                    (Some(nice), Some(policy)) => Some(TaskStat { nice, policy }),
                    _ => None,
                }
            } else {
                None
            }
        },
    }
}

/// Reads a thread's nice value and scheduling policy from its status line.
pub fn parse_task_stat(stat: &str) -> (r: Option<TaskStat>)
    ensures
        r == task_stat_spec(stat@),
{
    let v = crate::text::chars_of(stat);
    let pv = crate::text::chars_of(") ");
    proof {
        reveal_strlit(") ");
    }
    let k = match last_occurrence(&v, &pv) {
        Some(k) => k,
        None => {
            assert(!exists|q: int| last_at(stat@, ") "@, q)) by {
                if exists|q: int| last_at(stat@, ") "@, q) {
                    let q = choose|q: int| last_at(stat@, ") "@, q);
                    assert(crate::text::occurs_at(stat@, ") "@, q));
                }
            }
            return None;
        },
    };
    proof {
        let q = choose|q: int| last_at(stat@, ") "@, q);
        if q < k {
            assert(!crate::text::occurs_at(stat@, ") "@, k as int));
        } else if q > k {
            assert(!crate::text::occurs_at(stat@, ") "@, q));
        }
        assert(q == k);
    }
    let rest = crate::text::string_of_range(&v, k + 2, v.len());
    assert(rest@ =~= stat@.skip(k + 2));
    let fields = crate::text::words_of(rest.as_str());
    if fields.len() <= 38 {
        return None;
    }
    assert(fields@[16]@ == views(fields@)[16]);
    assert(fields@[38]@ == views(fields@)[38]);
    let nice = parse_i32(fields[16].as_str());
    let policy = parse_u32(fields[38].as_str());
    match (nice, policy) {
        (Some(nice), Some(policy)) => Some(TaskStat { nice, policy }),
        _ => None,
    }
}

// ---------------------------------------------------------------------------
// The baseline file
// ---------------------------------------------------------------------------

/// The original nice values of audioserver's threads, for one boot and one
/// audioserver process; the threads in increasing id order, each once.
#[derive(Clone, Debug, PartialEq, Eq)]
pub struct Baseline {
    pub boot_id: String,
    pub pid: u32,
    pub tasks: Vec<(u32, i32)>,
}

pub struct BaselineView {
    pub boot_id: Seq<char>,
    pub pid: u32,
    pub tasks: Seq<(u32, i32)>,
}

impl View for Baseline {
    type V = BaselineView;

    open spec fn view(&self) -> BaselineView {
        BaselineView { boot_id: self.boot_id@, pid: self.pid, tasks: self.tasks@ }
    }
}

/// Thread ids strictly increasing.
pub open spec fn sorted_tasks(t: Seq<(u32, i32)>) -> bool {
    forall|i: int, j: int| 0 <= i < j < t.len() ==> #[trigger] t[i].0 < #[trigger] t[j].0
}

/// The first position from `i` whose thread id is not below `k`.
pub open spec fn key_pos(t: Seq<(u32, i32)>, k: u32, i: int) -> int
    decreases t.len() - i,
{
    if i < 0 || i >= t.len() {
        t.len() as int
    } else if t[i].0 >= k {
        i
    } else {
        key_pos(t, k, i + 1)
    }
}

/// The threads with `k` set to `v` (`BTreeMap::insert`).
pub open spec fn map_insert(t: Seq<(u32, i32)>, k: u32, v: i32) -> Seq<(u32, i32)> {
    let p = key_pos(t, k, 0);
    if p < t.len() && t[p].0 == k {
        t.update(p, (k, v))
    } else {
        t.insert(p, (k, v))
    }
}

/// The lines of the threads, in order.
pub open spec fn task_text(t: Seq<(u32, i32)>) -> Seq<char>
    decreases t.len(),
{
    if t.len() == 0 {
        Seq::empty()
    } else {
        "task_"@ + decimal(t[0].0 as nat) + "="@ + int_text(t[0].1 as int) + "\n"@ + task_text(t.drop_first())
    }
}

/// The baseline file: the boot id, the process id, then one line per
/// thread.
pub open spec fn baseline_text(b: BaselineView) -> Seq<char> {
    "boot_id="@ + b.boot_id + "\npid="@ + decimal(b.pid as nat) + "\n"@ + task_text(b.tasks)
}

/// What the reader knows after some lines.
pub struct ReadState {
    pub boot_id: Option<Seq<char>>,
    pub pid: Option<u32>,
    pub tasks: Seq<(u32, i32)>,
}

/// One line of a baseline file: a line without `=`, or a thread whose
/// nice value does not parse, spoils the file; unknown keys are skipped.
pub open spec fn read_step(st: ReadState, line: Seq<char>) -> Option<ReadState> {
    match split_once(line, '=') {
        None => None,
        Some((key, value)) => if key == "boot_id"@ {
            Some(ReadState { boot_id: Some(value), ..st })
        } else if key == "pid"@ {
            Some(ReadState { pid: parse_u32_spec(value), ..st })
        } else {
            match strip_prefix(key, "task_"@) {
                Some(t) => match parse_u32_spec(t) {
                    Some(tid) => match parse_i32_spec(value) {
                        Some(nice) => Some(ReadState { tasks: map_insert(st.tasks, tid, nice), ..st }),
                        None => None,
                    },
                    None => Some(st),
                },
                None => Some(st),
            }
        },
    }
}

pub open spec fn read_fold(ls: Seq<Seq<char>>, n: int) -> Option<ReadState>
    decreases n,
{
    if n <= 0 {
        Some(ReadState { boot_id: None, pid: None, tasks: Seq::empty() })
    } else {
        match read_fold(ls, n - 1) {
            None => None,
            Some(st) => read_step(st, ls[n - 1]),
        }
    }
}

/// A baseline file read back; `None` when a line is spoiled or the boot id
/// or the process id is missing.
pub open spec fn parse_baseline_spec(content: Seq<char>) -> Option<BaselineView> {
    let ls = lines(content);
    match read_fold(ls, ls.len() as int) {
        Some(st) => match (st.boot_id, st.pid) {
            (Some(boot_id), Some(pid)) => Some(BaselineView { boot_id, pid, tasks: st.tasks }),
            _ => None,
        },
        None => None,
    }
}

/// Writes the baseline file.
pub fn render_baseline(b: &Baseline) -> (r: String)
    ensures
        r@ == baseline_text(b@),
{
    let mut out = concat2("boot_id=", b.boot_id.as_str());
    push_str(&mut out, "\npid=");
    push_str(&mut out, u32_to_string(b.pid).as_str());
    push_str(&mut out, "\n");
    let ghost head = out@;
    let mut i: usize = 0;
    assert(b.tasks@.skip(0) =~= b.tasks@);
    assert(out@ + task_text(b.tasks@.skip(0)) == baseline_text(b@));
    while i < b.tasks.len()
        invariant
            i <= b.tasks@.len(),
            out@ + task_text(b.tasks@.skip(i as int)) == baseline_text(b@),
        decreases b.tasks@.len() - i,
    {
        let (tid, nice) = b.tasks[i];
        let ghost rest = b.tasks@.skip(i as int);
        assert(rest[0] == (tid, nice));
        assert(rest.drop_first() =~= b.tasks@.skip(i + 1));
        let ghost before = out@;
        push_str(&mut out, "task_");
        push_str(&mut out, u32_to_string(tid).as_str());
        push_str(&mut out, "=");
        push_str(&mut out, crate::operation::i32_to_string(nice).as_str());
        push_str(&mut out, "\n");
        assert(before + task_text(rest) =~= out@ + task_text(b.tasks@.skip(i + 1)));
        i += 1;
    }
    assert(b.tasks@.skip(i as int) =~= Seq::<(u32, i32)>::empty());
    assert(out@ + Seq::<char>::empty() =~= out@);
    out
}

fn key_position(t: &Vec<(u32, i32)>, k: u32) -> (r: usize)
    ensures
        r as int == key_pos(t@, k, 0),
        r <= t@.len(),
{
    let mut i: usize = 0;
    while i < t.len()
        invariant
            i <= t@.len(),
            key_pos(t@, k, 0) == key_pos(t@, k, i as int),
        decreases t@.len() - i,
    {
        if t[i].0 >= k {
            return i;
        }
        i += 1;
    }
    i
}

fn insert_task(t: &mut Vec<(u32, i32)>, k: u32, v: i32)
    ensures
        final(t)@ == map_insert(old(t)@, k, v),
{
    let p = key_position(t, k);
    if p < t.len() && t[p].0 == k {
        t.set(p, (k, v));
    } else {
        t.insert(p, (k, v));
    }
}

/// Reads a baseline file.
pub fn parse_baseline(content: &str) -> (r: Option<Baseline>)
    ensures
        match parse_baseline_spec(content@) {
            Some(b) => r matches Some(x) && x@ == b,
            None => r is None,
        },
        r matches Some(x) ==> sorted_tasks(x.tasks@),
{
    let ls = split_lines(content);
    let ghost lv = lines(content@);
    let mut boot_id: Option<String> = None;
    let mut pid: Option<u32> = None;
    let mut tasks: Vec<(u32, i32)> = Vec::new();
    let mut i: usize = 0;
    while i < ls.len()
        invariant
            i <= ls@.len(),
            views(ls@) == lv,
            lv == lines(content@),
            read_fold(lv, i as int) == Some(ReadState { boot_id: crate::domain::opt_view(boot_id), pid, tasks: tasks@ }),
            sorted_tasks(tasks@),
        decreases ls@.len() - i,
    {
        assert(ls@[i as int]@ == lv[i as int]);
        let line = ls[i].as_str();
        let (key, value) = match split_once_char(line, '=') {
            Some(kv) => kv,
            None => {
                proof {
                    lemma_read_fold_none(lv, i + 1, lv.len() as int);
                }
                return None;
            },
        };
        if eq_str(key.as_str(), "boot_id") {
            boot_id = Some(value);
        } else if eq_str(key.as_str(), "pid") {
            pid = parse_u32(value.as_str());
        } else {
            match crate::text::strip_prefix_str(key.as_str(), "task_") {
                Some(t) => match parse_u32(t.as_str()) {
                    Some(tid) => match parse_i32(value.as_str()) {
                        Some(nice) => {
                            proof {
                                lemma_map_insert_sorted(tasks@, tid, nice);
                            }
                            insert_task(&mut tasks, tid, nice);
                        },
                        None => {
                            proof {
                                lemma_read_fold_none(lv, i + 1, lv.len() as int);
                            }
                            return None;
                        },
                    },
                    None => {},
                },
                None => {},
            }
        }
        i += 1;
    }
    match (boot_id, pid) {
        (Some(b), Some(p)) => Some(Baseline { boot_id: b, pid: p, tasks }),
        _ => None,
    }
}

proof fn lemma_read_fold_none(ls: Seq<Seq<char>>, i: int, n: int)
    requires
        1 <= i <= n,
        read_fold(ls, i) is None,
    ensures
        read_fold(ls, n) is None,
    decreases n - i,
{
    if i < n {
        lemma_read_fold_none(ls, i, n - 1);
    }
}

// ---------------------------------------------------------------------------
// Reading back what was written
// ---------------------------------------------------------------------------

/// The line of a thread.
pub open spec fn task_line(e: (u32, i32)) -> Seq<char> {
    "task_"@ + decimal(e.0 as nat) + "="@ + int_text(e.1 as int)
}

proof fn lemma_decimal_plain(n: nat)
    ensures
        crate::text::lacks(decimal(n), '\n'),
        crate::text::lacks(decimal(n), '\r'),
        crate::text::lacks(decimal(n), '='),
{
    crate::text::lemma_decimal(n);
    assert forall|j: int| 0 <= j < decimal(n).len() implies decimal(n)[j] != '\n' && decimal(n)[j] != '\r' && decimal(n)[j] != '=' by {
        assert(crate::text::is_digit(decimal(n)[j]));
    }
}

proof fn lemma_task_line_plain(e: (u32, i32))
    ensures
        crate::text::lacks(task_line(e), '\n'),
        crate::text::strip_cr(task_line(e)) == task_line(e),
        split_once(task_line(e), '=') == Some(("task_"@ + decimal(e.0 as nat), int_text(e.1 as int))),
{
    reveal_strlit("task_");
    reveal_strlit("=");
    reveal_strlit("-");
    lemma_decimal_plain(e.0 as nat);
    let m = if e.1 < 0 { (-(e.1 as int)) as nat } else { e.1 as nat };
    lemma_decimal_plain(m);
    let k = "task_"@ + decimal(e.0 as nat);
    let v = int_text(e.1 as int);
    assert(crate::text::lacks(k, '=')) by {
        assert forall|j: int| 0 <= j < k.len() implies k[j] != '=' by {
            if j >= 5 {
                assert(k[j] == decimal(e.0 as nat)[j - 5]);
            }
        }
    }
    assert(crate::text::lacks(v, '\n') && crate::text::lacks(v, '\r')) by {
        assert forall|j: int| 0 <= j < v.len() implies v[j] != '\n' && v[j] != '\r' by {
            if e.1 < 0 {
                if j >= 1 {
                    assert(v[j] == decimal(m)[j - 1]);
                }
            } else {
                assert(v[j] == decimal(m)[j]);
            }
        }
    }
    assert(task_line(e) =~= k + seq!['='] + v);
    crate::text::lemma_split_once_join(k, '=', v);
    let l = task_line(e);
    assert forall|j: int| 0 <= j < l.len() implies l[j] != '\n' && l[j] != '\r' by {
        if j < k.len() {
            assert(l[j] == k[j]);
            if j >= 5 {
                assert(k[j] == decimal(e.0 as nat)[j - 5]);
            }
        } else if j > k.len() {
            assert(l[j] == v[j - k.len() - 1]);
        }
    }
    lemma_decimal_plain(e.0 as nat);
    crate::text::lemma_decimal(m);
    assert(l.len() > 0 && l.last() != '\r');
}

proof fn lemma_task_lines(t: Seq<(u32, i32)>)
    ensures
        lines(task_text(t)) == t.map_values(|e: (u32, i32)| task_line(e)),
    decreases t.len(),
{
    if t.len() == 0 {
        assert(lines(Seq::<char>::empty()) =~= Seq::<Seq<char>>::empty());
        assert(t.map_values(|e: (u32, i32)| task_line(e)) =~= Seq::<Seq<char>>::empty());
    } else {
        lemma_task_line_plain(t[0]);
        lemma_task_lines(t.drop_first());
        assert(task_text(t) =~= task_line(t[0]) + "\n"@ + task_text(t.drop_first()));
        crate::text::lemma_lines_line(task_line(t[0]), task_text(t.drop_first()));
        assert(t.map_values(|e: (u32, i32)| task_line(e)) =~= seq![task_line(t[0])]
            + t.drop_first().map_values(|e: (u32, i32)| task_line(e)));
    }
}

proof fn lemma_key_pos_end(t: Seq<(u32, i32)>, k: u32, i: int)
    requires
        0 <= i <= t.len(),
        forall|q: int| i <= q < t.len() ==> #[trigger] t[q].0 < k,
    ensures
        key_pos(t, k, i) == t.len(),
    decreases t.len() - i,
{
    if i < t.len() {
        lemma_key_pos_end(t, k, i + 1);
    }
}

proof fn lemma_read_tasks(ls: Seq<Seq<char>>, b: BaselineView, j: int)
    requires
        sorted_tasks(b.tasks),
        0 <= j <= b.tasks.len(),
        ls.len() == 2 + b.tasks.len(),
        forall|q: int| 0 <= q < b.tasks.len() ==> ls[2 + q] == task_line(#[trigger] b.tasks[q]),
        read_fold(ls, 2) == Some(ReadState { boot_id: Some(b.boot_id), pid: Some(b.pid), tasks: Seq::empty() }),
    ensures
        read_fold(ls, 2 + j) == Some(ReadState { boot_id: Some(b.boot_id), pid: Some(b.pid), tasks: b.tasks.take(j) }),
    decreases j,
{
    reveal_strlit("task_");
    reveal_strlit("boot_id");
    reveal_strlit("pid");
    if j == 0 {
        assert(b.tasks.take(0) =~= Seq::<(u32, i32)>::empty());
    } else {
        lemma_read_tasks(ls, b, j - 1);
        let e = b.tasks[j - 1];
        lemma_task_line_plain(e);
        let key = "task_"@ + decimal(e.0 as nat);
        assert(key[0] == 't');
        assert("boot_id"@[0] == 'b');
        assert("pid"@[0] == 'p');
        assert(key != "boot_id"@);
        assert(key != "pid"@);
        assert(key.take(5) =~= "task_"@);
        assert(key.skip(5) =~= decimal(e.0 as nat));
        crate::text::lemma_parse_decimal(e.0);
        lemma_parse_int_text(e.1);
        let before = b.tasks.take(j - 1);
        assert forall|q: int| 0 <= q < before.len() implies #[trigger] before[q].0 < e.0 by {
            assert(before[q] == b.tasks[q]);
        }
        lemma_key_pos_end(before, e.0, 0);
        assert(before.insert(before.len() as int, e) =~= b.tasks.take(j));
    }
}

/// The two header lines set the boot id and the process id.
proof fn lemma_read_header(ls: Seq<Seq<char>>, b: BaselineView)
    requires
        ls.len() >= 2,
        ls[0] == "boot_id="@ + b.boot_id,
        ls[1] == "pid="@ + decimal(b.pid as nat),
    ensures
        read_fold(ls, 2) == Some(ReadState { boot_id: Some(b.boot_id), pid: Some(b.pid), tasks: Seq::empty() }),
{
    reveal_strlit("boot_id=");
    reveal_strlit("pid=");
    reveal_strlit("boot_id");
    reveal_strlit("pid");
    let init = ReadState { boot_id: None, pid: None, tasks: Seq::empty() };
    assert(read_fold(ls, 0) == Some(init));
    assert(crate::text::lacks("boot_id"@, '='));
    assert(crate::text::lacks("pid"@, '='));
    assert(ls[0] =~= "boot_id"@ + seq!['='] + b.boot_id);
    crate::text::lemma_split_once_join("boot_id"@, '=', b.boot_id);
    let st1 = ReadState { boot_id: Some(b.boot_id), pid: None, tasks: Seq::empty() };
    assert(read_step(init, ls[0]) == Some(st1));
    assert(read_fold(ls, 1) == Some(st1));
    assert(ls[1] =~= "pid"@ + seq!['='] + decimal(b.pid as nat));
    crate::text::lemma_split_once_join("pid"@, '=', decimal(b.pid as nat));
    assert("pid"@ != "boot_id"@) by {
        assert("pid"@.len() != "boot_id"@.len());
    }
    crate::text::lemma_parse_decimal(b.pid);
    assert(read_step(st1, ls[1]) == Some(ReadState { boot_id: Some(b.boot_id), pid: Some(b.pid), tasks: Seq::empty() }));
}

/// The lines of a baseline file: the two header lines, then the threads.
proof fn lemma_baseline_lines(b: BaselineView)
    requires
        crate::text::lacks(b.boot_id, '\n'),
        b.boot_id.len() == 0 || b.boot_id.last() != '\r',
    ensures
        lines(baseline_text(b)) == seq!["boot_id="@ + b.boot_id, "pid="@ + decimal(b.pid as nat)]
            + b.tasks.map_values(|e: (u32, i32)| task_line(e)),
{
    reveal_strlit("boot_id=");
    reveal_strlit("\npid=");
    reveal_strlit("pid=");
    reveal_strlit("\n");
    let l0 = "boot_id="@ + b.boot_id;
    let l1 = "pid="@ + decimal(b.pid as nat);
    let tail = task_text(b.tasks);
    assert(baseline_text(b) =~= l0 + "\n"@ + (l1 + "\n"@ + tail));
    assert(crate::text::lacks(l0, '\n')) by {
        assert forall|j: int| 0 <= j < l0.len() implies l0[j] != '\n' by {
            if j >= 8 {
                assert(l0[j] == b.boot_id[j - 8]);
            }
        }
    }
    lemma_decimal_plain(b.pid as nat);
    crate::text::lemma_decimal(b.pid as nat);
    assert(crate::text::lacks(l1, '\n')) by {
        assert forall|j: int| 0 <= j < l1.len() implies l1[j] != '\n' by {
            if j >= 4 {
                assert(l1[j] == decimal(b.pid as nat)[j - 4]);
            }
        }
    }
    crate::text::lemma_lines_line(l0, l1 + "\n"@ + tail);
    crate::text::lemma_lines_line(l1, tail);
    assert(crate::text::strip_cr(l0) == l0);
    assert(l1.last() == decimal(b.pid as nat).last());
    assert(crate::text::strip_cr(l1) == l1);
    lemma_task_lines(b.tasks);
    assert(seq![l0] + (seq![l1] + b.tasks.map_values(|e: (u32, i32)| task_line(e)))
        =~= seq![l0, l1] + b.tasks.map_values(|e: (u32, i32)| task_line(e)));
}

/// A baseline file reads back as the baseline that was written, provided
/// its boot id holds no newline and does not end with a carriage return.
pub proof fn lemma_baseline_round_trip(b: BaselineView)
    requires
        sorted_tasks(b.tasks),
        crate::text::lacks(b.boot_id, '\n'),
        b.boot_id.len() == 0 || b.boot_id.last() != '\r',
    ensures
        parse_baseline_spec(baseline_text(b)) == Some(b),
{
    lemma_baseline_lines(b);
    let ls = lines(baseline_text(b));
    let m = b.tasks.map_values(|e: (u32, i32)| task_line(e));
    assert(ls.len() == 2 + b.tasks.len());
    lemma_read_header(ls, b);
    assert forall|q: int| 0 <= q < b.tasks.len() implies ls[2 + q] == task_line(#[trigger] b.tasks[q]) by {
        assert(ls[2 + q] == m[q]);
    }
    lemma_read_tasks(ls, b, b.tasks.len() as int);
    assert(b.tasks.take(b.tasks.len() as int) =~= b.tasks);
}

// ---------------------------------------------------------------------------
// Keeping the baseline
// ---------------------------------------------------------------------------

/// Where `k` would go: every thread before the position has a smaller id,
/// and the thread at the position, if any, has an id of at least `k`.
proof fn lemma_key_pos(t: Seq<(u32, i32)>, k: u32, i: int)
    requires
        0 <= i <= t.len(),
        forall|q: int| 0 <= q < i ==> #[trigger] t[q].0 < k,
    ensures
        i <= key_pos(t, k, i) <= t.len(),
        forall|q: int| 0 <= q < key_pos(t, k, i) ==> #[trigger] t[q].0 < k,
        key_pos(t, k, i) < t.len() ==> t[key_pos(t, k, i)].0 >= k,
    decreases t.len() - i,
{
    if i < t.len() && t[i].0 < k {
        lemma_key_pos(t, k, i + 1);
    }
}

/// Setting a thread keeps the ids in increasing order.
pub proof fn lemma_map_insert_sorted(t: Seq<(u32, i32)>, k: u32, v: i32)
    requires
        sorted_tasks(t),
    ensures
        sorted_tasks(map_insert(t, k, v)),
        has_task(map_insert(t, k, v), k),
{
    lemma_key_pos(t, k, 0);
    let p = key_pos(t, k, 0);
    let r = map_insert(t, k, v);
    if p < t.len() && t[p].0 == k {
        assert forall|i: int, j: int| 0 <= i < j < r.len() implies #[trigger] r[i].0 < #[trigger] r[j].0 by {
            assert(r[i].0 == t[i].0);
            assert(r[j].0 == t[j].0);
        }
        assert(r[p].0 == k);
    } else {
        assert forall|i: int, j: int| 0 <= i < j < r.len() implies #[trigger] r[i].0 < #[trigger] r[j].0 by {
            if j < p {
            } else if j == p {
            } else if i < p {
                assert(r[j] == t[j - 1]);
                if j - 1 > p {
                    assert(t[p].0 < t[j - 1].0);
                }
            } else if i == p {
                assert(r[j] == t[j - 1]);
                if j - 1 > p {
                    assert(t[p].0 < t[j - 1].0);
                }
            } else {
                assert(r[i] == t[i - 1]);
                assert(r[j] == t[j - 1]);
            }
        }
        assert(r[p].0 == k);
    }
}

/// Whether the baseline holds thread `tid`.
pub open spec fn has_task(t: Seq<(u32, i32)>, tid: u32) -> bool {
    exists|i: int| 0 <= i < t.len() && #[trigger] t[i].0 == tid
}

/// Whether the baseline holds thread `tid`.
pub fn holds_task(t: &Vec<(u32, i32)>, tid: u32) -> (r: bool)
    ensures
        r == has_task(t@, tid),
{
    let mut i: usize = 0;
    while i < t.len()
        invariant
            i <= t@.len(),
            forall|q: int| 0 <= q < i ==> #[trigger] t@[q].0 != tid,
        decreases t@.len() - i,
    {
        if t[i].0 == tid {
            assert(t@[i as int].0 == tid);
            return true;
        }
        i += 1;
    }
    false
}

/// The baseline to extend: the stored one when it belongs to this boot and
/// this audioserver process, else an empty one for them.
pub fn baseline_for(existing: Option<Baseline>, boot_id: String, pid: u32) -> (r: Baseline)
    ensures
        match existing {
            Some(b) => if b.boot_id@ == boot_id@ && b.pid == pid {
                r@ == b@
            } else {
                r@ == BaselineView { boot_id: boot_id@, pid, tasks: Seq::empty() }
            },
            None => r@ == BaselineView { boot_id: boot_id@, pid, tasks: Seq::empty() },
        },
{
    match existing {
        Some(b) => {
            if eq_str(b.boot_id.as_str(), boot_id.as_str()) && b.pid == pid {
                b
            } else {
                Baseline { boot_id, pid, tasks: Vec::new() }
            }
        },
        None => Baseline { boot_id, pid, tasks: Vec::new() },
    }
}

/// Records a thread's original nice value, unless the baseline holds the
/// thread already; says whether it was added.
pub fn record_task(b: &mut Baseline, tid: u32, nice: i32) -> (added: bool)
    ensures
        added == !has_task(old(b)@.tasks, tid),
        final(b)@ == (if added {
            BaselineView { tasks: map_insert(old(b)@.tasks, tid, nice), ..old(b)@ }
        } else {
            old(b)@
        }),
{
    if holds_task(&b.tasks, tid) {
        false
    } else {
        insert_task(&mut b.tasks, tid, nice);
        true
    }
}

/// Whether a stored baseline may be restored: it belongs to the running
/// boot and to the running audioserver process.
pub fn restore_applies(b: &Baseline, boot_id: &str, pid: Option<u32>) -> (r: bool)
    ensures
        r == (b.boot_id@ == boot_id@ && pid == Some(b.pid)),
{
    eq_str(b.boot_id.as_str(), boot_id) && match pid {
        Some(p) => p == b.pid,
        None => false,
    }
}

// ---------------------------------------------------------------------------
// Raising and restoring threads
// ---------------------------------------------------------------------------

/// A thread is raised unless it runs at the target nice value or higher
/// already, or under a real-time or deadline policy (1, 2 or 6).
pub open spec fn raise_spec(stat: TaskStat) -> bool {
    !(stat.nice <= TARGET_NICE || stat.policy == 1 || stat.policy == 2 || stat.policy == 6)
}

/// Whether a thread is raised to the target nice value.
pub fn needs_raise(stat: TaskStat) -> (r: bool)
    ensures
        r == raise_spec(stat),
{
    !(stat.nice <= TARGET_NICE || stat.policy == 1 || stat.policy == 2 || stat.policy == 6)
}

/// Whether a thread is given its original nice value back: only one that
/// still runs at the target value.
pub fn needs_restore(stat: TaskStat) -> (r: bool)
    ensures
        r == (stat.nice == TARGET_NICE),
{
    stat.nice == TARGET_NICE
}

/// What one pass over audioserver's threads changed.
#[derive(Clone, Copy, Debug, PartialEq, Eq, Structural)]
pub struct PriorityChange {
    pub adjusted: usize,
    pub restored: usize,
}

/// The count of threads changed in a pass, and the failures met.
pub struct Tally {
    pub done: usize,
    pub failures: Vec<String>,
}

/// The report of a thread that could not be changed.
pub open spec fn failure_entry(tid: u32, error: Seq<char>) -> Seq<char> {
    decimal(tid as nat) + ": "@ + error
}

impl Tally {
    /// A pass with nothing done yet.
    pub fn new() -> (r: Tally)
        ensures
            r.done == 0,
            r.failures@.len() == 0,
    {
        Tally { done: 0, failures: Vec::new() }
    }

    /// Notes the attempt on one thread: a success counts; a failure counts
    /// against the pass only while the thread still exists.
    pub fn note(&mut self, tid: u32, error: Option<&str>, task_present: bool)
        requires
            old(self).done < usize::MAX,
        ensures
            match error {
                None => final(self).done == old(self).done + 1
                    && views(final(self).failures@) == views(old(self).failures@),
                Some(e) => final(self).done == old(self).done
                    && views(final(self).failures@) == if task_present {
                        views(old(self).failures@).push(failure_entry(tid, e@))
                    } else {
                        views(old(self).failures@)
                    },
            },
    {
        match error {
            None => {
                self.done = self.done + 1;
            },
            Some(e) => {
                if task_present {
                    let entry = concat3(u32_to_string(tid).as_str(), ": ", e);
                    self.failures.push(entry);
                    assert(views(self.failures@) =~= views(old(self).failures@).push(entry@));
                }
            },
        }
    }
}

/// The result of a pass: the count when nothing failed, else the failures
/// after `prefix`, separated by commas.
pub open spec fn pass_outcome(done: nat, failures: Seq<Seq<char>>, prefix: Seq<char>) -> Result<nat, Seq<char>> {
    if failures.len() == 0 {
        Ok(done)
    } else {
        Err(prefix + crate::state_file::join_with(failures, ", "@))
    }
}

fn finish_pass(t: &Tally, prefix: &str) -> (r: Result<usize, String>)
    ensures
        match pass_outcome(t.done as nat, views(t.failures@), prefix@) {
            Ok(n) => r == Ok::<usize, String>(n as usize),
            Err(m) => r matches Err(e) && e@ == m,
        },
{
    if t.failures.len() == 0 {
        Ok(t.done)
    } else {
        let joined = crate::dynamic_direct::join_names(&t.failures, ", ");
        Err(concat2(prefix, joined.as_str()))
    }
}

/// The result of raising the threads.
pub fn raise_outcome(t: &Tally) -> (r: Result<PriorityChange, String>)
    ensures
        match pass_outcome(t.done as nat, views(t.failures@), "cannot raise audioserver thread priority: "@) {
            Ok(n) => r == Ok::<PriorityChange, String>(PriorityChange { adjusted: n as usize, restored: 0 }),
            Err(m) => r matches Err(e) && e@ == m,
        },
{
    match finish_pass(t, "cannot raise audioserver thread priority: ") {
        Ok(n) => Ok(PriorityChange { adjusted: n, restored: 0 }),
        Err(e) => Err(e),
    }
}

/// The result of restoring the threads.
pub fn restore_outcome(t: &Tally) -> (r: Result<PriorityChange, String>)
    ensures
        match pass_outcome(t.done as nat, views(t.failures@), "cannot restore audioserver thread priority: "@) {
            Ok(n) => r == Ok::<PriorityChange, String>(PriorityChange { adjusted: 0, restored: n as usize }),
            Err(m) => r matches Err(e) && e@ == m,
        },
{
    match finish_pass(t, "cannot restore audioserver thread priority: ") {
        Ok(n) => Ok(PriorityChange { adjusted: 0, restored: n }),
        Err(e) => Err(e),
    }
}

// ---------------------------------------------------------------------------
// The marker, the pid file and the monitor
// ---------------------------------------------------------------------------

/// Whether the marker file's content enables the feature.
pub fn enabled_marker(content: &str) -> (r: bool)
    ensures
        r == (trim(content@) == "1"@),
{
    let t = trim_str(content);
    eq_str(t.as_str(), "1")
}

/// The process id written in a pid file.
pub fn read_pid(content: &str) -> (r: Option<u32>)
    ensures
        r == parse_u32_spec(trim(content@)),
{
    let t = trim_str(content);
    parse_u32(t.as_str())
}

/// The bytes `i..j` of a command line form one of its NUL-separated
/// arguments.
pub open spec fn argument_at(s: Seq<u8>, i: int, j: int) -> bool {
    &&& 0 <= i <= j <= s.len()
    &&& i == 0 || s[i - 1] == 0
    &&& j == s.len() || s[j] == 0
    &&& forall|k: int| i <= k < j ==> s[k] != 0
}

/// Some argument of the command line is `a`.
pub open spec fn has_argument(s: Seq<u8>, a: Seq<u8>) -> bool {
    exists|i: int, j: int| argument_at(s, i, j) && s.subrange(i, j) == a
}

/// Some argument of the command line ends with `a`.
pub open spec fn has_argument_ending(s: Seq<u8>, a: Seq<u8>) -> bool {
    exists|i: int, j: int| argument_at(s, i, j) && j - i >= a.len() && s.subrange(j - a.len(), j) == a
}

fn lacks_nul(a: &[u8]) -> (r: bool)
    ensures
        r == (forall|k: int| 0 <= k < a@.len() ==> a@[k] != 0),
{
    let mut k: usize = 0;
    while k < a.len()
        invariant
            k <= a@.len(),
            forall|q: int| 0 <= q < k ==> a@[q] != 0,
        decreases a@.len() - k,
    {
        if a[k] == 0 {
            return false;
        }
        k += 1;
    }
    true
}

fn bytes_at(s: &[u8], a: &[u8], at: usize) -> (r: bool)
    requires
        at + a.len() <= s.len(),
    ensures
        r == (s@.subrange(at as int, at + a@.len()) == a@),
{
    let mut k: usize = 0;
    while k < a.len()
        invariant
            k <= a.len(),
            at + a.len() <= s.len(),
            forall|q: int| 0 <= q < k ==> s@[at + q] == a@[q],
        decreases a@.len() - k,
    {
        if s[at + k] != a[k] {
            assert(s@.subrange(at as int, at + a@.len())[k as int] != a@[k as int]);
            return false;
        }
        k += 1;
    }
    assert(s@.subrange(at as int, at + a@.len()) =~= a@);
    true
}

/// Whether some NUL-separated argument of `cmdline` equals `arg`.
proof fn lemma_no_argument(s: Seq<u8>, a: Seq<u8>)
    requires
        a.len() <= s.len(),
        forall|p: int| 0 <= p <= s.len() - a.len() ==> !(argument_at(s, p, p + a.len()) && #[trigger] s.subrange(p, p + a.len()) == a),
    ensures
        !has_argument(s, a),
{
    assert forall|p: int, j: int| argument_at(s, p, j) implies s.subrange(p, j) != a by {
        if s.subrange(p, j) == a {
            assert(j == p + a.len());
            assert(s.subrange(p, p + a.len()) == a);
        }
    }
}

pub fn command_has(cmdline: &[u8], arg: &[u8]) -> (r: bool)
    ensures
        r == has_argument(cmdline@, arg@),
{
    if !lacks_nul(arg) {
        proof {
            let q = choose|q: int| 0 <= q < arg@.len() && arg@[q] == 0;
            assert forall|i: int, j: int| argument_at(cmdline@, i, j) implies cmdline@.subrange(i, j) != arg@ by {
                if cmdline@.subrange(i, j) == arg@ {
                    assert(cmdline@[i + q] == arg@[q]);
                }
            }
        }
        return false;
    }
    if arg.len() > cmdline.len() {
        return false;
    }
    let n = arg.len();
    let last = cmdline.len() - n;
    let mut i: usize = 0;
    while i <= last
        invariant
            n == arg@.len(),
            last == cmdline@.len() - n,
            i <= last + 1,
            forall|k: int| 0 <= k < n ==> arg@[k] != 0,
            forall|p: int| 0 <= p < i ==> !(argument_at(cmdline@, p, p + n) && #[trigger] cmdline@.subrange(p, p + n) == arg@),
        decreases last + 1 - i,
    {
        let start_ok = i == 0 || cmdline[i - 1] == 0;
        let end_ok = i + n == cmdline.len() || cmdline[i + n] == 0;
        if start_ok && end_ok && bytes_at(cmdline, arg, i) {
            proof {
                assert forall|k: int| i <= k < i + n implies cmdline@[k] != 0 by {
                    assert(cmdline@[k] == cmdline@.subrange(i as int, i + n)[k - i]);
                }
                assert(argument_at(cmdline@, i as int, i + n) && cmdline@.subrange(i as int, i + n) == arg@);
            }
            return true;
        }
        if i == last {
            proof {
                lemma_no_argument(cmdline@, arg@);
            }
            return false;
        }
        i += 1;
    }
    proof {
        lemma_no_argument(cmdline@, arg@);
    }
    false
}

/// A stretch without NUL bytes that ends where an argument ends lies in
/// one argument.
proof fn lemma_argument_start(s: Seq<u8>, j0: int, j: int)
    requires
        0 <= j0 <= j <= s.len(),
        j == s.len() || s[j] == 0,
        forall|k: int| j0 <= k < j ==> s[k] != 0,
    ensures
        exists|i: int| i <= j0 && argument_at(s, i, j),
    decreases j0,
{
    if j0 == 0 || s[j0 - 1] == 0 {
        assert(argument_at(s, j0, j));
    } else {
        lemma_argument_start(s, j0 - 1, j);
    }
}

/// Whether some NUL-separated argument of `cmdline` ends with `suffix`.
pub fn command_has_ending(cmdline: &[u8], suffix: &[u8]) -> (r: bool)
    ensures
        r == has_argument_ending(cmdline@, suffix@),
{
    let n = suffix.len();
    if !lacks_nul(suffix) {
        proof {
            let q = choose|q: int| 0 <= q < n && suffix@[q] == 0;
            assert forall|i: int, j: int| argument_at(cmdline@, i, j) && j - i >= n implies cmdline@.subrange(j - n, j) != suffix@ by {
                if cmdline@.subrange(j - n, j) == suffix@ {
                    assert(cmdline@[j - n + q] == suffix@[q]);
                }
            }
        }
        return false;
    }
    if n > cmdline.len() {
        return false;
    }
    let len = cmdline.len();
    let mut j: usize = n;
    while j <= len
        invariant
            n == suffix@.len(),
            len == cmdline@.len(),
            n <= j <= len,
            forall|k: int| 0 <= k < n ==> suffix@[k] != 0,
            forall|q: int| n <= q < j ==> !((q == len || cmdline@[q] == 0) && #[trigger] cmdline@.subrange(q - n, q) == suffix@),
        decreases len - j,
    {
        let end_ok = j == len || cmdline[j] == 0;
        if end_ok && bytes_at(cmdline, suffix, j - n) {
            proof {
                assert(cmdline@.subrange(j - n, j as int) == suffix@);
                assert forall|k: int| j - n <= k < j implies cmdline@[k] != 0 by {
                    assert(cmdline@[k] == cmdline@.subrange(j - n, j as int)[k - (j - n)]);
                }
                lemma_argument_start(cmdline@, j - n, j as int);
                let i = choose|i: int| i <= j - n && argument_at(cmdline@, i, j as int);
                assert(argument_at(cmdline@, i, j as int) && j - i >= n && cmdline@.subrange(j - n, j as int) == suffix@);
            }
            return true;
        }
        if j == len {
            proof {
                lemma_no_argument_ending(cmdline@, suffix@);
            }
            return false;
        }
        j += 1;
    }
    false
}

proof fn lemma_no_argument_ending(s: Seq<u8>, a: Seq<u8>)
    requires
        a.len() <= s.len(),
        forall|q: int| a.len() <= q <= s.len() ==> !((q == s.len() || s[q] == 0) && #[trigger] s.subrange(q - a.len(), q) == a),
    ensures
        !has_argument_ending(s, a),
{
    assert forall|i: int, j: int| argument_at(s, i, j) && j - i >= a.len() implies s.subrange(j - a.len(), j) != a by {
        if s.subrange(j - a.len(), j) == a {
            assert(!((j == s.len() || s[j] == 0) && s.subrange(j - a.len(), j) == a));
        }
    }
}

/// Whether a process's command line is that of the priority monitor.
pub fn is_watch_process(cmdline: &[u8]) -> (r: bool)
    ensures
        r == has_argument(cmdline@, WATCH_ARGUMENT.spec_bytes()),
{
    command_has(cmdline, WATCH_ARGUMENT.as_bytes())
}

/// The script of the monitor that came before this one.
pub const LEGACY_WATCH_SCRIPT: &'static str = "audioserver-priority.sh";

/// Whether a process's command line is that of the earlier monitor script:
/// an argument naming the script and an argument `watch`.
pub fn is_legacy_watch_process(cmdline: &[u8]) -> (r: bool)
    ensures
        r == (has_argument_ending(cmdline@, LEGACY_WATCH_SCRIPT.spec_bytes())
            && has_argument(cmdline@, "watch".spec_bytes())),
{
    command_has_ending(cmdline, LEGACY_WATCH_SCRIPT.as_bytes()) && command_has(cmdline, "watch".as_bytes())
}

// ---------------------------------------------------------------------------
// The priority lock and the monitor's steps
// ---------------------------------------------------------------------------

/// The refusal of the operation lock while another operation holds it.
pub const OPERATION_BUSY: &'static str = "another audio operation is still running";

/// How often the priority lock is tried, and the pause between tries.
pub const LOCK_ATTEMPTS: u32 = 50;

pub const LOCK_RETRY_MS: u64 = 100;

/// The error once every try at the priority lock was refused.
pub const LOCK_TIMEOUT: &'static str = "timed out waiting for audioserver priority state lock";

/// What a refused try at the priority lock leads to: `None`, to wait and
/// try again, while another operation holds the lock; else the error.
pub fn lock_refusal(error: &str) -> (r: Option<String>)
    ensures
        if error@ == OPERATION_BUSY@ {
            r is None
        } else {
            r matches Some(m) && m@ == "cannot lock audioserver priority state: "@ + error@
        },
{
    if eq_str(error, OPERATION_BUSY) {
        None
    } else {
        Some(concat2("cannot lock audioserver priority state: ", error))
    }
}

/// The monitor's next step.
#[derive(Clone, Copy, Debug, PartialEq, Eq, Structural)]
pub enum WatchStep {
    /// The controller executable is gone: the monitor ends.
    Stop,
    /// The feature is on, or a baseline is left to restore.
    Reconcile,
    /// Nothing to do until the next pass.
    Idle,
}

/// Decides the monitor's next step.
pub fn watch_step(executable_present: bool, enabled: bool, baseline_present: bool) -> (r: WatchStep)
    ensures
        r == (if !executable_present {
            WatchStep::Stop
        } else if enabled || baseline_present {
            WatchStep::Reconcile
        } else {
            WatchStep::Idle
        }),
{
    if !executable_present {
        WatchStep::Stop
    } else if enabled || baseline_present {
        WatchStep::Reconcile
    } else {
        WatchStep::Idle
    }
}

/// The pause after a pass of the monitor, in milliseconds: shorter while
/// the feature is on.
pub fn watch_interval_ms(enabled: bool) -> (r: u64)
    ensures
        r == (if enabled {
            2000u64
        } else {
            5000u64
        }),
{
    if enabled {
        2000
    } else {
        5000
    }
}

/// How the monitor is started.
#[derive(Clone, Copy, Debug, PartialEq, Eq, Structural)]
pub enum StartStep {
    /// The feature is off and no baseline is left: no monitor is needed.
    NotNeeded,
    /// The process named in the pid file is the monitor already.
    Running,
    /// A monitor is started, after the pid file is removed when it names
    /// another process.
    Spawn { remove_stale_pid: bool },
}

/// Decides how the monitor is started; `recorded_is_monitor` says, when the
/// pid file names a process, whether that process is the monitor.
pub fn start_step(enabled: bool, baseline_present: bool, recorded_is_monitor: Option<bool>) -> (r: StartStep)
    ensures
        r == (if !enabled && !baseline_present {
            StartStep::NotNeeded
        } else {
            match recorded_is_monitor {
                Some(true) => StartStep::Running,
                Some(false) => StartStep::Spawn { remove_stale_pid: true },
                None => StartStep::Spawn { remove_stale_pid: false },
            }
        }),
{
    if !enabled && !baseline_present {
        StartStep::NotNeeded
    } else {
        match recorded_is_monitor {
            Some(true) => StartStep::Running,
            Some(false) => StartStep::Spawn { remove_stale_pid: true },
            None => StartStep::Spawn { remove_stale_pid: false },
        }
    }
}

/// The lines printed after the feature is switched.
pub open spec fn setting_report_spec(enabled: bool, change: PriorityChange) -> Seq<char> {
    "audioserver_priority="@ + crate::state::bool_text(enabled)
        + "\naudioserver_priority_target="@ + int_text(TARGET_NICE as int)
        + "\naudioserver_priority_adjusted="@ + decimal(change.adjusted as nat)
        + "\naudioserver_priority_restored="@ + decimal(change.restored as nat) + "\n"@
}

/// Reports the feature's new setting and what switching it changed.
pub fn priority_setting_report(enabled: bool, change: PriorityChange) -> (r: String)
    ensures
        r@ == setting_report_spec(enabled, change),
{
    let mut out = owned("audioserver_priority=");
    push_str(&mut out, if enabled { "1" } else { "0" });
    push_str(&mut out, "\naudioserver_priority_target=");
    push_str(&mut out, crate::operation::i32_to_string(TARGET_NICE).as_str());
    push_str(&mut out, "\naudioserver_priority_adjusted=");
    push_str(&mut out, crate::text::u64_to_string(change.adjusted as u64).as_str());
    push_str(&mut out, "\naudioserver_priority_restored=");
    push_str(&mut out, crate::text::u64_to_string(change.restored as u64).as_str());
    push_str(&mut out, "\n");
    out
}

} // verus!
