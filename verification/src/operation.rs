//! What an operation reports: its kind, result and how much of it may have
//! reached the system; the progress of phased and batched mutations; and
//! the machine-readable fields printed for every run.
use vstd::prelude::*;

use crate::domain::NamespaceInfo;
use vstd::string::StringSliceAdditionalSpecFns;
use crate::text::{concat2, decimal, owned, push_str, u64_to_string, views};

verus! {

broadcast use vstd::string::group_string_axioms;

/// The cap on each captured output stream, in bytes.
pub const EXECUTION_OUTPUT_LIMIT: usize = 65536;

// ---------------------------------------------------------------------------
// Kinds and results
// ---------------------------------------------------------------------------

/// Whether an operation only reads the system or changes it.
#[derive(Clone, Copy, Debug, PartialEq, Eq, Structural)]
pub enum OperationKind {
    Query,
    Mutation,
}

impl OperationKind {
    pub open spec fn label_spec(self) -> Seq<char> {
        match self {
            OperationKind::Query => "query"@,
            OperationKind::Mutation => "mutation"@,
        }
    }

    pub fn label(self) -> (r: &'static str)
        ensures
            r@ == self.label_spec(),
    {
        match self {
            OperationKind::Query => "query",
            OperationKind::Mutation => "mutation",
        }
    }
}

/// How an operation ended.
#[derive(Clone, Copy, Debug, PartialEq, Eq, Structural)]
pub enum OperationResult {
    Success,
    Failed,
    TimedOut,
    NotStarted,
}

impl OperationResult {
    pub open spec fn label_spec(self) -> Seq<char> {
        match self {
            OperationResult::Success => "success"@,
            OperationResult::Failed => "failed"@,
            OperationResult::TimedOut => "timed_out"@,
            OperationResult::NotStarted => "not_started"@,
        }
    }

    pub fn label(self) -> (r: &'static str)
        ensures
            r@ == self.label_spec(),
    {
        match self {
            OperationResult::Success => "success",
            OperationResult::Failed => "failed",
            OperationResult::TimedOut => "timed_out",
            OperationResult::NotStarted => "not_started",
        }
    }
}

/// How much of a mutation may have reached the system.
#[derive(Clone, Copy, Debug, PartialEq, Eq, Structural)]
pub enum OperationState {
    NotStarted,
    Applied,
    PartiallyApplied,
    PossiblyApplied,
}

impl OperationState {
    pub open spec fn label_spec(self) -> Seq<char> {
        match self {
            OperationState::NotStarted => "not_started"@,
            OperationState::Applied => "applied"@,
            OperationState::PartiallyApplied => "partially_applied"@,
            OperationState::PossiblyApplied => "possibly_applied"@,
        }
    }

    pub fn label(self) -> (r: &'static str)
        ensures
            r@ == self.label_spec(),
    {
        match self {
            OperationState::NotStarted => "not_started",
            OperationState::Applied => "applied",
            OperationState::PartiallyApplied => "partially_applied",
            OperationState::PossiblyApplied => "possibly_applied",
        }
    }

    /// The historical `operation_applied` flag: set only for a complete
    /// application.
    pub fn legacy_applied(self) -> (r: bool)
        ensures
            r == (self == OperationState::Applied),
    {
        matches!(self, OperationState::Applied)
    }
}

/// `1` or `0`.
pub open spec fn flag_text(b: bool) -> Seq<char> {
    if b {
        "1"@
    } else {
        "0"@
    }
}

fn flag_str(b: bool) -> (r: &'static str)
    ensures
        r@ == flag_text(b),
{
    if b {
        "1"
    } else {
        "0"
    }
}

/// The contract fields of an operation: a mutation also states how much of
/// it was applied.
pub open spec fn contract_spec(
    kind: OperationKind,
    result: OperationResult,
    operation_applied: bool,
    operation_state: Option<OperationState>,
) -> Seq<char> {
    "operation_kind="@ + kind.label_spec() + "\noperation_result="@ + result.label_spec()
        + "\noperation_applied="@ + flag_text(operation_applied) + "\n"@ + if kind
        == OperationKind::Mutation {
        "operation_state="@ + operation_state->0.label_spec() + "\n"@
    } else {
        Seq::empty()
    }
}

/// Renders the contract fields of an operation.
pub fn render_operation_contract(
    kind: OperationKind,
    result: OperationResult,
    operation_applied: bool,
    operation_state: Option<OperationState>,
) -> (r: String)
    requires
        kind == OperationKind::Mutation ==> operation_state is Some,
    ensures
        r@ == contract_spec(kind, result, operation_applied, operation_state),
{
    let mut fields = concat2("operation_kind=", kind.label());
    push_str(&mut fields, "\noperation_result=");
    push_str(&mut fields, result.label());
    push_str(&mut fields, "\noperation_applied=");
    push_str(&mut fields, flag_str(operation_applied));
    push_str(&mut fields, "\n");
    if let OperationKind::Mutation = kind {
        if let Some(state) = operation_state {
            push_str(&mut fields, "operation_state=");
            push_str(&mut fields, state.label());
            push_str(&mut fields, "\n");
        }
    }
    fields
}

/// How the upstream command ended, and the code it is reported with: a
/// timeout is 124, and an exit without a code (a signal) counts as 1.
pub open spec fn upstream_spec(timed_out: bool, exit_code: Option<i32>) -> (Seq<char>, i32) {
    if timed_out {
        ("timeout"@, 124)
    } else {
        let code = match exit_code {
            Some(c) => c,
            None => 1,
        };
        (if code == 0 {
            "ok"@
        } else {
            "failed"@
        }, code)
    }
}

/// Classifies the end of the upstream command.
pub fn classify_upstream(timed_out: bool, exit_code: Option<i32>) -> (r: (&'static str, i32))
    ensures
        (r.0@, r.1) == upstream_spec(timed_out, exit_code),
{
    if timed_out {
        ("timeout", 124)
    } else {
        let code = match exit_code {
            Some(c) => c,
            None => 1,
        };
        (if code == 0 {
            "ok"
        } else {
            "failed"
        }, code)
    }
}

/// The result of an operation: a timeout first, then whether it started at
/// all, then its final code.
pub open spec fn operation_result_spec(final_code: i32, timed_out: bool, started: bool) -> OperationResult {
    if timed_out {
        OperationResult::TimedOut
    } else if !started {
        OperationResult::NotStarted
    } else if final_code == 0 {
        OperationResult::Success
    } else {
        OperationResult::Failed
    }
}

pub fn classify_operation_result(final_code: i32, timed_out: bool, operation_started: bool) -> (r:
    OperationResult)
    ensures
        r == operation_result_spec(final_code, timed_out, operation_started),
{
    if timed_out {
        OperationResult::TimedOut
    } else if !operation_started {
        OperationResult::NotStarted
    } else if final_code == 0 {
        OperationResult::Success
    } else {
        OperationResult::Failed
    }
}

/// Whether the state may record an operation: a query that succeeded; a
/// mutation whose business phase succeeded, or, without phases, that was
/// applied completely.
pub open spec fn persistence_spec(
    kind: OperationKind,
    upstream_succeeded: bool,
    operation_state: Option<OperationState>,
    phased_business_succeeded: Option<bool>,
) -> bool {
    match kind {
        OperationKind::Query => upstream_succeeded,
        OperationKind::Mutation => match phased_business_succeeded {
            Some(b) => b,
            None => operation_state == Some(OperationState::Applied),
        },
    }
}

pub fn persistence_allowed_with_progress(
    kind: OperationKind,
    upstream_succeeded: bool,
    operation_state: Option<OperationState>,
    phased_business_succeeded: Option<bool>,
) -> (r: bool)
    ensures
        r == persistence_spec(kind, upstream_succeeded, operation_state, phased_business_succeeded),
{
    match kind {
        OperationKind::Query => upstream_succeeded,
        OperationKind::Mutation => match phased_business_succeeded {
            Some(b) => b,
            None => match operation_state {
                Some(OperationState::Applied) => true,
                _ => false,
            },
        },
    }
}

/// Whether an operation without phases may be recorded in the state.
pub fn persistence_allowed(
    kind: OperationKind,
    upstream_succeeded: bool,
    operation_state: Option<OperationState>,
) -> (r: bool)
    ensures
        r == persistence_spec(kind, upstream_succeeded, operation_state, None),
{
    persistence_allowed_with_progress(kind, upstream_succeeded, operation_state, None)
}

// ---------------------------------------------------------------------------
// Captured output
// ---------------------------------------------------------------------------

/// What running a script gave: its exit code (none after a signal), its
/// captured output, and whether it timed out or its output was cut.
pub struct ExecutionResult {
    pub exit_code: Option<i32>,
    pub stdout: Vec<u8>,
    pub stderr: Vec<u8>,
    pub timed_out: bool,
    pub stdout_truncated: bool,
    pub stderr_truncated: bool,
}

/// The lines of a byte stream as `str::lines` gives them: split at `\n`,
/// a `\r` before a `\n` removed, no empty line after a final `\n`.
pub open spec fn byte_lines(s: Seq<u8>) -> Seq<Seq<u8>>
    decreases s.len(),
{
    if s.len() == 0 {
        Seq::empty()
    } else {
        let i = first_byte(s, 10);
        if i >= s.len() {
            seq![s]
        } else {
            proof {
                lemma_first_byte_bounds(s, 10);
            }
            seq![strip_cr_bytes(s.take(i))] + byte_lines(s.skip(i + 1))
        }
    }
}

pub open spec fn strip_cr_bytes(l: Seq<u8>) -> Seq<u8> {
    if l.len() > 0 && l.last() == 13 {
        l.drop_last()
    } else {
        l
    }
}

/// Index of the first `b` in `s`, `s.len()` when there is none.
pub open spec fn first_byte(s: Seq<u8>, b: u8) -> int
    decreases s.len(),
{
    if s.len() == 0 {
        0
    } else if s[0] == b {
        0
    } else {
        1 + first_byte(s.drop_first(), b)
    }
}

pub proof fn lemma_first_byte_bounds(s: Seq<u8>, b: u8)
    ensures
        0 <= first_byte(s, b) <= s.len(),
        first_byte(s, b) < s.len() ==> s[first_byte(s, b)] == b,
        forall|j: int| 0 <= j < first_byte(s, b) ==> s[j] != b,
    decreases s.len(),
{
    if s.len() > 0 && s[0] != b {
        lemma_first_byte_bounds(s.drop_first(), b);
        assert forall|j: int| 0 <= j < first_byte(s, b) implies s[j] != b by {
            if j > 0 {
                assert(s[j] == s.drop_first()[j - 1]);
            }
        }
    }
}

/// The line by which a generated script announces that its upstream
/// command is about to run.
pub open spec fn started_marker() -> Seq<u8> {
    "controller_upstream_started=1"@.map_values(|c: char| c as u8)
}

/// Some line of `s` is the start marker.
pub open spec fn has_started_line(s: Seq<u8>) -> bool {
    byte_lines(s).contains(started_marker())
}

const STARTED_MARKER: [u8; 29] = [
    99, 111, 110, 116, 114, 111, 108, 108, 101, 114, 95, 117, 112, 115, 116, 114, 101, 97, 109, 95,
    115, 116, 97, 114, 116, 101, 100, 61, 49,
];

proof fn lemma_started_marker()
    ensures
        STARTED_MARKER@ == started_marker(),
{
    reveal_strlit("controller_upstream_started=1");
    assert(STARTED_MARKER@ =~= started_marker());
}

/// Whether bytes `lo..hi` of `v` are the start marker.
fn is_marker(v: &Vec<u8>, lo: usize, hi: usize) -> (r: bool)
    requires
        lo <= hi <= v@.len(),
    ensures
        r == (v@.subrange(lo as int, hi as int) == started_marker()),
{
    proof {
        lemma_started_marker();
    }
    let m = STARTED_MARKER;
    assert(started_marker().len() == 29) by {
        assert(STARTED_MARKER@.len() == 29);
    }
    if hi - lo != 29 {
        return false;
    }
    let mut i: usize = 0;
    while i < 29
        invariant
            i <= 29,
            hi - lo == 29,
            lo <= hi <= v@.len(),
            m@ == started_marker(),
            forall|j: int| 0 <= j < i ==> v@[lo + j] == m@[j],
        decreases 29 - i,
    {
        if v[lo + i] != m[i] {
            assert(v@.subrange(lo as int, hi as int)[i as int] != started_marker()[i as int]);
            return false;
        }
        i += 1;
    }
    assert(v@.subrange(lo as int, hi as int) =~= started_marker());
    true
}

/// Whether some line of `v` is the start marker.
pub fn has_started_marker(v: &Vec<u8>) -> (r: bool)
    ensures
        r == has_started_line(v@),
{
    let mut pos: usize = 0;
    assert(v@.skip(0) =~= v@);
    while pos < v.len()
        invariant
            pos <= v@.len(),
            has_started_line(v@) == has_started_line(v@.skip(pos as int)),
        decreases v@.len() - pos,
    {
        let ghost rest = v@.skip(pos as int);
        let mut end = pos;
        while end < v.len() && v[end] != 10
            invariant
                pos <= end <= v@.len(),
                forall|j: int| pos <= j < end ==> v@[j] != 10,
            decreases v@.len() - end,
        {
            end += 1;
        }
        proof {
            lemma_first_byte_at(rest, 10, end - pos);
        }
        if end >= v.len() {
            assert(byte_lines(rest) =~= seq![rest]);
            assert(rest =~= v@.subrange(pos as int, end as int));
            let found = is_marker(v, pos, end);
            proof {
                if found {
                    assert(seq![rest][0] == started_marker());
                }
            }
            return found;
        }
        let mut line_end = end;
        if line_end > pos && v[line_end - 1] == 13 {
            line_end = line_end - 1;
        }
        let ghost line = strip_cr_bytes(rest.take(end - pos));
        assert(line =~= v@.subrange(pos as int, line_end as int)) by {
            assert(rest.take(end - pos) =~= v@.subrange(pos as int, end as int));
        }
        assert(rest.skip(end - pos + 1) =~= v@.skip(end + 1));
        assert(byte_lines(rest) == seq![line] + byte_lines(v@.skip(end + 1)));
        if is_marker(v, pos, line_end) {
            assert(byte_lines(rest)[0] == started_marker());
            return true;
        }
        assert((seq![line] + byte_lines(v@.skip(end + 1))).contains(started_marker())
            == byte_lines(v@.skip(end + 1)).contains(started_marker())) by {
            let a = seq![line];
            let b = byte_lines(v@.skip(end + 1));
            if (a + b).contains(started_marker()) {
                let k = choose|k: int| 0 <= k < (a + b).len() && (a + b)[k] == started_marker();
                if k > 0 {
                    assert(b[k - 1] == started_marker());
                }
            }
            if b.contains(started_marker()) {
                let k = choose|k: int| 0 <= k < b.len() && b[k] == started_marker();
                assert((a + b)[k + 1] == started_marker());
            }
        }
        pos = end + 1;
    }
    assert(byte_lines(v@.skip(pos as int)) =~= Seq::<Seq<u8>>::empty());
    false
}

proof fn lemma_first_byte_at(s: Seq<u8>, b: u8, i: int)
    requires
        0 <= i <= s.len(),
        forall|j: int| 0 <= j < i ==> s[j] != b,
        i == s.len() || s[i] == b,
    ensures
        first_byte(s, b) == i,
    decreases s.len(),
{
    if s.len() > 0 && i > 0 {
        lemma_first_byte_at(s.drop_first(), b, i - 1);
    }
}

/// Whether the upstream command announced its start on either stream.
pub fn upstream_started(output: &ExecutionResult) -> (r: bool)
    ensures
        r == (has_started_line(output.stdout@) || has_started_line(output.stderr@)),
{
    has_started_marker(&output.stdout) || has_started_marker(&output.stderr)
}

/// How much a single mutation may have changed: applied when it succeeded,
/// possibly applied once its upstream command announced itself, else not
/// started.
pub open spec fn single_state_spec(stdout: Seq<u8>, stderr: Seq<u8>, timed_out: bool, upstream_code: i32) -> OperationState {
    if !timed_out && upstream_code == 0 {
        OperationState::Applied
    } else if has_started_line(stdout + seq![10u8] + stderr) {
        OperationState::PossiblyApplied
    } else {
        OperationState::NotStarted
    }
}

/// Classifies how much a single mutation may have changed.
pub fn classify_operation_state(output: &ExecutionResult, timed_out: bool, upstream_code: i32) -> (r:
    OperationState)
    ensures
        r == single_state_spec(output.stdout@, output.stderr@, timed_out, upstream_code),
{
    if !timed_out && upstream_code == 0 {
        return OperationState::Applied;
    }
    let mut combined: Vec<u8> = Vec::new();
    let mut i: usize = 0;
    while i < output.stdout.len()
        invariant
            i <= output.stdout@.len(),
            combined@ == output.stdout@.take(i as int),
        decreases output.stdout@.len() - i,
    {
        combined.push(output.stdout[i]);
        assert(combined@ =~= output.stdout@.take(i + 1));
        i += 1;
    }
    assert(output.stdout@.take(output.stdout@.len() as int) =~= output.stdout@);
    combined.push(10);
    let mut j: usize = 0;
    while j < output.stderr.len()
        invariant
            j <= output.stderr@.len(),
            combined@ == output.stdout@ + seq![10u8] + output.stderr@.take(j as int),
        decreases output.stderr@.len() - j,
    {
        combined.push(output.stderr[j]);
        assert(combined@ =~= output.stdout@ + seq![10u8] + output.stderr@.take(j + 1));
        j += 1;
    }
    assert(output.stderr@.take(output.stderr@.len() as int) =~= output.stderr@);
    if has_started_marker(&combined) {
        OperationState::PossiblyApplied
    } else {
        OperationState::NotStarted
    }
}

/// How a script is run: directly when the controller is in the global
/// namespace, else through the mount master.
pub fn script_runner(namespace: &NamespaceInfo) -> (r: (&'static str, String))
    ensures
        namespace.is_global_spec() == Some(true) ==> r.0@ == "current-namespace"@ && r.1@
            == "/system/bin/sh -s"@,
        namespace.is_global_spec() != Some(true) ==> r.0@ == "mount-master"@ && r.1@
            == "su --mount-master -c '/system/bin/sh -s'"@,
{
    match namespace.is_global() {
        Some(true) => ("current-namespace", owned("/system/bin/sh -s")),
        _ => ("mount-master", owned("su --mount-master -c '/system/bin/sh -s'")),
    }
}

// ---------------------------------------------------------------------------
// Progress of phased and batched mutations
// ---------------------------------------------------------------------------

/// Where one phase or step of a mutation stands.
#[derive(Clone, Copy, Debug, PartialEq, Eq, Structural)]
pub enum ProgressState {
    Pending,
    Running,
    Succeeded,
    Failed(i32),
    TimedOut { total_budget: bool },
    StartFailed,
    SkippedPriorFailure,
    SkippedTotalTimeout,
}

impl ProgressState {
    /// A phase that ran: it may have changed the system.
    pub open spec fn started_spec(self) -> bool {
        self is Running || self is Succeeded || self is Failed || self is TimedOut
    }

    pub fn started(&self) -> (r: bool)
        ensures
            r == self.started_spec(),
    {
        matches!(
            self,
            ProgressState::Running | ProgressState::Succeeded | ProgressState::Failed(_)
                | ProgressState::TimedOut { .. }
        )
    }

    pub fn succeeded(&self) -> (r: bool)
        ensures
            r == (*self is Succeeded),
    {
        matches!(self, ProgressState::Succeeded)
    }
}

/// A phase that is absent or succeeded.
pub open spec fn done_or_absent(p: Option<ProgressState>) -> bool {
    match p {
        None => true,
        Some(s) => s is Succeeded,
    }
}

/// The business, restart and verification phases of an Extras mutation.
#[derive(Clone, Copy, Debug, PartialEq, Eq, Structural)]
pub struct PhasedMutationProgress {
    pub business: ProgressState,
    pub restart: Option<ProgressState>,
    pub verification: Option<ProgressState>,
}

/// How much a phased mutation applied: all of it when every present phase
/// succeeded, part of it when the business phase did, possibly some when it
/// ran, else nothing.
pub open spec fn phased_state_spec(p: PhasedMutationProgress) -> OperationState {
    if p.business is Succeeded && done_or_absent(p.restart) && done_or_absent(p.verification) {
        OperationState::Applied
    } else if p.business is Succeeded {
        OperationState::PartiallyApplied
    } else if p.business.started_spec() {
        OperationState::PossiblyApplied
    } else {
        OperationState::NotStarted
    }
}

fn is_done_or_absent(p: Option<ProgressState>) -> (r: bool)
    ensures
        r == done_or_absent(p),
{
    match p {
        None => true,
        Some(s) => s.succeeded(),
    }
}

/// The word a phase's state is reported with.
pub open spec fn phase_word(s: ProgressState) -> Seq<char> {
    match s {
        ProgressState::Pending => "pending"@,
        ProgressState::Running => "running"@,
        ProgressState::Succeeded => "succeeded"@,
        ProgressState::Failed(code) => "failed:"@ + int_text(code as int),
        ProgressState::TimedOut { .. } => "timed_out"@,
        ProgressState::StartFailed => "start_failed"@,
        ProgressState::SkippedPriorFailure => "skipped_prior_failure"@,
        ProgressState::SkippedTotalTimeout => "skipped_total_timeout"@,
    }
}

/// The decimal writing of an integer, with a `-` for a negative one.
pub open spec fn int_text(n: int) -> Seq<char> {
    if n < 0 {
        "-"@ + decimal((-n) as nat)
    } else {
        decimal(n as nat)
    }
}

/// Writes a signed integer in decimal.
pub fn i32_to_string(n: i32) -> (r: String)
    ensures
        r@ == int_text(n as int),
{
    if n < 0 {
        let m: u64 = (-(n as i64)) as u64;
        let mut out = owned("-");
        crate::text::push_decimal(&mut out, m);
        out
    } else {
        crate::text::u64_to_string(n as u64)
    }
}

fn phase_word_of(s: ProgressState) -> (r: String)
    ensures
        r@ == phase_word(s),
{
    match s {
        ProgressState::Pending => owned("pending"),
        ProgressState::Running => owned("running"),
        ProgressState::Succeeded => owned("succeeded"),
        ProgressState::Failed(code) => {
            let digits = i32_to_string(code);
            concat2("failed:", digits.as_str())
        },
        ProgressState::TimedOut { .. } => owned("timed_out"),
        ProgressState::StartFailed => owned("start_failed"),
        ProgressState::SkippedPriorFailure => owned("skipped_prior_failure"),
        ProgressState::SkippedTotalTimeout => owned("skipped_total_timeout"),
    }
}

/// The marker line of a named phase.
pub open spec fn phase_marker(name: Seq<char>, s: ProgressState) -> Seq<char> {
    "mutation_phase_"@ + name + "="@ + phase_word(s) + "\n"@
}

/// The markers of a phased mutation, one per present phase.
pub open spec fn phased_markers_spec(p: PhasedMutationProgress) -> Seq<char> {
    phase_marker("business"@, p.business) + match p.restart {
        Some(r) => phase_marker("restart"@, r),
        None => Seq::empty(),
    } + match p.verification {
        Some(v) => phase_marker("verification"@, v),
        None => Seq::empty(),
    }
}

fn push_phase_marker(out: &mut String, name: &str, s: ProgressState)
    ensures
        final(out)@ == old(out)@ + phase_marker(name@, s),
{
    push_str(out, "mutation_phase_");
    push_str(out, name);
    push_str(out, "=");
    let w = phase_word_of(s);
    push_str(out, w.as_str());
    push_str(out, "\n");
}

impl PhasedMutationProgress {
    pub fn operation_state(&self) -> (r: OperationState)
        ensures
            r == phased_state_spec(*self),
    {
        if self.business.succeeded() && is_done_or_absent(self.restart) && is_done_or_absent(
            self.verification,
        ) {
            OperationState::Applied
        } else if self.business.succeeded() {
            OperationState::PartiallyApplied
        } else if self.business.started() {
            OperationState::PossiblyApplied
        } else {
            OperationState::NotStarted
        }
    }

    /// The state may record the action once its business phase succeeded.
    pub fn persistence_ready(&self) -> (r: bool)
        ensures
            r == (self.business is Succeeded),
    {
        self.business.succeeded()
    }

    /// The Bluetooth route is checked only after every later phase succeeded.
    pub fn post_check_ready(&self) -> (r: bool)
        ensures
            r == (done_or_absent(self.restart) && done_or_absent(self.verification)),
    {
        is_done_or_absent(self.restart) && is_done_or_absent(self.verification)
    }

    pub fn render_markers(&self) -> (r: String)
        ensures
            r@ == phased_markers_spec(*self),
    {
        let mut markers = String::new();
        push_phase_marker(&mut markers, "business", self.business);
        if let Some(restart) = self.restart {
            push_phase_marker(&mut markers, "restart", restart);
        }
        if let Some(verification) = self.verification {
            push_phase_marker(&mut markers, "verification", verification);
        }
        markers
    }
}

/// A step or verification of a reapply batch.
#[derive(Clone, Debug)]
pub struct StepProgress {
    pub number: usize,
    pub label: String,
    pub timeout_seconds: u64,
    pub state: ProgressState,
}

/// The restart of a reapply batch.
#[derive(Clone, Copy, Debug, PartialEq, Eq, Structural)]
pub struct RestartProgress {
    pub timeout_seconds: u64,
    pub state: ProgressState,
}

/// The progress of a reapply batch.
#[derive(Clone, Debug)]
pub struct ReapplyProgress {
    pub total_timeout_seconds: u64,
    pub total_timed_out: bool,
    pub steps: Vec<StepProgress>,
    pub restart: Option<RestartProgress>,
    pub verifications: Vec<StepProgress>,
}

/// The states of a list of steps.
pub open spec fn step_states(v: Seq<StepProgress>) -> Seq<ProgressState> {
    v.map_values(|s: StepProgress| s.state)
}

/// Every state, in order: steps, restart, verifications.
pub open spec fn batch_states(p: ReapplyProgress) -> Seq<ProgressState> {
    step_states(p.steps@) + match p.restart {
        Some(r) => seq![r.state],
        None => Seq::empty(),
    } + step_states(p.verifications@)
}

/// How much a batch applied: all of it when there was work and all of it
/// succeeded; part when something succeeded; possibly some when something
/// ran; else nothing.
pub open spec fn batch_state_spec(p: ReapplyProgress) -> OperationState {
    let states = batch_states(p);
    if states.len() > 0 && forall|i: int| 0 <= i < states.len() ==> (#[trigger] states[i]) is Succeeded {
        OperationState::Applied
    } else if exists|i: int| 0 <= i < states.len() && (#[trigger] states[i]) is Succeeded {
        OperationState::PartiallyApplied
    } else if exists|i: int| 0 <= i < states.len() && (#[trigger] states[i]).started_spec() {
        OperationState::PossiblyApplied
    } else {
        OperationState::NotStarted
    }
}

fn collect_states(p: &ReapplyProgress) -> (r: Vec<ProgressState>)
    ensures
        r@ == batch_states(*p),
{
    let mut out: Vec<ProgressState> = Vec::new();
    let mut i: usize = 0;
    while i < p.steps.len()
        invariant
            i <= p.steps@.len(),
            out@ == step_states(p.steps@).take(i as int),
        decreases p.steps@.len() - i,
    {
        out.push(p.steps[i].state);
        assert(out@ =~= step_states(p.steps@).take(i + 1));
        i += 1;
    }
    assert(step_states(p.steps@).take(p.steps@.len() as int) =~= step_states(p.steps@));
    let ghost base = out@;
    if let Some(r) = p.restart {
        out.push(r.state);
    }
    let ghost mid = out@;
    assert(mid =~= base + match p.restart {
        Some(r) => seq![r.state],
        None => Seq::empty(),
    });
    let mut j: usize = 0;
    while j < p.verifications.len()
        invariant
            j <= p.verifications@.len(),
            out@ == mid + step_states(p.verifications@).take(j as int),
        decreases p.verifications@.len() - j,
    {
        out.push(p.verifications[j].state);
        assert(out@ =~= mid + step_states(p.verifications@).take(j + 1));
        j += 1;
    }
    assert(step_states(p.verifications@).take(p.verifications@.len() as int) =~= step_states(
        p.verifications@,
    ));
    out
}

impl ReapplyProgress {
    pub fn operation_state(&self) -> (r: OperationState)
        ensures
            r == batch_state_spec(*self),
    {
        let states = collect_states(self);
        let mut all = true;
        let mut any_succeeded = false;
        let mut any_started = false;
        let mut i: usize = 0;
        while i < states.len()
            invariant
                i <= states@.len(),
                all == forall|j: int| 0 <= j < i ==> (#[trigger] states@[j]) is Succeeded,
                any_succeeded == exists|j: int| 0 <= j < i && (#[trigger] states@[j]) is Succeeded,
                any_started == exists|j: int| 0 <= j < i && (#[trigger] states@[j]).started_spec(),
            decreases states@.len() - i,
        {
            let s = states[i];
            if s.succeeded() {
                any_succeeded = true;
            } else {
                all = false;
            }
            if s.started() {
                any_started = true;
            }
            i += 1;
        }
        if states.len() > 0 && all {
            OperationState::Applied
        } else if any_succeeded {
            OperationState::PartiallyApplied
        } else if any_started {
            OperationState::PossiblyApplied
        } else {
            OperationState::NotStarted
        }
    }

    /// The Bluetooth route is checked only after the restart, if any, and
    /// every verification succeeded.
    pub fn post_check_ready(&self) -> (r: bool)
        ensures
            r == (match self.restart {
                Some(rs) => rs.state is Succeeded,
                None => true,
            } && forall|i: int|
                0 <= i < self.verifications@.len() ==> (#[trigger] self.verifications@[i]).state is Succeeded),
    {
        let restart_ok = match self.restart {
            Some(rs) => rs.state.succeeded(),
            None => true,
        };
        let mut i: usize = 0;
        while i < self.verifications.len()
            invariant
                i <= self.verifications@.len(),
                forall|j: int| 0 <= j < i ==> (#[trigger] self.verifications@[j]).state is Succeeded,
            decreases self.verifications@.len() - i,
        {
            if !self.verifications[i].state.succeeded() {
                return false;
            }
            i += 1;
        }
        restart_ok
    }
}

// ---------------------------------------------------------------------------
// Batch markers
// ---------------------------------------------------------------------------

/// The markers of a batch step's state; `n` is its number.
pub open spec fn step_state_text(n: Seq<char>, s: ProgressState) -> Seq<char> {
    match s {
        ProgressState::Pending => Seq::empty(),
        ProgressState::Running => "batch_step_started="@ + n + "\n"@,
        ProgressState::Succeeded => "batch_step_started="@ + n + "\nbatch_step_timed_out="@ + n
            + ":0\nbatch_step_exit="@ + n + ":0\n"@,
        ProgressState::Failed(code) => "batch_step_started="@ + n + "\nbatch_step_timed_out="@ + n
            + ":0\nbatch_step_exit="@ + n + ":"@ + int_text(code as int) + "\n"@,
        ProgressState::TimedOut { total_budget } => "batch_step_started="@ + n
            + "\nbatch_step_timed_out="@ + n + ":1\nbatch_step_exit="@ + n + ":124\n"@ + if total_budget {
            "batch_timeout_scope=total\n"@
        } else {
            "batch_timeout_scope=step:"@ + n + "\n"@
        },
        ProgressState::StartFailed => "batch_step_start_failed="@ + n + "\nbatch_step_exit="@ + n
            + ":125\n"@,
        ProgressState::SkippedPriorFailure => "batch_step_skipped="@ + n + ":prior-failure\n"@,
        ProgressState::SkippedTotalTimeout => "batch_step_skipped="@ + n
            + ":total-timeout\nbatch_timeout_scope=total\n"@,
    }
}

/// The markers of a verification's state; `n` is its number.
pub open spec fn verification_state_text(n: Seq<char>, s: ProgressState) -> Seq<char> {
    match s {
        ProgressState::Pending => Seq::empty(),
        ProgressState::Running => "batch_verification_started="@ + n + "\n"@,
        ProgressState::Succeeded => "batch_verification_started="@ + n
            + "\nbatch_verification_timed_out="@ + n + ":0\nbatch_verification_exit="@ + n + ":0\n"@,
        ProgressState::Failed(code) => "batch_verification_started="@ + n
            + "\nbatch_verification_timed_out="@ + n + ":0\nbatch_verification_exit="@ + n + ":"@
            + int_text(code as int) + "\n"@,
        ProgressState::TimedOut { total_budget } => "batch_verification_started="@ + n
            + "\nbatch_verification_timed_out="@ + n + ":1\nbatch_verification_exit="@ + n
            + ":124\n"@ + if total_budget {
            "batch_timeout_scope=total\n"@
        } else {
            "batch_timeout_scope=verification\n"@
        },
        ProgressState::StartFailed => "batch_verification_start_failed="@ + n
            + "\nbatch_verification_exit="@ + n + ":125\n"@,
        ProgressState::SkippedPriorFailure => "batch_verification_skipped="@ + n
            + ":prior-phase-failure-or-timeout\n"@,
        ProgressState::SkippedTotalTimeout => "batch_verification_skipped="@ + n
            + ":total-timeout\nbatch_timeout_scope=total\n"@,
    }
}

/// The markers of the restart's state.
pub open spec fn restart_state_text(s: ProgressState) -> Seq<char> {
    match s {
        ProgressState::Pending => Seq::empty(),
        ProgressState::Running => "batch_restart_started=1\n"@,
        ProgressState::Succeeded => "batch_restart_started=1\nbatch_restart_timed_out=0\nbatch_restart_exit=0\n"@,
        ProgressState::Failed(code) => "batch_restart_started=1\nbatch_restart_timed_out=0\nbatch_restart_exit="@
            + int_text(code as int) + "\n"@,
        ProgressState::TimedOut { total_budget } => "batch_restart_started=1\nbatch_restart_timed_out=1\nbatch_restart_exit=124\n"@
            + if total_budget {
            "batch_timeout_scope=total\n"@
        } else {
            "batch_timeout_scope=restart\n"@
        },
        ProgressState::StartFailed => "batch_restart_start_failed=1\nbatch_restart_exit=125\n"@,
        ProgressState::SkippedPriorFailure => "batch_restart=skipped\nbatch_restart_skipped=prior-business-failure-or-timeout\n"@,
        ProgressState::SkippedTotalTimeout => "batch_restart_skipped=total-timeout\nbatch_timeout_scope=total\n"@,
    }
}

fn step_state_markers(n: &str, s: ProgressState) -> (r: String)
    ensures
        r@ == step_state_text(n@, s),
{
    let mut m = String::new();
    match s {
        ProgressState::Pending => {},
        ProgressState::Running => {
            push_str(&mut m, "batch_step_started=");
            push_str(&mut m, n);
            push_str(&mut m, "\n");
        },
        ProgressState::Succeeded => {
            push_str(&mut m, "batch_step_started=");
            push_str(&mut m, n);
            push_str(&mut m, "\nbatch_step_timed_out=");
            push_str(&mut m, n);
            push_str(&mut m, ":0\nbatch_step_exit=");
            push_str(&mut m, n);
            push_str(&mut m, ":0\n");
        },
        ProgressState::Failed(code) => {
            push_str(&mut m, "batch_step_started=");
            push_str(&mut m, n);
            push_str(&mut m, "\nbatch_step_timed_out=");
            push_str(&mut m, n);
            push_str(&mut m, ":0\nbatch_step_exit=");
            push_str(&mut m, n);
            push_str(&mut m, ":");
            let c = i32_to_string(code);
            push_str(&mut m, c.as_str());
            push_str(&mut m, "\n");
        },
        ProgressState::TimedOut { total_budget } => {
            push_str(&mut m, "batch_step_started=");
            push_str(&mut m, n);
            push_str(&mut m, "\nbatch_step_timed_out=");
            push_str(&mut m, n);
            push_str(&mut m, ":1\nbatch_step_exit=");
            push_str(&mut m, n);
            push_str(&mut m, ":124\n");
            if total_budget {
                push_str(&mut m, "batch_timeout_scope=total\n");
            } else {
                push_str(&mut m, "batch_timeout_scope=step:");
                push_str(&mut m, n);
                push_str(&mut m, "\n");
            }
        },
        ProgressState::StartFailed => {
            push_str(&mut m, "batch_step_start_failed=");
            push_str(&mut m, n);
            push_str(&mut m, "\nbatch_step_exit=");
            push_str(&mut m, n);
            push_str(&mut m, ":125\n");
        },
        ProgressState::SkippedPriorFailure => {
            push_str(&mut m, "batch_step_skipped=");
            push_str(&mut m, n);
            push_str(&mut m, ":prior-failure\n");
        },
        ProgressState::SkippedTotalTimeout => {
            push_str(&mut m, "batch_step_skipped=");
            push_str(&mut m, n);
            push_str(&mut m, ":total-timeout\nbatch_timeout_scope=total\n");
        },
    }
    m
}

fn verification_state_markers(n: &str, s: ProgressState) -> (r: String)
    ensures
        r@ == verification_state_text(n@, s),
{
    let mut m = String::new();
    match s {
        ProgressState::Pending => {},
        ProgressState::Running => {
            push_str(&mut m, "batch_verification_started=");
            push_str(&mut m, n);
            push_str(&mut m, "\n");
        },
        ProgressState::Succeeded => {
            push_str(&mut m, "batch_verification_started=");
            push_str(&mut m, n);
            push_str(&mut m, "\nbatch_verification_timed_out=");
            push_str(&mut m, n);
            push_str(&mut m, ":0\nbatch_verification_exit=");
            push_str(&mut m, n);
            push_str(&mut m, ":0\n");
        },
        ProgressState::Failed(code) => {
            push_str(&mut m, "batch_verification_started=");
            push_str(&mut m, n);
            push_str(&mut m, "\nbatch_verification_timed_out=");
            push_str(&mut m, n);
            push_str(&mut m, ":0\nbatch_verification_exit=");
            push_str(&mut m, n);
            push_str(&mut m, ":");
            let c = i32_to_string(code);
            push_str(&mut m, c.as_str());
            push_str(&mut m, "\n");
        },
        ProgressState::TimedOut { total_budget } => {
            push_str(&mut m, "batch_verification_started=");
            push_str(&mut m, n);
            push_str(&mut m, "\nbatch_verification_timed_out=");
            push_str(&mut m, n);
            push_str(&mut m, ":1\nbatch_verification_exit=");
            push_str(&mut m, n);
            push_str(&mut m, ":124\n");
            if total_budget {
                push_str(&mut m, "batch_timeout_scope=total\n");
            } else {
                push_str(&mut m, "batch_timeout_scope=verification\n");
            }
        },
        ProgressState::StartFailed => {
            push_str(&mut m, "batch_verification_start_failed=");
            push_str(&mut m, n);
            push_str(&mut m, "\nbatch_verification_exit=");
            push_str(&mut m, n);
            push_str(&mut m, ":125\n");
        },
        ProgressState::SkippedPriorFailure => {
            push_str(&mut m, "batch_verification_skipped=");
            push_str(&mut m, n);
            push_str(&mut m, ":prior-phase-failure-or-timeout\n");
        },
        ProgressState::SkippedTotalTimeout => {
            push_str(&mut m, "batch_verification_skipped=");
            push_str(&mut m, n);
            push_str(&mut m, ":total-timeout\nbatch_timeout_scope=total\n");
        },
    }
    m
}

fn restart_state_markers(s: ProgressState) -> (r: String)
    ensures
        r@ == restart_state_text(s),
{
    match s {
        ProgressState::Pending => String::new(),
        ProgressState::Running => owned("batch_restart_started=1\n"),
        ProgressState::Succeeded => owned(
            "batch_restart_started=1\nbatch_restart_timed_out=0\nbatch_restart_exit=0\n",
        ),
        ProgressState::Failed(code) => {
            let mut m = owned(
                "batch_restart_started=1\nbatch_restart_timed_out=0\nbatch_restart_exit=",
            );
            let c = i32_to_string(code);
            push_str(&mut m, c.as_str());
            push_str(&mut m, "\n");
            m
        },
        ProgressState::TimedOut { total_budget } => {
            let mut m = owned(
                "batch_restart_started=1\nbatch_restart_timed_out=1\nbatch_restart_exit=124\n",
            );
            if total_budget {
                push_str(&mut m, "batch_timeout_scope=total\n");
            } else {
                push_str(&mut m, "batch_timeout_scope=restart\n");
            }
            m
        },
        ProgressState::StartFailed => owned("batch_restart_start_failed=1\nbatch_restart_exit=125\n"),
        ProgressState::SkippedPriorFailure => owned(
            "batch_restart=skipped\nbatch_restart_skipped=prior-business-failure-or-timeout\n",
        ),
        ProgressState::SkippedTotalTimeout => owned(
            "batch_restart_skipped=total-timeout\nbatch_timeout_scope=total\n",
        ),
    }
}

/// The markers of one step of a batch.
pub open spec fn step_markers(st: StepProgress) -> Seq<char> {
    let n = decimal(st.number as nat);
    "batch_step="@ + n + ":"@ + st.label@ + "\nbatch_step_timeout_seconds="@ + n + ":"@ + decimal(
        st.timeout_seconds as nat,
    ) + "\n"@ + step_state_text(n, st.state)
}

/// The markers of one verification of a batch.
pub open spec fn verification_markers(st: StepProgress) -> Seq<char> {
    let n = decimal(st.number as nat);
    "batch_verification="@ + n + ":"@ + st.label@ + "\nbatch_verification_timeout_seconds="@ + n
        + ":"@ + decimal(st.timeout_seconds as nat) + "\n"@ + verification_state_text(n, st.state)
}

pub open spec fn steps_markers(v: Seq<StepProgress>, verification: bool) -> Seq<char>
    decreases v.len(),
{
    if v.len() == 0 {
        Seq::empty()
    } else {
        steps_markers(v.drop_last(), verification) + if verification {
            verification_markers(v.last())
        } else {
            step_markers(v.last())
        }
    }
}

/// The markers of the restart of a batch.
pub open spec fn restart_markers(r: Option<RestartProgress>) -> Seq<char> {
    match r {
        None => "batch_restart=not-required\n"@,
        Some(rs) => if rs.state is SkippedPriorFailure {
            restart_state_text(rs.state)
        } else {
            "batch_restart=audioserver\nbatch_restart_timeout_seconds="@ + decimal(
                rs.timeout_seconds as nat,
            ) + "\n"@ + restart_state_text(rs.state)
        },
    }
}

/// Every marker of a batch, rendered from its progress alone.
pub open spec fn batch_markers_spec(p: ReapplyProgress) -> Seq<char> {
    "batch_total_timeout_seconds="@ + decimal(p.total_timeout_seconds as nat) + "\n"@ + steps_markers(
        p.steps@,
        false,
    ) + restart_markers(p.restart) + steps_markers(p.verifications@, true) + "batch_total_timed_out="@
        + flag_text(p.total_timed_out) + "\n"@
}

#[verifier::spinoff_prover]
#[verifier::rlimit(40)]
fn push_steps_markers(out: &mut String, v: &Vec<StepProgress>, verification: bool)
    ensures
        final(out)@ == old(out)@ + steps_markers(v@, verification),
{
    let mut i: usize = 0;
    assert(v@.take(0) =~= Seq::<StepProgress>::empty());
    assert(old(out)@ + steps_markers(v@.take(0), verification) =~= old(out)@);
    while i < v.len()
        invariant
            i <= v@.len(),
            out@ == old(out)@ + steps_markers(v@.take(i as int), verification),
        decreases v@.len() - i,
    {
        let st = &v[i];
        let n = crate::text::u64_to_string(st.number as u64);
        let t = crate::text::u64_to_string(st.timeout_seconds);
        let ghost before = out@;
        if verification {
            push_str(out, "batch_verification=");
        } else {
            push_str(out, "batch_step=");
        }
        push_str(out, n.as_str());
        push_str(out, ":");
        push_str(out, st.label.as_str());
        if verification {
            push_str(out, "\nbatch_verification_timeout_seconds=");
        } else {
            push_str(out, "\nbatch_step_timeout_seconds=");
        }
        push_str(out, n.as_str());
        push_str(out, ":");
        push_str(out, t.as_str());
        push_str(out, "\n");
        let m = if verification {
            verification_state_markers(n.as_str(), st.state)
        } else {
            step_state_markers(n.as_str(), st.state)
        };
        push_str(out, m.as_str());
        assert(v@.take(i + 1).drop_last() =~= v@.take(i as int));
        assert(v@.take(i + 1).last() == v@[i as int]);
        assert(out@ =~= before + if verification {
            verification_markers(v@[i as int])
        } else {
            step_markers(v@[i as int])
        });
        i += 1;
    }
    assert(v@.take(v@.len() as int) =~= v@);
}

impl ReapplyProgress {
    /// Renders every marker of the batch from its progress.
    pub fn render_markers(&self) -> (r: String)
        ensures
            r@ == batch_markers_spec(*self),
    {
        let total = crate::text::u64_to_string(self.total_timeout_seconds);
        let mut markers = concat2("batch_total_timeout_seconds=", total.as_str());
        push_str(&mut markers, "\n");
        push_steps_markers(&mut markers, &self.steps, false);
        match self.restart {
            None => push_str(&mut markers, "batch_restart=not-required\n"),
            Some(rs) => {
                if let ProgressState::SkippedPriorFailure = rs.state {
                    let m = restart_state_markers(rs.state);
                    push_str(&mut markers, m.as_str());
                } else {
                    push_str(&mut markers, "batch_restart=audioserver\nbatch_restart_timeout_seconds=");
                    let t = crate::text::u64_to_string(rs.timeout_seconds);
                    push_str(&mut markers, t.as_str());
                    push_str(&mut markers, "\n");
                    let m = restart_state_markers(rs.state);
                    push_str(&mut markers, m.as_str());
                }
            },
        }
        push_steps_markers(&mut markers, &self.verifications, true);
        push_str(&mut markers, "batch_total_timed_out=");
        push_str(&mut markers, flag_str(self.total_timed_out));
        push_str(&mut markers, "\n");
        markers
    }
}

// ---------------------------------------------------------------------------
// Capped output
// ---------------------------------------------------------------------------

/// What appending `bytes` to `target` under a cap of `limit` bytes keeps,
/// and whether anything was cut.
pub open spec fn capped_spec(target: Seq<u8>, bytes: Seq<u8>, limit: int, truncated: bool) -> (Seq<u8>, bool) {
    let available: int = if limit > target.len() { limit - target.len() } else { 0 };
    let kept: int = if bytes.len() < available { bytes.len() as int } else { available };
    (target + bytes.take(kept), truncated || bytes.len() > available)
}

/// Appends as much of `bytes` as the cap allows and notes a cut.
pub fn append_capped(target: &mut Vec<u8>, bytes: &[u8], limit: usize, truncated: &mut bool)
    ensures
        (final(target)@, *final(truncated)) == capped_spec(old(target)@, bytes@, limit as int, *old(truncated)),
{
    let available: usize = if limit > target.len() {
        limit - target.len()
    } else {
        0
    };
    let kept: usize = if bytes.len() < available {
        bytes.len()
    } else {
        available
    };
    let mut i: usize = 0;
    while i < kept
        invariant
            i <= kept <= bytes@.len(),
            target@ == old(target)@ + bytes@.take(i as int),
        decreases kept - i,
    {
        target.push(bytes[i]);
        assert(target@ =~= old(target)@ + bytes@.take(i + 1));
        i += 1;
    }
    if bytes.len() > available {
        *truncated = true;
    }
}

/// The pieces of a byte stream, each up to and including its newline.
pub open spec fn inclusive_chunks(s: Seq<u8>) -> Seq<Seq<u8>>
    decreases s.len(),
{
    if s.len() == 0 {
        Seq::empty()
    } else {
        let i = first_byte(s, 10);
        if i >= s.len() {
            seq![s]
        } else {
            proof {
                lemma_first_byte_bounds(s, 10);
            }
            seq![s.take(i + 1)] + inclusive_chunks(s.skip(i + 1))
        }
    }
}

/// A line in the controller's reserved `batch_` namespace.
pub open spec fn reserved_line(l: Seq<u8>) -> bool {
    l.len() >= 6 && l.take(6) == "batch_"@.map_values(|c: char| c as u8)
}

/// Appends each kept line in turn under the cap.
pub open spec fn payload_fold(target: Seq<u8>, truncated: bool, chunks: Seq<Seq<u8>>, limit: int) -> (Seq<u8>, bool)
    decreases chunks.len(),
{
    if chunks.len() == 0 {
        (target, truncated)
    } else {
        let (t, tr) = payload_fold(target, truncated, chunks.drop_last(), limit);
        if reserved_line(chunks.last()) {
            (t, tr)
        } else {
            capped_spec(t, chunks.last(), limit, tr)
        }
    }
}

fn is_reserved(bytes: &[u8], lo: usize, hi: usize) -> (r: bool)
    requires
        lo <= hi <= bytes@.len(),
    ensures
        r == reserved_line(bytes@.subrange(lo as int, hi as int)),
{
    proof {
        reveal_strlit("batch_");
    }
    let prefix: [u8; 6] = [98, 97, 116, 99, 104, 95];
    assert(prefix@ =~= "batch_"@.map_values(|c: char| c as u8));
    if hi - lo < 6 {
        return false;
    }
    let mut i: usize = 0;
    while i < 6
        invariant
            i <= 6,
            lo + 6 <= hi <= bytes@.len(),
            prefix@ == "batch_"@.map_values(|c: char| c as u8),
            forall|j: int| 0 <= j < i ==> bytes@[lo + j] == prefix@[j],
        decreases 6 - i,
    {
        if bytes[lo + i] != prefix[i] {
            assert(bytes@.subrange(lo as int, hi as int).take(6)[i as int] != prefix@[i as int]);
            return false;
        }
        i += 1;
    }
    assert(bytes@.subrange(lo as int, hi as int).take(6) =~= prefix@);
    true
}

fn append_range(target: &mut Vec<u8>, bytes: &[u8], lo: usize, hi: usize, limit: usize, truncated: &mut bool)
    requires
        lo <= hi <= bytes@.len(),
    ensures
        (final(target)@, *final(truncated)) == capped_spec(
            old(target)@,
            bytes@.subrange(lo as int, hi as int),
            limit as int,
            *old(truncated),
        ),
{
    let n = hi - lo;
    let available: usize = if limit > target.len() {
        limit - target.len()
    } else {
        0
    };
    let kept: usize = if n < available {
        n
    } else {
        available
    };
    let ghost piece = bytes@.subrange(lo as int, hi as int);
    let mut i: usize = 0;
    while i < kept
        invariant
            i <= kept <= n,
            n == hi - lo,
            hi <= bytes@.len(),
            piece == bytes@.subrange(lo as int, hi as int),
            target@ == old(target)@ + piece.take(i as int),
        decreases kept - i,
    {
        target.push(bytes[lo + i]);
        assert(target@ =~= old(target)@ + piece.take(i + 1));
        i += 1;
    }
    if n > available {
        *truncated = true;
    }
}

/// Appends the output of a batch member, dropping lines that imitate the
/// controller's own `batch_` markers.
pub fn append_reapply_payload(target: &mut Vec<u8>, bytes: &[u8], limit: usize, truncated: &mut bool)
    ensures
        (final(target)@, *final(truncated)) == payload_fold(
            old(target)@,
            *old(truncated),
            inclusive_chunks(bytes@),
            limit as int,
        ),
{
    let mut pos: usize = 0;
    let ghost mut done: Seq<Seq<u8>> = Seq::empty();
    assert(bytes@.skip(0) =~= bytes@);
    assert(inclusive_chunks(bytes@) == done + inclusive_chunks(bytes@.skip(0)));
    while pos < bytes.len()
        invariant
            pos <= bytes@.len(),
            inclusive_chunks(bytes@) == done + inclusive_chunks(bytes@.skip(pos as int)),
            (target@, *truncated) == payload_fold(old(target)@, *old(truncated), done, limit as int),
        decreases bytes@.len() - pos,
    {
        let ghost rest = bytes@.skip(pos as int);
        let mut end = pos;
        while end < bytes.len() && bytes[end] != 10
            invariant
                pos <= end <= bytes@.len(),
                forall|j: int| pos <= j < end ==> bytes@[j] != 10,
            decreases bytes@.len() - end,
        {
            end += 1;
        }
        proof {
            lemma_first_byte_at(rest, 10, end - pos);
        }
        let stop = if end < bytes.len() {
            end + 1
        } else {
            end
        };
        let ghost chunk = bytes@.subrange(pos as int, stop as int);
        proof {
            if end < bytes@.len() {
                assert(rest.take(end - pos + 1) =~= chunk);
                assert(rest.skip(end - pos + 1) =~= bytes@.skip(stop as int));
                assert(inclusive_chunks(rest) == seq![chunk] + inclusive_chunks(bytes@.skip(stop as int)));
            } else {
                assert(rest =~= chunk);
                assert(bytes@.skip(stop as int) =~= Seq::<u8>::empty());
                assert(inclusive_chunks(rest) == seq![chunk]);
                assert(inclusive_chunks(bytes@.skip(stop as int)) =~= Seq::<Seq<u8>>::empty());
                assert(seq![chunk] =~= seq![chunk] + inclusive_chunks(bytes@.skip(stop as int)));
            }
        }
        if !is_reserved(bytes, pos, stop) {
            append_range(target, bytes, pos, stop, limit, truncated);
        }
        proof {
            let nd = done.push(chunk);
            assert(nd.drop_last() =~= done);
            assert(done + (seq![chunk] + inclusive_chunks(bytes@.skip(stop as int))) =~= nd
                + inclusive_chunks(bytes@.skip(stop as int)));
            done = nd;
        }
        pos = stop;
    }
    assert(inclusive_chunks(bytes@.skip(pos as int)) =~= Seq::<Seq<u8>>::empty());
    assert(done + Seq::<Seq<u8>>::empty() =~= done);
}

// ---------------------------------------------------------------------------
// Script summaries
// ---------------------------------------------------------------------------

/// The FNV-1a hash of a byte string.
pub open spec fn fnv_hash(bytes: Seq<u8>) -> u64
    decreases bytes.len(),
{
    if bytes.len() == 0 {
        0xcbf29ce484222325u64
    } else {
        (fnv_hash(bytes.drop_last()) ^ (bytes.last() as u64)).wrapping_mul(0x100000001b3u64)
    }
}

pub open spec fn hex_char(d: nat) -> char {
    if d < 10 {
        (d + '0' as nat) as char
    } else {
        (d - 10 + 'a' as nat) as char
    }
}

/// The last `k` hexadecimal digits of `n`, zero-padded.
pub open spec fn hex_digits(n: nat, k: nat) -> Seq<char>
    decreases k,
{
    if k == 0 {
        Seq::empty()
    } else {
        hex_digits(n / 16, (k - 1) as nat).push(hex_char(n % 16))
    }
}

fn hex_digit(d: u64) -> (c: char)
    requires
        d < 16,
    ensures
        c == hex_char(d as nat),
{
    if d < 10 {
        ((d as u8) + 48) as char
    } else {
        ((d as u8) + 87) as char
    }
}

fn push_hex(out: &mut String, n: u64, k: u64)
    ensures
        final(out)@ == old(out)@ + hex_digits(n as nat, k as nat),
    decreases k,
{
    if k == 0 {
        assert(old(out)@ + hex_digits(n as nat, 0) =~= old(out)@);
        return ;
    }
    push_hex(out, n / 16, k - 1);
    crate::text::push_char(out, hex_digit(n % 16));
    assert(final(out)@ =~= old(out)@ + hex_digits(n as nat, k as nat));
}

/// A compact, non-executable description of a script: its size, its
/// line count and a hash of its bytes.
pub open spec fn script_summary_spec(script: &str) -> Seq<char> {
    "bytes="@ + decimal(script.spec_bytes().len()) + ";lines="@ + decimal(
        crate::text::lines(script@).len(),
    ) + ";hash="@ + hex_digits(fnv_hash(script.spec_bytes()) as nat, 16)
}

/// Describes a script without embedding it.
pub fn script_summary(script: &str) -> (r: String)
    ensures
        r@ == script_summary_spec(script),
{
    let bytes = script.as_bytes();
    let mut hash: u64 = 0xcbf29ce484222325;
    let mut i: usize = 0;
    while i < bytes.len()
        invariant
            i <= bytes@.len(),
            hash == fnv_hash(bytes@.take(i as int)),
        decreases bytes@.len() - i,
    {
        assert(bytes@.take(i + 1).drop_last() =~= bytes@.take(i as int));
        hash = (hash ^ (bytes[i] as u64)).wrapping_mul(0x100000001b3);
        i += 1;
    }
    assert(bytes@.take(bytes@.len() as int) =~= bytes@);
    let lines = crate::text::split_lines(script);
    let mut out = owned("bytes=");
    crate::text::push_decimal(&mut out, bytes.len() as u64);
    push_str(&mut out, ";lines=");
    crate::text::push_decimal(&mut out, lines.len() as u64);
    push_str(&mut out, ";hash=");
    push_hex(&mut out, hash, 16);
    out
}

// ---------------------------------------------------------------------------
// Batched output
// ---------------------------------------------------------------------------

/// The combined output of the phases or steps of one mutation: the
/// controller's markers, then the captured output of each member.
pub struct BatchOutput {
    pub control: Vec<u8>,
    pub stdout: Vec<u8>,
    pub stderr: Vec<u8>,
    pub stdout_truncated: bool,
    pub stderr_truncated: bool,
}

impl BatchOutput {
    pub fn new() -> (r: Self)
        ensures
            r.control@.len() == 0,
            r.stdout@.len() == 0,
            r.stderr@.len() == 0,
            !r.stdout_truncated,
            !r.stderr_truncated,
    {
        BatchOutput {
            control: Vec::new(),
            stdout: Vec::new(),
            stderr: Vec::new(),
            stdout_truncated: false,
            stderr_truncated: false,
        }
    }

    /// Appends controller markers.
    pub fn marker(&mut self, marker: &str)
        ensures
            final(self).control@ == old(self).control@ + marker.spec_bytes(),
            final(self).stdout == old(self).stdout,
            final(self).stderr == old(self).stderr,
            final(self).stdout_truncated == old(self).stdout_truncated,
            final(self).stderr_truncated == old(self).stderr_truncated,
    {
        let bytes = marker.as_bytes();
        let mut i: usize = 0;
        while i < bytes.len()
            invariant
                i <= bytes@.len(),
                bytes@ == marker.spec_bytes(),
                self.control@ == old(self).control@ + bytes@.take(i as int),
                self.stdout == old(self).stdout,
                self.stderr == old(self).stderr,
                self.stdout_truncated == old(self).stdout_truncated,
                self.stderr_truncated == old(self).stderr_truncated,
            decreases bytes@.len() - i,
        {
            self.control.push(bytes[i]);
            assert(self.control@ =~= old(self).control@ + bytes@.take(i + 1));
            i += 1;
        }
        assert(bytes@.take(bytes@.len() as int) =~= bytes@);
    }

    /// Appends an error of the controller to the captured error output.
    pub fn error(&mut self, error: &str)
        ensures
            (final(self).stderr@, final(self).stderr_truncated) == capped_spec(
                old(self).stderr@,
                error.spec_bytes(),
                EXECUTION_OUTPUT_LIMIT as int,
                old(self).stderr_truncated,
            ),
            final(self).control == old(self).control,
            final(self).stdout == old(self).stdout,
            final(self).stdout_truncated == old(self).stdout_truncated,
    {
        append_capped(
            &mut self.stderr,
            error.as_bytes(),
            EXECUTION_OUTPUT_LIMIT,
            &mut self.stderr_truncated,
        );
    }

    /// Appends the output of a member, without lines in the controller's
    /// reserved namespace.
    pub fn append_execution(&mut self, execution: ExecutionResult)
        ensures
            final(self).control == old(self).control,
            (final(self).stdout@, final(self).stdout_truncated) == payload_fold(
                old(self).stdout@,
                old(self).stdout_truncated || execution.stdout_truncated,
                inclusive_chunks(execution.stdout@),
                EXECUTION_OUTPUT_LIMIT as int,
            ),
            (final(self).stderr@, final(self).stderr_truncated) == payload_fold(
                old(self).stderr@,
                old(self).stderr_truncated || execution.stderr_truncated,
                inclusive_chunks(execution.stderr@),
                EXECUTION_OUTPUT_LIMIT as int,
            ),
    {
        self.stdout_truncated = self.stdout_truncated || execution.stdout_truncated;
        self.stderr_truncated = self.stderr_truncated || execution.stderr_truncated;
        append_reapply_payload(
            &mut self.stdout,
            execution.stdout.as_slice(),
            EXECUTION_OUTPUT_LIMIT,
            &mut self.stdout_truncated,
        );
        append_reapply_payload(
            &mut self.stderr,
            execution.stderr.as_slice(),
            EXECUTION_OUTPUT_LIMIT,
            &mut self.stderr_truncated,
        );
    }

    /// The combined result: the markers first, then the members' output,
    /// all within the cap.
    pub fn finish(self, code: i32, timed_out: bool) -> (r: ExecutionResult)
        ensures
            r.exit_code == Some(code),
            r.timed_out == timed_out,
            r.stderr == self.stderr,
            r.stderr_truncated == self.stderr_truncated,
            (r.stdout@, r.stdout_truncated) == finished_stdout(
                self.control@,
                self.stdout@,
                self.stdout_truncated,
            ),
    {
        let BatchOutput { control, stdout: captured, stderr, stdout_truncated, stderr_truncated } =
            self;
        let mut stdout = control;
        let mut truncated = stdout_truncated;
        append_capped(&mut stdout, captured.as_slice(), EXECUTION_OUTPUT_LIMIT, &mut truncated);
        if stdout.len() > EXECUTION_OUTPUT_LIMIT {
            stdout.truncate(EXECUTION_OUTPUT_LIMIT);
            truncated = true;
        }
        ExecutionResult {
            exit_code: Some(code),
            stdout,
            stderr,
            timed_out,
            stdout_truncated: truncated,
            stderr_truncated,
        }
    }
}

/// The code a member ended with: 124 after a timeout, 1 without a code.
pub open spec fn execution_code_spec(e: ExecutionResult) -> i32 {
    if e.timed_out {
        124
    } else {
        match e.exit_code {
            Some(c) => c,
            None => 1,
        }
    }
}

pub fn execution_code(e: &ExecutionResult) -> (r: i32)
    ensures
        r == execution_code_spec(*e),
{
    if e.timed_out {
        124
    } else {
        match e.exit_code {
            Some(c) => c,
            None => 1,
        }
    }
}

/// The state a member ended in.
pub open spec fn progress_state_spec(timed_out: bool, code: i32, total_budget: bool) -> ProgressState {
    if timed_out {
        ProgressState::TimedOut { total_budget }
    } else if code == 0 {
        ProgressState::Succeeded
    } else {
        ProgressState::Failed(code)
    }
}

pub fn progress_state(e: &ExecutionResult, code: i32, total_budget: bool) -> (r: ProgressState)
    ensures
        r == progress_state_spec(e.timed_out, code, total_budget),
{
    if e.timed_out {
        ProgressState::TimedOut { total_budget }
    } else if code == 0 {
        ProgressState::Succeeded
    } else {
        ProgressState::Failed(code)
    }
}

/// A member that ran or failed to start, reported as such.
pub open spec fn ran_state(s: ProgressState) -> bool {
    ||| s is Succeeded
    ||| (s matches ProgressState::Failed(c) && c != 0)
    ||| s is TimedOut
    ||| s is StartFailed
}

/// The code a finished member contributes to the failure code.
pub open spec fn state_code(s: ProgressState) -> i32 {
    match s {
        ProgressState::Failed(c) => c,
        ProgressState::TimedOut { .. } => 124,
        ProgressState::StartFailed => 125,
        _ => 0,
    }
}

/// The failure code after a member: its code when it failed, else the
/// earlier one.
pub open spec fn later_failure(code: i32, s: ProgressState) -> i32 {
    if state_code(s) != 0 {
        state_code(s)
    } else {
        code
    }
}

/// What a batch has captured so far: its standard output and whether it
/// was cut, its error output and whether it was cut.
pub open spec fn captured(b: BatchOutput) -> (Seq<u8>, bool, Seq<u8>, bool) {
    (b.stdout@, b.stdout_truncated, b.stderr@, b.stderr_truncated)
}

/// Nothing captured yet.
pub open spec fn nothing_captured() -> (Seq<u8>, bool, Seq<u8>, bool) {
    (Seq::empty(), false, Seq::empty(), false)
}

/// What a batch captures of one member: the member's output without the
/// reserved lines, or, when it could not start, `prefix`, the reason and a
/// newline on the error output.
pub open spec fn absorb(
    b: (Seq<u8>, bool, Seq<u8>, bool),
    o: Result<ExecutionResult, String>,
    prefix: Seq<char>,
) -> (Seq<u8>, bool, Seq<u8>, bool) {
    match o {
        Ok(e) => {
            let out = payload_fold(
                b.0,
                b.1 || e.stdout_truncated,
                inclusive_chunks(e.stdout@),
                EXECUTION_OUTPUT_LIMIT as int,
            );
            let err = payload_fold(
                b.2,
                b.3 || e.stderr_truncated,
                inclusive_chunks(e.stderr@),
                EXECUTION_OUTPUT_LIMIT as int,
            );
            (out.0, out.1, err.0, err.1)
        },
        Err(error) => {
            let err = capped_spec(
                b.2,
                vstd::utf8::encode_utf8(prefix + error@ + "\n"@),
                EXECUTION_OUTPUT_LIMIT as int,
                b.3,
            );
            (b.0, b.1, err.0, err.1)
        },
    }
}

/// What a batch captures of its members in order: `None` stands for a
/// member that was passed over, `prefixes[i]` introduces the start failure
/// of member `i`.
pub open spec fn absorb_all(
    b: (Seq<u8>, bool, Seq<u8>, bool),
    os: Seq<Option<Result<ExecutionResult, String>>>,
    prefixes: Seq<Seq<char>>,
) -> (Seq<u8>, bool, Seq<u8>, bool)
    decreases os.len(),
{
    if os.len() == 0 {
        b
    } else {
        let before = absorb_all(b, os.drop_last(), prefixes);
        match os.last() {
            Some(o) => absorb(before, o, prefixes[os.len() - 1]),
            None => before,
        }
    }
}

proof fn lemma_absorb_push(
    b: (Seq<u8>, bool, Seq<u8>, bool),
    os: Seq<Option<Result<ExecutionResult, String>>>,
    x: Option<Result<ExecutionResult, String>>,
    prefixes: Seq<Seq<char>>,
)
    ensures
        absorb_all(b, os.push(x), prefixes) == match x {
            Some(o) => absorb(absorb_all(b, os, prefixes), o, prefixes[os.len() as int]),
            None => absorb_all(b, os, prefixes),
        },
{
    assert(os.push(x).drop_last() =~= os);
}

/// The standard output of a finished batch: the markers, then what was
/// captured, within the cap.
pub open spec fn finished_stdout(control: Seq<u8>, stdout: Seq<u8>, truncated: bool) -> (Seq<u8>, bool) {
    let merged = capped_spec(control, stdout, EXECUTION_OUTPUT_LIMIT as int, truncated);
    if merged.0.len() > EXECUTION_OUTPUT_LIMIT {
        (merged.0.take(EXECUTION_OUTPUT_LIMIT as int), true)
    } else {
        merged
    }
}

/// The output of a batch with the given markers whose members gave `os`.
pub open spec fn batch_output_spec(
    e: ExecutionResult,
    markers: Seq<char>,
    os: Seq<Option<Result<ExecutionResult, String>>>,
    prefixes: Seq<Seq<char>>,
) -> bool {
    let c = absorb_all(nothing_captured(), os, prefixes);
    &&& (e.stdout@, e.stdout_truncated) == finished_stdout(
        vstd::utf8::encode_utf8(markers),
        c.0,
        c.1,
    )
    &&& e.stderr@ == c.2
    &&& e.stderr_truncated == c.3
}

/// The state a member is reported in agrees with what running it gave.
pub open spec fn outcome_fits(s: ProgressState, o: Result<ExecutionResult, String>) -> bool {
    match o {
        Ok(e) => if e.timed_out {
            s is TimedOut
        } else {
            s == progress_state_spec(false, execution_code_spec(e), false)
        },
        Err(_) => s is StartFailed,
    }
}

/// Member `o` of a batch, reported in state `s`, ran exactly when it is
/// given; then it ran `script` within its own time limit `limit`, cut to
/// what was left of the total budget `total`, and gave what the executor
/// can give.
pub open spec fn member_ok<F: FnMut(&str, u64) -> Result<ExecutionResult, String>>(
    s: ProgressState,
    o: Option<Result<ExecutionResult, String>>,
    script: Seq<char>,
    limit: u64,
    total: u64,
) -> bool {
    &&& (o is Some <==> ran_state(s))
    &&& (o matches Some(out) ==> outcome_fits(s, out) && exists|g: F, x: &str, left: u64|
        x@ == script && 0 < left <= total && #[trigger] call_ensures(
            g,
            (x, effective_limit(limit, left)),
            out,
        ))
}

/// Each member of a batch agrees with what running it gave.
pub open spec fn members_ok<F: FnMut(&str, u64) -> Result<ExecutionResult, String>>(
    states: Seq<ProgressState>,
    os: Seq<Option<Result<ExecutionResult, String>>>,
    scripts: Seq<Seq<char>>,
    limits: Seq<u64>,
    total: u64,
) -> bool {
    &&& os.len() == states.len()
    &&& forall|k: int|
        0 <= k < os.len() ==> #[trigger] member_ok::<F>(states[k], os[k], scripts[k], limits[k], total)
}

proof fn lemma_members_push<F: FnMut(&str, u64) -> Result<ExecutionResult, String>>(
    states: Seq<ProgressState>,
    os: Seq<Option<Result<ExecutionResult, String>>>,
    scripts: Seq<Seq<char>>,
    limits: Seq<u64>,
    total: u64,
    s: ProgressState,
    x: Option<Result<ExecutionResult, String>>,
)
    requires
        members_ok::<F>(states, os, scripts, limits, total),
        member_ok::<F>(s, x, scripts[os.len() as int], limits[os.len() as int], total),
    ensures
        members_ok::<F>(states.push(s), os.push(x), scripts, limits, total),
{
    assert forall|k: int| 0 <= k < os.push(x).len() implies #[trigger] member_ok::<F>(
        states.push(s)[k],
        os.push(x)[k],
        scripts[k],
        limits[k],
        total,
    ) by {
        if k < os.len() {
            assert(states.push(s)[k] == states[k]);
            assert(os.push(x)[k] == os[k]);
            assert(member_ok::<F>(states[k], os[k], scripts[k], limits[k], total));
        }
    }
}

// ---------------------------------------------------------------------------
// Phased Extras mutations
// ---------------------------------------------------------------------------

/// Time limits, in milliseconds.
pub const POLICY_TIMEOUT_MS: u64 = 20_000;
pub const CLEANUP_TIMEOUT_MS: u64 = 75_000;
pub const EXTRA_TIMEOUT_MS: u64 = 15_000;
pub const DIAGNOSTIC_TIMEOUT_MS: u64 = 30_000;
pub const VERIFICATION_TIMEOUT_MS: u64 = 5_000;
pub const REAPPLY_TIMEOUT_MS: u64 = 60_000;
pub const REAPPLY_RESTART_TIMEOUT_MS: u64 = 20_000;

/// The result of a phased mutation with its progress.
pub struct PhasedMutationExecution {
    pub execution: ExecutionResult,
    pub progress: PhasedMutationProgress,
}

/// The failure code of a phased mutation: the code of the last phase that
/// failed, 0 when none did.
pub open spec fn phased_failure(p: PhasedMutationProgress) -> i32 {
    let c1 = later_failure(0, p.business);
    let c2 = match p.restart {
        Some(r) => later_failure(c1, r),
        None => c1,
    };
    match p.verification {
        Some(v) => later_failure(c2, v),
        None => c2,
    }
}

/// Some phase of the mutation timed out.
pub open spec fn phased_timed_out(p: PhasedMutationProgress) -> bool {
    ||| p.business is TimedOut
    ||| (p.restart matches Some(r) && r is TimedOut)
    ||| (p.verification matches Some(v) && v is TimedOut)
}

/// The state of a phase from what running it gave.
pub open spec fn phase_state(o: Result<ExecutionResult, String>) -> ProgressState {
    match o {
        Ok(e) => progress_state_spec(e.timed_out, execution_code_spec(e), false),
        Err(_) => ProgressState::StartFailed,
    }
}

fn record_phase(
    batch: &mut BatchOutput,
    outcome: Result<ExecutionResult, String>,
    what: &str,
) -> (r: ProgressState)
    ensures
        ran_state(r),
        r == phase_state(outcome),
        outcome_fits(r, outcome),
        final(batch).control == old(batch).control,
        captured(*final(batch)) == absorb(
            captured(*old(batch)),
            outcome,
            "cannot start mutation "@ + what@ + " phase: "@,
        ),
{
    match outcome {
        Ok(execution) => {
            let code = execution_code(&execution);
            let state = progress_state(&execution, code, false);
            batch.append_execution(execution);
            state
        },
        Err(error) => {
            let mut message = concat2("cannot start mutation ", what);
            push_str(&mut message, " phase: ");
            push_str(&mut message, error.as_str());
            push_str(&mut message, "\n");
            assert(message@ =~= ("cannot start mutation "@ + what@ + " phase: "@) + error@ + "\n"@);
            batch.error(message.as_str());
            ProgressState::StartFailed
        },
    }
}

/// The text that introduces a phase that could not start.
pub open spec fn phase_prefix(what: Seq<char>) -> Seq<char> {
    "cannot start mutation "@ + what + " phase: "@
}

/// The start-failure texts of the business, restart and verification phases.
pub open spec fn phased_prefixes() -> Seq<Seq<char>> {
    seq![phase_prefix("business"@), phase_prefix("restart"@), phase_prefix("verification"@)]
}

/// Runs the business phase of an Extras mutation, then its audio restart
/// only after the business phase succeeded, then its verification only
/// after the restart succeeded. `executor` runs a script with a time limit
/// in milliseconds. The output is the phase markers, then what each phase
/// that ran gave, in order.
pub fn execute_phased_mutation_with<F>(
    business: &str,
    restart: &str,
    verification: Option<&str>,
    mut executor: F,
) -> (r: PhasedMutationExecution) where F: FnMut(&str, u64) -> Result<ExecutionResult, String>
    requires
        forall|g: F, script: &str, timeout: u64| #[trigger] call_requires(g, (script, timeout)),
    ensures
        ran_state(r.progress.business),
        r.progress.restart matches Some(rs) && (if r.progress.business is Succeeded {
            ran_state(rs)
        } else {
            rs is SkippedPriorFailure
        }),
        verification is Some <==> r.progress.verification is Some,
        r.progress.verification matches Some(v) ==> (if r.progress.restart->0 is Succeeded {
            ran_state(v)
        } else {
            v is SkippedPriorFailure
        }),
        r.execution.exit_code == Some(phased_failure(r.progress)),
        r.execution.timed_out == phased_timed_out(r.progress),
        exists|os: Seq<Option<Result<ExecutionResult, String>>>| {
            &&& os.len() == 3
            &&& os[0] is Some && call_ensures(executor, (business, EXTRA_TIMEOUT_MS), os[0]->0)
                && r.progress.business == phase_state(os[0]->0)
            &&& (os[1] is Some <==> r.progress.business is Succeeded)
            &&& (os[1] is Some ==> (exists|g: F|
                #[trigger] call_ensures(g, (restart, REAPPLY_RESTART_TIMEOUT_MS), os[1]->0))
                && r.progress.restart == Some(phase_state(os[1]->0)))
            &&& (os[2] is Some <==> (verification is Some && r.progress.restart == Some(
                ProgressState::Succeeded,
            )))
            &&& (os[2] is Some ==> (exists|g: F|
                #[trigger] call_ensures(g, (verification->0, VERIFICATION_TIMEOUT_MS), os[2]->0))
                && r.progress.verification == Some(phase_state(os[2]->0)))
            &&& #[trigger] batch_output_spec(
                r.execution,
                phased_markers_spec(r.progress),
                os,
                phased_prefixes(),
            )
        },
{
    let mut batch = BatchOutput::new();
    assert(captured(batch) =~= nothing_captured());
    let ghost prefixes = phased_prefixes();
    let ghost none: Option<Result<ExecutionResult, String>> = None;
    let first = executor(business, EXTRA_TIMEOUT_MS);
    let ghost o0 = first;
    let business_state = record_phase(&mut batch, first, "business");
    proof {
        lemma_absorb_push(nothing_captured(), Seq::empty(), Some(o0), prefixes);
    }
    let ghost os0 = Seq::<Option<Result<ExecutionResult, String>>>::empty().push(Some(o0));
    let ghost mut o1 = none;
    let restart_state = if business_state.succeeded() {
        let second = executor(restart, REAPPLY_RESTART_TIMEOUT_MS);
        proof {
            o1 = Some(second);
        }
        record_phase(&mut batch, second, "restart")
    } else {
        ProgressState::SkippedPriorFailure
    };
    proof {
        lemma_absorb_push(nothing_captured(), os0, o1, prefixes);
    }
    let ghost os1 = os0.push(o1);
    let ghost mut o2 = none;
    let verification_state = match verification {
        Some(script) => {
            if restart_state.succeeded() {
                let third = executor(script, VERIFICATION_TIMEOUT_MS);
                proof {
                    o2 = Some(third);
                }
                Some(record_phase(&mut batch, third, "verification"))
            } else {
                Some(ProgressState::SkippedPriorFailure)
            }
        },
        None => None,
    };
    proof {
        lemma_absorb_push(nothing_captured(), os1, o2, prefixes);
    }
    let ghost os = os1.push(o2);
    let progress = PhasedMutationProgress {
        business: business_state,
        restart: Some(restart_state),
        verification: verification_state,
    };
    let c1: i32 = match business_state {
        ProgressState::Failed(c) => c,
        ProgressState::TimedOut { .. } => 124,
        ProgressState::StartFailed => 125,
        _ => 0,
    };
    let c2: i32 = match restart_state {
        ProgressState::Failed(c) => c,
        ProgressState::TimedOut { .. } => 124,
        ProgressState::StartFailed => 125,
        _ => c1,
    };
    let failure_code: i32 = match verification_state {
        Some(ProgressState::Failed(c)) => c,
        Some(ProgressState::TimedOut { .. }) => 124,
        Some(ProgressState::StartFailed) => 125,
        _ => c2,
    };
    let timed_out = matches!(business_state, ProgressState::TimedOut { .. }) || matches!(
        restart_state,
        ProgressState::TimedOut { .. }
    ) || matches!(verification_state, Some(ProgressState::TimedOut { .. }));
    let markers = progress.render_markers();
    batch.marker(markers.as_str());
    assert(batch.control@ =~= vstd::utf8::encode_utf8(phased_markers_spec(progress)));
    let execution = batch.finish(failure_code, timed_out);
    assert(os[0] == Some(o0));
    assert(os[1] == o1);
    assert(os[2] == o2);
    assert(batch_output_spec(execution, phased_markers_spec(progress), os, prefixes));
    PhasedMutationExecution { execution, progress }
}

// ---------------------------------------------------------------------------
// Reapply batches
// ---------------------------------------------------------------------------

/// The time limits of a reapply batch, in milliseconds: per policy step,
/// per Extras step, for the restart, per verification, and in total.
#[derive(Clone, Copy)]
pub struct ReapplyTimeouts {
    pub policy: u64,
    pub extra: u64,
    pub restart: u64,
    pub verification: u64,
    pub total: u64,
}

/// The result of a reapply batch with its progress.
pub struct ReapplyExecution {
    pub execution: ExecutionResult,
    pub progress: ReapplyProgress,
}

/// A step that was finished or passed over.
pub open spec fn step_final(s: ProgressState) -> bool {
    ran_state(s) || s is SkippedPriorFailure || s is SkippedTotalTimeout
}

/// A step that ran far enough to call the executor.
pub open spec fn step_ran(s: ProgressState) -> bool {
    s is Succeeded || s is Failed || s is TimedOut
}

/// A step that spent the time budget.
pub open spec fn step_timed_out(s: ProgressState) -> bool {
    s is TimedOut || s is SkippedTotalTimeout
}

/// The code a member of a batch contributes: a member passed over for the
/// total time budget counts as a timeout.
pub open spec fn batch_code(s: ProgressState) -> i32 {
    if s is SkippedTotalTimeout {
        124
    } else {
        state_code(s)
    }
}

/// The code of the first member that did not succeed, in order; 0 when
/// none failed.
pub open spec fn first_failure(states: Seq<ProgressState>) -> i32
    decreases states.len(),
{
    if states.len() == 0 {
        0
    } else {
        let c = first_failure(states.drop_last());
        if c != 0 {
            c
        } else {
            batch_code(states.last())
        }
    }
}

/// Some member timed out, on its own limit or the total budget.
pub open spec fn some_timed_out(states: Seq<ProgressState>) -> bool {
    exists|i: int| 0 <= i < states.len() && step_timed_out(#[trigger] states[i])
}

proof fn lemma_push_state(states: Seq<ProgressState>, s: ProgressState)
    ensures
        first_failure(states.push(s)) == (if first_failure(states) != 0 {
            first_failure(states)
        } else {
            batch_code(s)
        }),
        some_timed_out(states.push(s)) == (some_timed_out(states) || step_timed_out(s)),
{
    assert(states.push(s).drop_last() =~= states);
    if some_timed_out(states) {
        let i = choose|i: int| 0 <= i < states.len() && step_timed_out(#[trigger] states[i]);
        assert(states.push(s)[i] == states[i]);
    }
    if step_timed_out(s) {
        assert(states.push(s)[states.len() as int] == s);
    }
    if some_timed_out(states.push(s)) {
        let i = choose|i: int| 0 <= i < states.push(s).len() && step_timed_out(#[trigger] states.push(s)[i]);
        if i < states.len() {
            assert(states[i] == states.push(s)[i]);
        }
    }
}

/// The time limit of a step, in milliseconds.
pub open spec fn step_timeout(a: crate::domain::ReapplyView, t: ReapplyTimeouts) -> u64 {
    match a {
        crate::domain::ReapplyView::Policy(_) => t.policy,
        crate::domain::ReapplyView::Extra(_) => t.extra,
    }
}

/// What holds of the steps of a batch, however its members ended: each is
/// numbered and labelled as given and finished or passed over, and after a
/// step that did not succeed every later step is passed over.
pub open spec fn batch_steps_ok(
    p: Seq<StepProgress>,
    plan: Seq<crate::domain::ReapplyView>,
    steps: Seq<crate::scripts::ReapplyScriptStep>,
    t: ReapplyTimeouts,
) -> bool {
    &&& p.len() == plan.len()
    &&& forall|i: int|
        0 <= i < p.len() ==> (#[trigger] p[i]).number == i + 1 && p[i].label@ == steps[i].label@
            && p[i].timeout_seconds == step_timeout(plan[i], t) / 1000 && step_final(p[i].state)
    &&& forall|i: int, j: int|
        0 <= i < j < p.len() && !(p[i].state is Succeeded) ==> (#[trigger] p[j]).state is SkippedPriorFailure && #[trigger] p[i].number == i + 1
}

/// The restart of a batch is passed over after a timeout or when no step
/// ran; otherwise it runs.
pub open spec fn batch_restart_ok(p: Seq<StepProgress>, r: Option<RestartProgress>, t: ReapplyTimeouts) -> bool {
    match r {
        None => true,
        Some(rs) => rs.timeout_seconds == t.restart / 1000 && if (exists|i: int|
            0 <= i < p.len() && step_timed_out(#[trigger] p[i].state)) || !(exists|i: int|
            0 <= i < p.len() && step_ran(#[trigger] p[i].state)) {
            rs.state is SkippedPriorFailure
        } else {
            ran_state(rs.state) || rs.state is SkippedTotalTimeout
        },
    }
}

/// The verifications of a batch run only after the restart succeeded (or
/// none was needed); after one times out the rest are passed over.
pub open spec fn batch_verifications_ok(
    v: Seq<StepProgress>,
    given: Seq<crate::scripts::ReapplyScriptStep>,
    r: Option<RestartProgress>,
    t: ReapplyTimeouts,
) -> bool {
    &&& v.len() == given.len()
    &&& forall|i: int|
        0 <= i < v.len() ==> (#[trigger] v[i]).number == i + 1 && v[i].label@ == given[i].label@
            && v[i].timeout_seconds == t.verification / 1000 && step_final(v[i].state)
    &&& !done_or_absent(match r {
        Some(rs) => Some(rs.state),
        None => None,
    }) ==> forall|i: int| 0 <= i < v.len() ==> (#[trigger] v[i]).state is SkippedPriorFailure
    &&& forall|i: int, j: int|
        0 <= i < j < v.len() && step_timed_out(v[i].state) ==> (#[trigger] v[j]).state is SkippedPriorFailure && #[trigger] v[i].number == i + 1
}

/// The time limit of a member: its own, cut to what is left of the total.
pub open spec fn effective_limit(configured: u64, remaining: u64) -> u64 {
    if configured < remaining {
        configured
    } else {
        remaining
    }
}

fn run_member<F>(
    executor: &mut F,
    script: &str,
    configured: u64,
    remaining: u64,
    batch: &mut BatchOutput,
    failure_prefix: &str,
) -> (r: (ProgressState, bool, Ghost<Result<ExecutionResult, String>>)) where
    F: FnMut(&str, u64) -> Result<ExecutionResult, String>,

    requires
        forall|g: F, s: &str, t: u64| #[trigger] call_requires(g, (s, t)),
    ensures
        ran_state(r.0),
        r.0 is StartFailed ==> !r.1,
        step_ran(r.0) ==> r.1,
        r.0 matches ProgressState::TimedOut { total_budget } ==> total_budget == (remaining < configured),
        final(batch).control == old(batch).control,
        call_ensures(*old(executor), (script, effective_limit(configured, remaining)), r.2@),
        outcome_fits(r.0, r.2@),
        captured(*final(batch)) == absorb(captured(*old(batch)), r.2@, failure_prefix@),
        match r.2@ {
            Ok(e) => (r.0, r.1) == (progress_state_spec(e.timed_out, execution_code_spec(e), remaining < configured), true),
            Err(_) => (r.0, r.1) == (ProgressState::StartFailed, false),
        },
{
    let effective = if configured < remaining {
        configured
    } else {
        remaining
    };
    let limited = effective < configured;
    let outcome = executor(script, effective);
    let ghost seen = outcome;
    match outcome {
        Ok(execution) => {
            let code = execution_code(&execution);
            let state = progress_state(&execution, code, limited);
            batch.append_execution(execution);
            (state, true, Ghost(seen))
        },
        Err(error) => {
            let mut message = owned(failure_prefix);
            push_str(&mut message, error.as_str());
            push_str(&mut message, "\n");
            assert(message@ =~= failure_prefix@ + error@ + "\n"@);
            batch.error(message.as_str());
            (ProgressState::StartFailed, false, Ghost(seen))
        },
    }
}

/// The scripts of the members of a batch, in order: its steps, its
/// restart, its verifications.
pub open spec fn batch_scripts(
    steps: Seq<crate::scripts::ReapplyScriptStep>,
    restart: Option<&str>,
    checks: Seq<crate::scripts::ReapplyScriptStep>,
) -> Seq<Seq<char>> {
    steps.map_values(|s: crate::scripts::ReapplyScriptStep| s.script@) + match restart {
        Some(x) => seq![x@],
        None => Seq::empty(),
    } + checks.map_values(|s: crate::scripts::ReapplyScriptStep| s.script@)
}

/// The time limits of the members of a batch, in milliseconds: each step
/// by its kind, the restart, then each verification.
pub open spec fn batch_limits(
    plan: Seq<crate::domain::ReapplyView>,
    t: ReapplyTimeouts,
    restart: bool,
    checks: nat,
) -> Seq<u64> {
    Seq::new(plan.len(), |i: int| step_timeout(plan[i], t)) + (if restart {
        seq![t.restart]
    } else {
        Seq::empty()
    }) + Seq::new(checks, |i: int| t.verification)
}

/// The start-failure texts of the members of a batch of `steps` steps,
/// a restart when `restart` holds, and `checks` verifications.
pub open spec fn reapply_prefixes(steps: nat, restart: bool, checks: nat) -> Seq<Seq<char>> {
    Seq::new(
        steps,
        |i: int| "cannot start reapply step "@ + crate::text::decimal((i + 1) as nat) + ": "@,
    ) + (if restart {
        seq!["cannot start reapply restart step: "@]
    } else {
        Seq::empty()
    }) + Seq::new(
        checks,
        |i: int| "cannot start reapply verification "@ + crate::text::decimal((i + 1) as nat) + ": "@,
    )
}

/// Runs a reapply batch: each step within its own limit and the total
/// budget, stopping at the first failure; then the single audio restart,
/// unless a step timed out or none ran; then the verifications, only after
/// the restart succeeded. `elapsed` gives the milliseconds spent so far and
/// `executor` runs a script with a time limit in milliseconds.
#[verifier::rlimit(60)]
pub fn execute_reapply_steps_with<E, F>(
    plan: &Vec<crate::domain::ReapplyAction>,
    steps: &Vec<crate::scripts::ReapplyScriptStep>,
    restart: Option<&str>,
    verifications: &Vec<crate::scripts::ReapplyScriptStep>,
    timeouts: ReapplyTimeouts,
    mut elapsed: E,
    mut executor: F,
) -> (r: ReapplyExecution) where
    E: FnMut() -> u64,
    F: FnMut(&str, u64) -> Result<ExecutionResult, String>,

    requires
        plan@.len() == steps@.len(),
        forall|g: E| #[trigger] call_requires(g, ()),
        forall|g: F, s: &str, t: u64| #[trigger] call_requires(g, (s, t)),
    ensures
        batch_steps_ok(
            r.progress.steps@,
            crate::reapply::steps_view(plan@),
            steps@,
            timeouts,
        ),
        restart is Some <==> r.progress.restart is Some,
        batch_restart_ok(r.progress.steps@, r.progress.restart, timeouts),
        batch_verifications_ok(
            r.progress.verifications@,
            verifications@,
            r.progress.restart,
            timeouts,
        ),
        r.progress.total_timeout_seconds == timeouts.total / 1000,
        r.execution.exit_code == Some(first_failure(batch_states(r.progress))),
        r.execution.timed_out == some_timed_out(batch_states(r.progress)),
        exists|os: Seq<Option<Result<ExecutionResult, String>>>| {
            &&& members_ok::<F>(
                batch_states(r.progress),
                os,
                batch_scripts(steps@, restart, verifications@),
                batch_limits(
                    crate::reapply::steps_view(plan@),
                    timeouts,
                    restart is Some,
                    verifications@.len(),
                ),
                timeouts.total,
            )
            &&& #[trigger] batch_output_spec(
                r.execution,
                batch_markers_spec(r.progress),
                os,
                reapply_prefixes(plan@.len(), restart is Some, verifications@.len()),
            )
        },
{
    let ghost pv = crate::reapply::steps_view(plan@);
    let mut batch = BatchOutput::new();
    let ghost scripts = batch_scripts(steps@, restart, verifications@);
    let ghost prefixes = reapply_prefixes(plan@.len(), restart is Some, verifications@.len());
    let ghost limits = batch_limits(pv, timeouts, restart is Some, verifications@.len());
    let ghost mut os: Seq<Option<Result<ExecutionResult, String>>> = Seq::empty();
    assert(captured(batch) =~= nothing_captured());
    let mut failure_code: i32 = 0;
    let mut any_step_started = false;
    let mut any_timed_out = false;
    let mut total_timed_out = false;
    let mut progress_steps: Vec<StepProgress> = Vec::new();
    let mut i: usize = 0;
    while i < plan.len()
        invariant
            i <= plan@.len(),
            plan@.len() == steps@.len(),
            pv == crate::reapply::steps_view(plan@),
            forall|g: E| #[trigger] call_requires(g, ()),
            forall|g: F, s: &str, t: u64| #[trigger] call_requires(g, (s, t)),
            batch_steps_ok(progress_steps@, pv.take(i as int), steps@.take(i as int), timeouts),
            failure_code == 0 <==> forall|k: int|
                0 <= k < i ==> (#[trigger] progress_steps@[k]).state is Succeeded,
            any_step_started == exists|k: int| 0 <= k < i && step_ran(#[trigger] progress_steps@[k].state),
            any_timed_out == exists|k: int|
                0 <= k < i && step_timed_out(#[trigger] progress_steps@[k].state),
            progress_steps@.len() == i,
            failure_code == first_failure(step_states(progress_steps@)),
            any_timed_out == some_timed_out(step_states(progress_steps@)),
            scripts == batch_scripts(steps@, restart, verifications@),
            prefixes == reapply_prefixes(plan@.len(), restart is Some, verifications@.len()),
            batch.control@ == Seq::<u8>::empty(),
            limits == batch_limits(pv, timeouts, restart is Some, verifications@.len()),
            members_ok::<F>(step_states(progress_steps@), os, scripts, limits, timeouts.total),
            captured(batch) == absorb_all(nothing_captured(), os, prefixes),
        decreases plan@.len() - i,
    {
        let number = i + 1;
        let configured = match &plan[i] {
            crate::domain::ReapplyAction::Policy(_) => timeouts.policy,
            crate::domain::ReapplyAction::Extra(_) => timeouts.extra,
        };
        assert(pv[i as int] == plan@[i as int]@);
        let ghost cap_before = captured(batch);
        let ghost mut x: Option<Result<ExecutionResult, String>> = None;
        assert(scripts[i as int] == steps@[i as int].script@);
        assert(limits[i as int] == configured);
        assert(prefixes[i as int] == "cannot start reapply step "@ + crate::text::decimal((i + 1) as nat) + ": "@);
        let state = if failure_code != 0 {
            ProgressState::SkippedPriorFailure
        } else {
            let spent = elapsed();
            let remaining: u64 = if timeouts.total > spent {
                timeouts.total - spent
            } else {
                0
            };
            if remaining == 0 {
                failure_code = 124;
                any_timed_out = true;
                total_timed_out = true;
                ProgressState::SkippedTotalTimeout
            } else {
                let digits = crate::text::u64_to_string(number as u64);
                let mut prefix = concat2("cannot start reapply step ", digits.as_str());
                push_str(&mut prefix, ": ");
                let (state, ran, Ghost(out)) = run_member(
                    &mut executor,
                    steps[i].script.as_str(),
                    configured,
                    remaining,
                    &mut batch,
                    prefix.as_str(),
                );
                proof {
                    x = Some(out);
                    assert(prefix@ == prefixes[i as int]);
                }
                if ran {
                    any_step_started = true;
                }
                match state {
                    ProgressState::TimedOut { total_budget } => {
                        any_timed_out = true;
                        if total_budget {
                            total_timed_out = true;
                        }
                        failure_code = 124;
                    },
                    ProgressState::Failed(c) => {
                        failure_code = c;
                    },
                    ProgressState::StartFailed => {
                        failure_code = 125;
                    },
                    _ => {},
                }
                state
            }
        };
        let ghost before = progress_steps@;
        proof {
            lemma_push_state(step_states(before), state);
            assert(captured(batch) == match x {
                Some(o) => absorb(cap_before, o, prefixes[i as int]),
                None => cap_before,
            });
            assert(member_ok::<F>(state, x, scripts[i as int], limits[i as int], timeouts.total));
            lemma_members_push::<F>(step_states(before), os, scripts, limits, timeouts.total, state, x);
            lemma_absorb_push(nothing_captured(), os, x, prefixes);
            os = os.push(x);
        }
        progress_steps.push(
            StepProgress {
                number,
                label: steps[i].label.clone(),
                timeout_seconds: configured / 1000,
                state,
            },
        );
        proof {
            let p = progress_steps@;
            assert(step_states(p) =~= step_states(before).push(state));
            assert(pv.take(i + 1)[i as int] == pv[i as int]);
            assert(steps@.take(i + 1)[i as int] == steps@[i as int]);
            assert forall|k: int| 0 <= k < p.len() implies (#[trigger] p[k]).number == k + 1
                && p[k].label@ == steps@.take(i + 1)[k].label@ && p[k].timeout_seconds
                == step_timeout(pv.take(i + 1)[k], timeouts) / 1000 && step_final(p[k].state) by {
                if k < i {
                    assert(p[k] == before[k]);
                    assert(steps@.take(i + 1)[k] == steps@.take(i as int)[k]);
                    assert(pv.take(i + 1)[k] == pv.take(i as int)[k]);
                }
            }
            assert forall|a: int, b: int|
                0 <= a < b < p.len() && !(p[a].state is Succeeded) implies (#[trigger] p[b]).state is SkippedPriorFailure && #[trigger] p[a].number == a + 1 by {
                if b < i {
                    assert(p[a] == before[a]);
                    assert(p[b] == before[b]);
                } else {
                    assert(p[a] == before[a]);
                    assert(before[a].number == a + 1);
                }
            }
            assert(batch_steps_ok(p, pv.take(i + 1), steps@.take(i + 1), timeouts));
            assert forall|k: int| 0 <= k < i implies p[k] == before[k] by {}
            assert((forall|k: int| 0 <= k < i + 1 ==> (#[trigger] p[k]).state is Succeeded) == ((
            forall|k: int| 0 <= k < i ==> (#[trigger] before[k]).state is Succeeded)
                && state is Succeeded)) by {
                if forall|k: int| 0 <= k < i + 1 ==> (#[trigger] p[k]).state is Succeeded {
                    assert(p[i as int].state is Succeeded);
                    assert forall|k: int| 0 <= k < i implies (#[trigger] before[k]).state is Succeeded by {
                        assert(p[k] == before[k]);
                    }
                }
            }
            assert((exists|k: int| 0 <= k < i + 1 && step_ran(#[trigger] p[k].state)) == ((exists|
                k: int,
            | 0 <= k < i && step_ran(#[trigger] before[k].state)) || step_ran(state))) by {
                if exists|k: int| 0 <= k < i + 1 && step_ran(#[trigger] p[k].state) {
                    let k = choose|k: int| 0 <= k < i + 1 && step_ran(#[trigger] p[k].state);
                    if k < i {
                        assert(p[k] == before[k]);
                    }
                }
                if exists|k: int| 0 <= k < i && step_ran(#[trigger] before[k].state) {
                    let k = choose|k: int| 0 <= k < i && step_ran(#[trigger] before[k].state);
                    assert(p[k] == before[k]);
                }
                if step_ran(state) {
                    assert(p[i as int].state == state);
                }
            }
            assert((exists|k: int| 0 <= k < i + 1 && step_timed_out(#[trigger] p[k].state)) == ((exists|
                k: int,
            | 0 <= k < i && step_timed_out(#[trigger] before[k].state)) || step_timed_out(state))) by {
                if exists|k: int| 0 <= k < i + 1 && step_timed_out(#[trigger] p[k].state) {
                    let k = choose|k: int| 0 <= k < i + 1 && step_timed_out(#[trigger] p[k].state);
                    if k < i {
                        assert(p[k] == before[k]);
                    }
                }
                if exists|k: int| 0 <= k < i && step_timed_out(#[trigger] before[k].state) {
                    let k = choose|k: int| 0 <= k < i && step_timed_out(#[trigger] before[k].state);
                    assert(p[k] == before[k]);
                }
                if step_timed_out(state) {
                    assert(p[i as int].state == state);
                }
            }
        }
        i += 1;
    }
    assert(pv.take(plan@.len() as int) =~= pv);
    assert(steps@.take(plan@.len() as int) =~= steps@);
    let ghost cap_steps = captured(batch);
    let ghost mut xr: Option<Result<ExecutionResult, String>> = None;
    let restart_progress = match restart {
        None => None,
        Some(script) => {
            let state = if any_timed_out || !any_step_started {
                ProgressState::SkippedPriorFailure
            } else {
                let spent = elapsed();
                let remaining: u64 = if timeouts.total > spent {
                    timeouts.total - spent
                } else {
                    0
                };
                if remaining == 0 {
                    any_timed_out = true;
                    total_timed_out = true;
                    if failure_code == 0 {
                        failure_code = 124;
                    }
                    ProgressState::SkippedTotalTimeout
                } else {
                    let (state, _, Ghost(out)) = run_member(
                        &mut executor,
                        script,
                        timeouts.restart,
                        remaining,
                        &mut batch,
                        "cannot start reapply restart step: ",
                    );
                    proof {
                        xr = Some(out);
                    }
                    match state {
                        ProgressState::TimedOut { total_budget } => {
                            any_timed_out = true;
                            if total_budget {
                                total_timed_out = true;
                            }
                            if failure_code == 0 {
                                failure_code = 124;
                            }
                        },
                        ProgressState::Failed(c) => {
                            if failure_code == 0 {
                                failure_code = c;
                            }
                        },
                        ProgressState::StartFailed => {
                            if failure_code == 0 {
                                failure_code = 125;
                            }
                        },
                        _ => {},
                    }
                    state
                }
            };
            Some(RestartProgress { timeout_seconds: timeouts.restart / 1000, state })
        },
    };
    let ghost head = step_states(progress_steps@) + match restart_progress {
        Some(rs) => seq![rs.state],
        None => Seq::<ProgressState>::empty(),
    };
    proof {
        let n = plan@.len() as int;
        match restart_progress {
            Some(rs) => {
                lemma_push_state(step_states(progress_steps@), rs.state);
                assert(head =~= step_states(progress_steps@).push(rs.state));
                assert(scripts[n] == restart->0@);
                assert(prefixes[n] == "cannot start reapply restart step: "@);
                assert(captured(batch) == match xr {
                    Some(o) => absorb(cap_steps, o, prefixes[n]),
                    None => cap_steps,
                });
                assert(limits[n] == timeouts.restart);
                assert(member_ok::<F>(rs.state, xr, scripts[n], limits[n], timeouts.total));
                lemma_members_push::<F>(step_states(progress_steps@), os, scripts, limits, timeouts.total, rs.state, xr);
                lemma_absorb_push(nothing_captured(), os, xr, prefixes);
                os = os.push(xr);
            },
            None => {
                assert(head =~= step_states(progress_steps@));
            },
        }
        assert(head + step_states(Seq::<StepProgress>::empty()) =~= head);
    }
    let restart_succeeded = match restart_progress {
        Some(rs) => rs.state.succeeded(),
        None => true,
    };
    let mut progress_checks: Vec<StepProgress> = Vec::new();
    let mut k: usize = 0;
    while k < verifications.len()
        invariant
            k <= verifications@.len(),
            forall|g: E| #[trigger] call_requires(g, ()),
            forall|g: F, s: &str, t: u64| #[trigger] call_requires(g, (s, t)),
            restart_succeeded == done_or_absent(
                match restart_progress {
                    Some(rs) => Some(rs.state),
                    None => None,
                },
            ),
            progress_checks@.len() == k,
            forall|j: int|
                0 <= j < k ==> (#[trigger] progress_checks@[j]).number == j + 1
                    && progress_checks@[j].label@ == verifications@[j].label@
                    && progress_checks@[j].timeout_seconds == timeouts.verification / 1000
                    && step_final(progress_checks@[j].state),
            !restart_succeeded ==> forall|j: int|
                0 <= j < k ==> (#[trigger] progress_checks@[j]).state is SkippedPriorFailure,
            (exists|j: int| 0 <= j < k && step_timed_out(#[trigger] progress_checks@[j].state))
                ==> any_timed_out,
            forall|a: int, b: int|
                0 <= a < b < k && step_timed_out(progress_checks@[a].state) ==> (#[trigger] progress_checks@[b]).state is SkippedPriorFailure && #[trigger] progress_checks@[a].number == a + 1,
            failure_code == first_failure(head + step_states(progress_checks@)),
            any_timed_out == some_timed_out(head + step_states(progress_checks@)),
            scripts == batch_scripts(steps@, restart, verifications@),
            prefixes == reapply_prefixes(plan@.len(), restart is Some, verifications@.len()),
            head.len() == plan@.len() + (if restart is Some { 1int } else { 0int }),
            plan@.len() == steps@.len(),
            batch.control@ == Seq::<u8>::empty(),
            limits == batch_limits(pv, timeouts, restart is Some, verifications@.len()),
            pv.len() == plan@.len(),
            members_ok::<F>(head + step_states(progress_checks@), os, scripts, limits, timeouts.total),
            captured(batch) == absorb_all(nothing_captured(), os, prefixes),
        decreases verifications@.len() - k,
    {
        let number = k + 1;
        let ghost m = head.len() + k;
        let ghost cap_before = captured(batch);
        let ghost mut x: Option<Result<ExecutionResult, String>> = None;
        assert(scripts[m] == verifications@[k as int].script@) by {
            let front = steps@.map_values(|s: crate::scripts::ReapplyScriptStep| s.script@) + match restart {
                Some(x) => seq![x@],
                None => Seq::<Seq<char>>::empty(),
            };
            let back = verifications@.map_values(|s: crate::scripts::ReapplyScriptStep| s.script@);
            assert(scripts == front + back);
            assert(front.len() == head.len());
            assert((front + back)[m] == back[k as int]);
        }
        assert(prefixes[m] == "cannot start reapply verification "@ + crate::text::decimal((k + 1) as nat) + ": "@);
        let state = if !restart_succeeded || any_timed_out {
            ProgressState::SkippedPriorFailure
        } else {
            let spent = elapsed();
            let remaining: u64 = if timeouts.total > spent {
                timeouts.total - spent
            } else {
                0
            };
            if remaining == 0 {
                any_timed_out = true;
                total_timed_out = true;
                if failure_code == 0 {
                    failure_code = 124;
                }
                ProgressState::SkippedTotalTimeout
            } else {
                let digits = crate::text::u64_to_string(number as u64);
                let mut prefix = concat2("cannot start reapply verification ", digits.as_str());
                push_str(&mut prefix, ": ");
                let (state, _, Ghost(out)) = run_member(
                    &mut executor,
                    verifications[k].script.as_str(),
                    timeouts.verification,
                    remaining,
                    &mut batch,
                    prefix.as_str(),
                );
                proof {
                    x = Some(out);
                    assert(prefix@ == prefixes[m]);
                }
                match state {
                    ProgressState::TimedOut { total_budget } => {
                        any_timed_out = true;
                        if total_budget {
                            total_timed_out = true;
                        }
                        if failure_code == 0 {
                            failure_code = 124;
                        }
                    },
                    ProgressState::Failed(c) => {
                        if failure_code == 0 {
                            failure_code = c;
                        }
                    },
                    ProgressState::StartFailed => {
                        if failure_code == 0 {
                            failure_code = 125;
                        }
                    },
                    _ => {},
                }
                state
            }
        };
        let ghost before = progress_checks@;
        proof {
            lemma_push_state(head + step_states(before), state);
            assert(captured(batch) == match x {
                Some(o) => absorb(cap_before, o, prefixes[m]),
                None => cap_before,
            });
            assert(member_ok::<F>(state, x, scripts[m], limits[m], timeouts.total));
            lemma_members_push::<F>(head + step_states(before), os, scripts, limits, timeouts.total, state, x);
            lemma_absorb_push(nothing_captured(), os, x, prefixes);
            os = os.push(x);
        }
        progress_checks.push(
            StepProgress {
                number,
                label: verifications[k].label.clone(),
                timeout_seconds: timeouts.verification / 1000,
                state,
            },
        );
        proof {
            let p = progress_checks@;
            assert(head + step_states(p) =~= (head + step_states(before)).push(state));
            assert forall|j: int| 0 <= j < k implies p[j] == before[j] by {}
            assert forall|a: int, b: int|
                0 <= a < b < p.len() && step_timed_out(p[a].state) implies (#[trigger] p[b]).state is SkippedPriorFailure && #[trigger] p[a].number == a + 1 by {
                assert(p[a] == before[a]);
                if b < k {
                    assert(p[b] == before[b]);
                }
            }
        }
        k += 1;
    }
    let progress = ReapplyProgress {
        total_timeout_seconds: timeouts.total / 1000,
        total_timed_out,
        steps: progress_steps,
        restart: restart_progress,
        verifications: progress_checks,
    };
    assert(batch_states(progress) =~= head + step_states(progress.verifications@));
    let markers = progress.render_markers();
    batch.marker(markers.as_str());
    assert(batch.control@ =~= vstd::utf8::encode_utf8(batch_markers_spec(progress)));
    let execution = batch.finish(failure_code, any_timed_out);
    assert(batch_output_spec(execution, batch_markers_spec(progress), os, prefixes));
    ReapplyExecution { execution, progress }
}

/// All the scripts of a batch in one text, for the audit log, with a
/// boundary comment between members.
pub fn reapply_script_bundle(
    steps: &Vec<crate::scripts::ReapplyScriptStep>,
    restart: Option<&str>,
    verifications: &Vec<crate::scripts::ReapplyScriptStep>,
) -> (r: String)
    ensures
        r@ == bundle_spec(
            steps@.map_values(|s: crate::scripts::ReapplyScriptStep| s.script@),
            match restart {
                Some(x) => Some(x@),
                None => None,
            },
            verifications@.map_values(|s: crate::scripts::ReapplyScriptStep| s.script@),
        ),
{
    let mut bundle = String::new();
    let ghost sv = steps@.map_values(|s: crate::scripts::ReapplyScriptStep| s.script@);
    let mut i: usize = 0;
    while i < steps.len()
        invariant
            i <= steps@.len(),
            sv == steps@.map_values(|s: crate::scripts::ReapplyScriptStep| s.script@),
            bundle@ == join_members(Seq::empty(), sv.take(i as int), "\n# controller-reapply-step-boundary\n"@),
        decreases steps@.len() - i,
    {
        if bundle.unicode_len() > 0 {
            push_str(&mut bundle, "\n# controller-reapply-step-boundary\n");
        }
        push_str(&mut bundle, steps[i].script.as_str());
        assert(sv.take(i + 1).drop_last() =~= sv.take(i as int));
        assert(sv.take(i + 1).last() == steps@[i as int].script@);
        i += 1;
    }
    assert(sv.take(steps@.len() as int) =~= sv);
    let ghost after_steps = bundle@;
    if let Some(r) = restart {
        if bundle.unicode_len() > 0 {
            push_str(&mut bundle, "\n# controller-reapply-restart-boundary\n");
        }
        push_str(&mut bundle, r);
    }
    let ghost after_restart = bundle@;
    let ghost vv = verifications@.map_values(|s: crate::scripts::ReapplyScriptStep| s.script@);
    let mut k: usize = 0;
    while k < verifications.len()
        invariant
            k <= verifications@.len(),
            vv == verifications@.map_values(|s: crate::scripts::ReapplyScriptStep| s.script@),
            bundle@ == join_members(after_restart, vv.take(k as int), "\n# controller-reapply-verification-boundary\n"@),
        decreases verifications@.len() - k,
    {
        if bundle.unicode_len() > 0 {
            push_str(&mut bundle, "\n# controller-reapply-verification-boundary\n");
        }
        push_str(&mut bundle, verifications[k].script.as_str());
        assert(vv.take(k + 1).drop_last() =~= vv.take(k as int));
        assert(vv.take(k + 1).last() == verifications@[k as int].script@);
        k += 1;
    }
    assert(vv.take(verifications@.len() as int) =~= vv);
    bundle
}

/// `base` followed by `parts`, each preceded by `sep` when the text so far
/// is not empty.
pub open spec fn join_members(base: Seq<char>, parts: Seq<Seq<char>>, sep: Seq<char>) -> Seq<char>
    decreases parts.len(),
{
    if parts.len() == 0 {
        base
    } else {
        let before = join_members(base, parts.drop_last(), sep);
        if before.len() > 0 {
            before + sep + parts.last()
        } else {
            before + parts.last()
        }
    }
}

/// The audit text of a batch: its steps, its restart, its verifications.
pub open spec fn bundle_spec(steps: Seq<Seq<char>>, restart: Option<Seq<char>>, checks: Seq<Seq<char>>) -> Seq<char> {
    let s = join_members(Seq::empty(), steps, "\n# controller-reapply-step-boundary\n"@);
    let r = match restart {
        Some(x) => if s.len() > 0 {
            s + "\n# controller-reapply-restart-boundary\n"@ + x
        } else {
            s + x
        },
        None => s,
    };
    join_members(r, checks, "\n# controller-reapply-verification-boundary\n"@)
}

} // verus!
