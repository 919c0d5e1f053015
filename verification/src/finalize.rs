//! What happens after an operation's scripts ran: how far it got, whether
//! the Bluetooth route is checked, whether the state may record it, and the
//! audit records and report that describe it.
use vstd::prelude::*;
use vstd::string::StringSliceAdditionalSpecFns;
use vstd::utf8::encode_utf8;

use crate::android::A2dpState;
use crate::domain::{ExtraAction, Settings};
use crate::operation::{
    batch_state_spec, classify_operation_state, classify_upstream, contract_spec, done_or_absent,
    flag_text, has_started_line, int_text, i32_to_string, persistence_allowed_with_progress,
    persistence_spec, phased_state_spec, render_operation_contract, script_summary,
    script_summary_spec, single_state_spec, upstream_spec, upstream_started, ExecutionResult,
    OperationKind, OperationResult, OperationState, PhasedMutationProgress, ReapplyProgress,
};
use crate::paths::LOG_ROOT;
use crate::text::{decimal, owned, push_decimal, push_str, views};

verus! {

broadcast use vstd::string::group_string_axioms;

// ---------------------------------------------------------------------------
// Bytes of text
// ---------------------------------------------------------------------------

/// Appends the UTF-8 bytes of `text`.
pub fn append_text(target: &mut Vec<u8>, text: &str)
    ensures
        final(target)@ == old(target)@ + text.spec_bytes(),
{
    let bytes = text.as_bytes();
    let mut i: usize = 0;
    while i < bytes.len()
        invariant
            i <= bytes@.len(),
            bytes@ == text.spec_bytes(),
            target@ == old(target)@ + bytes@.take(i as int),
        decreases bytes@.len() - i,
    {
        target.push(bytes[i]);
        assert(target@ =~= old(target)@ + bytes@.take(i + 1));
        i += 1;
    }
    assert(bytes@.take(bytes@.len() as int) =~= bytes@);
}

/// What `String::from_utf8_lossy` makes of a byte string.
pub uninterp spec fn utf8_lossy(bytes: Seq<u8>) -> Seq<char>;

/// `String::from_utf8_lossy`, owned: the text of `bytes`, with each invalid
/// sequence replaced by U+FFFD.
#[verifier::external_body]
pub(crate) fn lossy_text(bytes: &[u8]) -> (r: String)
    ensures
        r@ == utf8_lossy(bytes@),
{
    String::from_utf8_lossy(bytes).into_owned()
}

// ---------------------------------------------------------------------------
// The plan after execution
// ---------------------------------------------------------------------------

/// What the Bluetooth post-check does.
#[derive(Clone, Copy, Debug, PartialEq, Eq, Structural)]
pub enum PostCheck {
    /// Nothing may have changed, or a later phase failed.
    Skipped,
    /// The route was unknown before the operation.
    Unknown,
    /// A connected route must come back.
    RouteCheck,
    /// The action does not touch the route.
    NotRequired,
    /// No route was connected before the operation.
    NotConnected,
}

/// How far an operation got, and what is done next.
pub struct FinalizePlan {
    pub upstream_status: &'static str,
    pub upstream_code: i32,
    pub operation_state: Option<OperationState>,
    pub operation_applied: bool,
    pub operation_started: bool,
    pub persistence_allowed: bool,
    pub post_check: PostCheck,
}

/// The state of a mutation: from the batch's progress, else the phases',
/// else the single script's output; a query has none.
pub open spec fn plan_state(
    kind: OperationKind,
    e: ExecutionResult,
    reapply: Option<&ReapplyProgress>,
    phased: Option<PhasedMutationProgress>,
) -> Option<OperationState> {
    if kind == OperationKind::Mutation {
        Some(
            match reapply {
                Some(r) => batch_state_spec(*r),
                None => match phased {
                    Some(p) => phased_state_spec(p),
                    None => single_state_spec(
                        e.stdout@,
                        e.stderr@,
                        e.timed_out,
                        upstream_spec(e.timed_out, e.exit_code).1,
                    ),
                },
            },
        )
    } else {
        None
    }
}

/// Something may have changed.
pub open spec fn may_have_applied(state: Option<OperationState>) -> bool {
    state matches Some(s) && s != OperationState::NotStarted
}

/// The restart, if any, and every verification of a batch succeeded.
pub open spec fn batch_post_ready(p: ReapplyProgress) -> bool {
    (match p.restart {
        Some(rs) => rs.state is Succeeded,
        None => true,
    }) && forall|i: int|
        0 <= i < p.verifications@.len() ==> (#[trigger] p.verifications@[i]).state is Succeeded
}

/// Whether the route may be checked: after every later phase succeeded, or
/// without phases once something may have changed.
pub open spec fn post_ready(
    state: Option<OperationState>,
    reapply: Option<&ReapplyProgress>,
    phased: Option<PhasedMutationProgress>,
) -> bool {
    match phased {
        Some(p) => done_or_absent(p.restart) && done_or_absent(p.verification),
        None => match reapply {
            Some(r) => batch_post_ready(*r),
            None => may_have_applied(state),
        },
    }
}

/// The post-check for the route seen before the operation.
pub open spec fn post_check_spec(ready: bool, applied: bool, a2dp: Option<A2dpState>) -> PostCheck {
    if !applied || !ready {
        PostCheck::Skipped
    } else {
        match a2dp {
            Some(A2dpState::Unknown) => PostCheck::Unknown,
            Some(A2dpState::Connected) => PostCheck::RouteCheck,
            None => PostCheck::NotRequired,
            Some(A2dpState::Disconnected) => PostCheck::NotConnected,
        }
    }
}

/// Decides, from what the scripts gave, how far an operation got and what
/// follows: its state, whether it started, whether the state may record it
/// (decided by the mutation phase alone), and the route post-check.
pub fn plan_finalize(
    kind: OperationKind,
    execution: &ExecutionResult,
    reapply: Option<&ReapplyProgress>,
    phased: Option<PhasedMutationProgress>,
    a2dp_state: Option<A2dpState>,
) -> (r: FinalizePlan)
    ensures
        r.upstream_status@ == upstream_spec(execution.timed_out, execution.exit_code).0,
        r.upstream_code == upstream_spec(execution.timed_out, execution.exit_code).1,
        r.operation_state == plan_state(kind, *execution, reapply, phased),
        r.operation_applied == (r.operation_state == Some(OperationState::Applied)),
        r.operation_started == ((!execution.timed_out && r.upstream_code == 0)
            || has_started_line(execution.stdout@) || has_started_line(execution.stderr@)
            || may_have_applied(r.operation_state)),
        r.persistence_allowed == persistence_spec(
            kind,
            !execution.timed_out && r.upstream_code == 0,
            r.operation_state,
            match phased {
                Some(p) => Some(p.business is Succeeded),
                None => None,
            },
        ),
        r.post_check == post_check_spec(
            post_ready(r.operation_state, reapply, phased),
            may_have_applied(r.operation_state),
            a2dp_state,
        ),
{
    let timed_out = execution.timed_out;
    let (upstream_status, upstream_code) = classify_upstream(timed_out, execution.exit_code);
    let operation_state = match kind {
        OperationKind::Mutation => Some(
            match reapply {
                Some(r) => r.operation_state(),
                None => match phased {
                    Some(p) => p.operation_state(),
                    None => classify_operation_state(execution, timed_out, upstream_code),
                },
            },
        ),
        OperationKind::Query => None,
    };
    let operation_applied = match operation_state {
        Some(s) => s.legacy_applied(),
        None => false,
    };
    let may_have = match operation_state {
        Some(OperationState::NotStarted) => false,
        Some(_) => true,
        None => false,
    };
    let ready = match phased {
        Some(p) => p.post_check_ready(),
        None => match reapply {
            Some(r) => r.post_check_ready(),
            None => may_have,
        },
    };
    let upstream_succeeded = !timed_out && upstream_code == 0;
    let operation_started = upstream_succeeded || upstream_started(execution) || may_have;
    let phased_ready = match phased {
        Some(p) => Some(p.persistence_ready()),
        None => None,
    };
    let persistence_allowed = persistence_allowed_with_progress(
        kind,
        upstream_succeeded,
        operation_state,
        phased_ready,
    );
    let post_check = if !may_have || !ready {
        PostCheck::Skipped
    } else {
        match a2dp_state {
            Some(A2dpState::Unknown) => PostCheck::Unknown,
            Some(A2dpState::Connected) => PostCheck::RouteCheck,
            None => PostCheck::NotRequired,
            Some(A2dpState::Disconnected) => PostCheck::NotConnected,
        }
    };
    FinalizePlan {
        upstream_status,
        upstream_code,
        operation_state,
        operation_applied,
        operation_started,
        persistence_allowed,
        post_check,
    }
}

/// Notes a timeout of the controller in the captured error output.
pub fn note_timeout(execution: &mut ExecutionResult)
    ensures
        final(execution).stderr@ == if old(execution).timed_out {
            old(execution).stderr@ + "controller execution timed out\n".spec_bytes()
        } else {
            old(execution).stderr@
        },
        final(execution).stdout == old(execution).stdout,
        final(execution).exit_code == old(execution).exit_code,
        final(execution).timed_out == old(execution).timed_out,
        final(execution).stdout_truncated == old(execution).stdout_truncated,
        final(execution).stderr_truncated == old(execution).stderr_truncated,
{
    if execution.timed_out {
        append_text(&mut execution.stderr, "controller execution timed out\n");
    }
}

// ---------------------------------------------------------------------------
// The route post-check
// ---------------------------------------------------------------------------

/// The label of a post-check; for a route check it holds only once the
/// route came back.
pub open spec fn post_check_label(p: PostCheck) -> Seq<char> {
    match p {
        PostCheck::Skipped => "skipped"@,
        PostCheck::Unknown => "unknown"@,
        PostCheck::RouteCheck => "ok"@,
        PostCheck::NotRequired => "not-required"@,
        PostCheck::NotConnected => "not-connected"@,
    }
}

/// The line a post-check adds to the output before any verification.
pub open spec fn post_check_line(p: PostCheck) -> Option<&'static str> {
    match p {
        PostCheck::Unknown => Some("bluetooth_a2dp_state=unknown\n"),
        PostCheck::RouteCheck => Some("bluetooth_a2dp_before=1\n"),
        _ => None,
    }
}

/// Starts the post-check: records what was seen before the operation and
/// gives the label.
pub fn begin_post_check(post_check: PostCheck, execution: &mut ExecutionResult) -> (r: &'static str)
    ensures
        r@ == post_check_label(post_check),
        final(execution).stdout@ == match post_check_line(post_check) {
            Some(line) => old(execution).stdout@ + line.spec_bytes(),
            None => old(execution).stdout@,
        },
        final(execution).stderr == old(execution).stderr,
        final(execution).exit_code == old(execution).exit_code,
        final(execution).timed_out == old(execution).timed_out,
        final(execution).stdout_truncated == old(execution).stdout_truncated,
        final(execution).stderr_truncated == old(execution).stderr_truncated,
{
    match post_check {
        PostCheck::Skipped => "skipped",
        PostCheck::Unknown => {
            append_text(&mut execution.stdout, "bluetooth_a2dp_state=unknown\n");
            "unknown"
        },
        PostCheck::RouteCheck => {
            append_text(&mut execution.stdout, "bluetooth_a2dp_before=1\n");
            "ok"
        },
        PostCheck::NotRequired => "not-required",
        PostCheck::NotConnected => "not-connected",
    }
}

/// Records the outcome of the route check. A confirmed route is written to
/// the output; an unconfirmed one sets the controller's exit to 72.
pub fn finish_route_check(execution: &mut ExecutionResult, code: i32, verdict: Result<&str, String>) -> (r: (&'static str, i32))
    ensures
        match verdict {
            Ok(result) => {
                &&& r.0@ == "ok"@
                &&& r.1 == code
                &&& final(execution).stdout@ == old(execution).stdout@ + encode_utf8(
                    "bluetooth_route_check="@ + result@ + "\nbluetooth_a2dp_after=1\n"@,
                )
                &&& final(execution).stderr == old(execution).stderr
            },
            Err(error) => {
                &&& r.0@ == "a2dp-route-failed"@
                &&& r.1 == 72
                &&& final(execution).stderr@ == old(execution).stderr@ + encode_utf8(
                    "Bluetooth media route verification failed: "@ + error@ + "\n"@,
                )
                &&& final(execution).stdout == old(execution).stdout
            },
        },
        final(execution).exit_code == old(execution).exit_code,
        final(execution).timed_out == old(execution).timed_out,
        final(execution).stdout_truncated == old(execution).stdout_truncated,
        final(execution).stderr_truncated == old(execution).stderr_truncated,
{
    match verdict {
        Ok(result) => {
            let mut line = owned("bluetooth_route_check=");
            push_str(&mut line, result);
            push_str(&mut line, "\nbluetooth_a2dp_after=1\n");
            append_text(&mut execution.stdout, line.as_str());
            ("ok", code)
        },
        Err(error) => {
            let mut line = owned("Bluetooth media route verification failed: ");
            push_str(&mut line, error.as_str());
            push_str(&mut line, "\n");
            append_text(&mut execution.stderr, line.as_str());
            ("a2dp-route-failed", 72)
        },
    }
}

// ---------------------------------------------------------------------------
// State persistence
// ---------------------------------------------------------------------------

/// What a successful operation asks the state to record.
pub enum Persistence<'a> {
    PolicyApply(&'a Settings),
    PolicyReset,
    Extra(&'a ExtraAction),
    AlreadyPersisted,
    NotRequired,
}

/// The status of a persistence that needs no write.
pub open spec fn settled_spec(p: Persistence) -> Option<Seq<char>> {
    match p {
        Persistence::Extra(a) => if crate::domain::persists_spec(a@) {
            None
        } else {
            Some("not-required"@)
        },
        Persistence::AlreadyPersisted => Some("ok"@),
        Persistence::NotRequired => Some("not-required"@),
        _ => None,
    }
}

impl<'a> Persistence<'a> {
    /// The status when nothing has to be written; `None` when the state
    /// must be written.
    pub fn settled(&self) -> (r: Option<&'static str>)
        ensures
            match settled_spec(*self) {
                Some(s) => r matches Some(t) && t@ == s,
                None => r is None,
            },
    {
        match self {
            Persistence::Extra(action) => if action.persists_state() {
                None
            } else {
                Some("not-required")
            },
            Persistence::AlreadyPersisted => Some("ok"),
            Persistence::NotRequired => Some("not-required"),
            _ => None,
        }
    }
}

/// The message of a failed persistence.
pub open spec fn persistence_failure(kind: OperationKind, error: Seq<char>) -> Seq<char> {
    match kind {
        OperationKind::Mutation => "System was modified but controller state persistence failed: "@
            + error + "\n"@,
        OperationKind::Query => "Query succeeded but controller preference persistence failed: "@
            + error + "\n"@,
    }
}

/// Records how persistence ended: skipped when it was not attempted, the
/// status when it succeeded; a failure is reported and turns a successful
/// operation's code into 73.
pub fn record_persistence(
    execution: &mut ExecutionResult,
    kind: OperationKind,
    code: i32,
    outcome: Option<Result<&'static str, String>>,
) -> (r: (&'static str, i32))
    ensures
        match outcome {
            None => r.0@ == "skipped"@ && r.1 == code && final(execution).stderr == old(
                execution,
            ).stderr,
            Some(Ok(status)) => r.0 == status && r.1 == code && final(execution).stderr == old(
                execution,
            ).stderr,
            Some(Err(error)) => {
                &&& r.0@ == "failed"@
                &&& r.1 == (if code == 0 {
                    73
                } else {
                    code
                })
                &&& final(execution).stderr@ == old(execution).stderr@ + encode_utf8(
                    persistence_failure(kind, error@),
                )
            },
        },
        final(execution).stdout == old(execution).stdout,
        final(execution).exit_code == old(execution).exit_code,
        final(execution).timed_out == old(execution).timed_out,
        final(execution).stdout_truncated == old(execution).stdout_truncated,
        final(execution).stderr_truncated == old(execution).stderr_truncated,
{
    match outcome {
        None => ("skipped", code),
        Some(Ok(status)) => (status, code),
        Some(Err(error)) => {
            let mut line = match kind {
                OperationKind::Mutation => owned(
                    "System was modified but controller state persistence failed: ",
                ),
                OperationKind::Query => owned(
                    "Query succeeded but controller preference persistence failed: ",
                ),
            };
            push_str(&mut line, error.as_str());
            push_str(&mut line, "\n");
            append_text(&mut execution.stderr, line.as_str());
            ("failed", if code == 0 {
                73
            } else {
                code
            })
        },
    }
}

/// Notes that the audit records could not be written.
pub fn note_audit_failure(execution: &mut ExecutionResult, error: &str) -> (r: &'static str)
    ensures
        r@ == "failed"@,
        final(execution).stderr@ == old(execution).stderr@ + encode_utf8(
            "Audit log write failed: "@ + error@ + "\n"@,
        ),
        final(execution).stdout == old(execution).stdout,
        final(execution).exit_code == old(execution).exit_code,
        final(execution).timed_out == old(execution).timed_out,
        final(execution).stdout_truncated == old(execution).stdout_truncated,
        final(execution).stderr_truncated == old(execution).stderr_truncated,
{
    let mut line = owned("Audit log write failed: ");
    push_str(&mut line, error);
    push_str(&mut line, "\n");
    append_text(&mut execution.stderr, line.as_str());
    "failed"
}

// ---------------------------------------------------------------------------
// Audit records
// ---------------------------------------------------------------------------

/// Everything the audit records say of one operation.
pub struct AuditRecord<'a> {
    pub action: &'a str,
    pub kind: OperationKind,
    pub result: OperationResult,
    pub route: &'a str,
    pub code: i32,
    pub command: &'a str,
    pub business_commands: &'a [String],
    pub script: &'a str,
    pub timed_out: bool,
    pub stdout_truncated: bool,
    pub stderr_truncated: bool,
    pub upstream_status: &'a str,
    pub post_check: &'a str,
    pub state_persist: &'a str,
    pub operation_applied: bool,
    pub operation_state: Option<OperationState>,
}

fn flag(b: bool) -> (r: &'static str)
    ensures
        r@ == flag_text(b),
{
    if b {
        "1"
    } else {
        "0"
    }
}

/// `business_command_<n>=<command>` for each business command.
pub open spec fn business_lines(commands: Seq<Seq<char>>, n: int) -> Seq<char>
    decreases n,
{
    if n <= 0 {
        Seq::empty()
    } else {
        business_lines(commands, n - 1) + "business_command_"@ + decimal(n as nat) + "="@
            + commands[n - 1] + "\n"@
    }
}

/// Numbers the business commands of an operation for its audit records.
pub fn render_business_commands(commands: &[String]) -> (r: String)
    ensures
        r@ == business_lines(views(commands@), commands@.len() as int),
{
    let mut rendered = String::new();
    let mut i: usize = 0;
    while i < commands.len()
        invariant
            i <= commands@.len(),
            rendered@ == business_lines(views(commands@), i as int),
        decreases commands@.len() - i,
    {
        push_str(&mut rendered, "business_command_");
        push_decimal(&mut rendered, (i + 1) as u64);
        push_str(&mut rendered, "=");
        push_str(&mut rendered, commands[i].as_str());
        push_str(&mut rendered, "\n");
        i += 1;
    }
    rendered
}

/// `operation_state=<state>` when the record has a state.
pub open spec fn state_field(state: Option<OperationState>) -> Seq<char> {
    match state {
        Some(s) => "operation_state="@ + s.label_spec() + "\n"@,
        None => Seq::empty(),
    }
}

fn render_state_field(state: Option<OperationState>) -> (r: String)
    ensures
        r@ == state_field(state),
{
    match state {
        Some(s) => {
            let mut f = owned("operation_state=");
            push_str(&mut f, s.label());
            push_str(&mut f, "\n");
            f
        },
        None => String::new(),
    }
}

/// The fields both audit logs share, at `time`.
pub open spec fn audit_header(r: AuditRecord, time: nat) -> Seq<char> {
    "time="@ + decimal(time) + "\naction="@ + r.action@ + "\noperation_kind="@
        + r.kind.label_spec() + "\noperation_result="@ + r.result.label_spec() + "\nroute="@
        + r.route@ + "\nexit="@ + int_text(r.code as int) + "\nupstream_status="@
        + r.upstream_status@ + "\npost_check="@ + r.post_check@ + "\nstate_persist="@
        + r.state_persist@ + "\noperation_applied="@ + flag_text(r.operation_applied) + "\n"@
        + state_field(r.operation_state) + "audit_status=ok\ncommand="@ + r.command@
        + "\nrunner_command="@ + r.command@ + "\n"@ + business_lines(
        views(r.business_commands@),
        r.business_commands@.len() as int,
    ) + "script_summary="@ + script_summary_spec(r.script) + "\ntimed_out="@ + flag_text(
        r.timed_out,
    ) + "\nstdout_truncated="@ + flag_text(r.stdout_truncated) + "\nstderr_truncated="@
        + flag_text(r.stderr_truncated) + "\n"@
}

/// The command log (`last-command.log`): the shared fields alone.
pub fn render_command_log(record: &AuditRecord, time: u64) -> (r: String)
    ensures
        r@ == audit_header(*record, time as nat),
{
    let mut out = owned("time=");
    push_decimal(&mut out, time);
    push_str(&mut out, "\naction=");
    push_str(&mut out, record.action);
    push_str(&mut out, "\noperation_kind=");
    push_str(&mut out, record.kind.label());
    push_str(&mut out, "\noperation_result=");
    push_str(&mut out, record.result.label());
    push_str(&mut out, "\nroute=");
    push_str(&mut out, record.route);
    push_str(&mut out, "\nexit=");
    push_str(&mut out, i32_to_string(record.code).as_str());
    push_str(&mut out, "\nupstream_status=");
    push_str(&mut out, record.upstream_status);
    push_str(&mut out, "\npost_check=");
    push_str(&mut out, record.post_check);
    push_str(&mut out, "\nstate_persist=");
    push_str(&mut out, record.state_persist);
    push_str(&mut out, "\noperation_applied=");
    push_str(&mut out, flag(record.operation_applied));
    push_str(&mut out, "\n");
    push_str(&mut out, render_state_field(record.operation_state).as_str());
    push_str(&mut out, "audit_status=ok\ncommand=");
    push_str(&mut out, record.command);
    push_str(&mut out, "\nrunner_command=");
    push_str(&mut out, record.command);
    push_str(&mut out, "\n");
    push_str(&mut out, render_business_commands(record.business_commands).as_str());
    push_str(&mut out, "script_summary=");
    push_str(&mut out, script_summary(record.script).as_str());
    push_str(&mut out, "\ntimed_out=");
    push_str(&mut out, flag(record.timed_out));
    push_str(&mut out, "\nstdout_truncated=");
    push_str(&mut out, flag(record.stdout_truncated));
    push_str(&mut out, "\nstderr_truncated=");
    push_str(&mut out, flag(record.stderr_truncated));
    push_str(&mut out, "\n");
    out
}

/// The operation log (`last.log`): the shared fields, then the output.
pub fn render_operation_log(record: &AuditRecord, time: u64, output: &ExecutionResult) -> (r: String)
    ensures
        r@ == audit_header(*record, time as nat) + "\n[stdout]\n"@ + utf8_lossy(output.stdout@)
            + "\n\n[stderr]\n"@ + utf8_lossy(output.stderr@) + "\n"@,
{
    let mut out = render_command_log(record, time);
    push_str(&mut out, "\n[stdout]\n");
    push_str(&mut out, lossy_text(output.stdout.as_slice()).as_str());
    push_str(&mut out, "\n\n[stderr]\n");
    push_str(&mut out, lossy_text(output.stderr.as_slice()).as_str());
    push_str(&mut out, "\n");
    out
}

/// The summary of the last mutation (`last.status`).
pub open spec fn last_status(r: AuditRecord, time: nat) -> Seq<char> {
    "last_action="@ + r.action@ + "\nlast_operation_kind="@ + r.kind.label_spec()
        + "\nlast_operation_result="@ + r.result.label_spec() + "\nlast_route="@ + r.route@
        + "\nlast_exit="@ + int_text(r.code as int) + "\nlast_time="@ + decimal(time)
        + "\nlast_timed_out="@ + flag_text(r.timed_out) + "\nlast_stdout_truncated="@ + flag_text(
        r.stdout_truncated,
    ) + "\nlast_stderr_truncated="@ + flag_text(r.stderr_truncated) + "\nlast_upstream_status="@
        + r.upstream_status@ + "\nlast_post_check="@ + r.post_check@ + "\nlast_state_persist="@
        + r.state_persist@ + "\nlast_operation_applied="@ + flag_text(r.operation_applied)
        + "\nlast_operation_state="@ + r.operation_state->0.label_spec()
        + "\nlast_audit_status=ok\n"@
}

/// The last-mutation summary; a query leaves the previous one in place.
pub fn render_last_status(record: &AuditRecord, time: u64) -> (r: Option<String>)
    requires
        record.kind == OperationKind::Mutation ==> record.operation_state is Some,
    ensures
        match record.kind {
            OperationKind::Mutation => r matches Some(s) && s@ == last_status(*record, time as nat),
            OperationKind::Query => r is None,
        },
{
    match record.kind {
        OperationKind::Query => None,
        OperationKind::Mutation => {
            let state = match record.operation_state {
                Some(s) => s,
                None => OperationState::NotStarted,
            };
            let mut out = owned("last_action=");
            push_str(&mut out, record.action);
            push_str(&mut out, "\nlast_operation_kind=");
            push_str(&mut out, record.kind.label());
            push_str(&mut out, "\nlast_operation_result=");
            push_str(&mut out, record.result.label());
            push_str(&mut out, "\nlast_route=");
            push_str(&mut out, record.route);
            push_str(&mut out, "\nlast_exit=");
            push_str(&mut out, i32_to_string(record.code).as_str());
            push_str(&mut out, "\nlast_time=");
            push_decimal(&mut out, time);
            push_str(&mut out, "\nlast_timed_out=");
            push_str(&mut out, flag(record.timed_out));
            push_str(&mut out, "\nlast_stdout_truncated=");
            push_str(&mut out, flag(record.stdout_truncated));
            push_str(&mut out, "\nlast_stderr_truncated=");
            push_str(&mut out, flag(record.stderr_truncated));
            push_str(&mut out, "\nlast_upstream_status=");
            push_str(&mut out, record.upstream_status);
            push_str(&mut out, "\nlast_post_check=");
            push_str(&mut out, record.post_check);
            push_str(&mut out, "\nlast_state_persist=");
            push_str(&mut out, record.state_persist);
            push_str(&mut out, "\nlast_operation_applied=");
            push_str(&mut out, flag(record.operation_applied));
            push_str(&mut out, "\nlast_operation_state=");
            push_str(&mut out, state.label());
            push_str(&mut out, "\nlast_audit_status=ok\n");
            Some(out)
        },
    }
}

/// The report printed after an operation.
pub open spec fn final_report(r: AuditRecord, upstream_code: i32, audit_status: Seq<char>) -> Seq<char> {
    "controller_action="@ + r.action@ + "\n"@ + contract_spec(
        r.kind,
        r.result,
        r.operation_applied,
        r.operation_state,
    ) + "controller_route="@ + r.route@ + "\ncontroller_exit="@ + int_text(r.code as int)
        + "\nupstream_status="@ + r.upstream_status@ + "\nupstream_exit="@ + int_text(
        upstream_code as int,
    ) + "\npost_check="@ + r.post_check@ + "\nstate_persist="@ + r.state_persist@
        + "\naudit_status="@ + audit_status + "\ntimed_out="@ + flag_text(r.timed_out)
        + "\nstdout_truncated="@ + flag_text(r.stdout_truncated) + "\nstderr_truncated="@
        + flag_text(r.stderr_truncated) + "\ncommand_log="@ + LOG_ROOT@
        + "/last-command.log\nscript_summary="@ + script_summary_spec(r.script) + "\n"@
}

/// Renders the report printed after an operation.
pub fn render_final_report(record: &AuditRecord, upstream_code: i32, audit_status: &str) -> (r:
    String)
    requires
        record.kind == OperationKind::Mutation ==> record.operation_state is Some,
    ensures
        r@ == final_report(*record, upstream_code, audit_status@),
{
    let mut out = owned("controller_action=");
    push_str(&mut out, record.action);
    push_str(&mut out, "\n");
    let contract = render_operation_contract(
        record.kind,
        record.result,
        record.operation_applied,
        record.operation_state,
    );
    push_str(&mut out, contract.as_str());
    push_str(&mut out, "controller_route=");
    push_str(&mut out, record.route);
    push_str(&mut out, "\ncontroller_exit=");
    push_str(&mut out, i32_to_string(record.code).as_str());
    push_str(&mut out, "\nupstream_status=");
    push_str(&mut out, record.upstream_status);
    push_str(&mut out, "\nupstream_exit=");
    push_str(&mut out, i32_to_string(upstream_code).as_str());
    push_str(&mut out, "\npost_check=");
    push_str(&mut out, record.post_check);
    push_str(&mut out, "\nstate_persist=");
    push_str(&mut out, record.state_persist);
    push_str(&mut out, "\naudit_status=");
    push_str(&mut out, audit_status);
    push_str(&mut out, "\ntimed_out=");
    push_str(&mut out, flag(record.timed_out));
    push_str(&mut out, "\nstdout_truncated=");
    push_str(&mut out, flag(record.stdout_truncated));
    push_str(&mut out, "\nstderr_truncated=");
    push_str(&mut out, flag(record.stderr_truncated));
    push_str(&mut out, "\ncommand_log=");
    push_str(&mut out, LOG_ROOT);
    push_str(&mut out, "/last-command.log\nscript_summary=");
    push_str(&mut out, script_summary(record.script).as_str());
    push_str(&mut out, "\n");
    out
}

} // verus!
