//! The command line's first decisions: which internal entry point runs,
//! which operation a command line starts (so that a refusal can still be
//! answered with the operation contract), and the answers given without
//! running anything.
use vstd::prelude::*;

use crate::operation::{
    contract_spec, render_operation_contract, OperationKind, OperationResult, OperationState,
};
use crate::text::{concat2, eq_str, owned, push_char, push_str};

verus! {

broadcast use vstd::string::group_string_axioms;

/// The `i`-th argument, if there is one.
pub open spec fn arg(args: Seq<Seq<char>>, i: int) -> Option<Seq<char>> {
    if 0 <= i < args.len() {
        Some(args[i])
    } else {
        None
    }
}

fn arg_of(args: &[String], i: usize) -> (r: Option<&str>)
    ensures
        match arg(crate::text::views(args@), i as int) {
            Some(a) => r matches Some(s) && s@ == a,
            None => r is None,
        },
{
    if i < args.len() {
        Some(args[i].as_str())
    } else {
        None
    }
}

fn arg_is(args: &[String], i: usize, word: &str) -> (r: bool)
    ensures
        r == (arg(crate::text::views(args@), i as int) == Some(word@)),
{
    match arg_of(args, i) {
        Some(a) => eq_str(a, word),
        None => false,
    }
}

// ---------------------------------------------------------------------------
// Internal entry points
// ---------------------------------------------------------------------------

/// The entry points that other parts of the controller start.
#[derive(Clone, Copy, Debug, PartialEq, Eq, Structural)]
pub enum InternalCommand {
    /// Generates the dynamic Direct PCM policy, under the caller's lock.
    DynamicDirect,
    PriorityWatch,
    PriorityStart,
    PriorityStop,
}

/// Which internal entry point a command line names: `_dynamic-direct`
/// with any arguments, the priority monitor commands without any.
pub open spec fn internal_spec(args: Seq<Seq<char>>) -> Option<InternalCommand> {
    let first = arg(args, 1);
    if first == Some("_dynamic-direct"@) {
        Some(InternalCommand::DynamicDirect)
    } else if args.len() != 2 {
        None
    } else if first == Some("_audioserver-priority-watch"@) {
        Some(InternalCommand::PriorityWatch)
    } else if first == Some("_audioserver-priority-start"@) {
        Some(InternalCommand::PriorityStart)
    } else if first == Some("_audioserver-priority-stop"@) {
        Some(InternalCommand::PriorityStop)
    } else {
        None
    }
}

/// The internal entry point a command line names, if any.
pub fn internal_command(args: &[String]) -> (r: Option<InternalCommand>)
    ensures
        r == internal_spec(crate::text::views(args@)),
{
    if arg_is(args, 1, "_dynamic-direct") {
        Some(InternalCommand::DynamicDirect)
    } else if args.len() != 2 {
        None
    } else if arg_is(args, 1, "_audioserver-priority-watch") {
        Some(InternalCommand::PriorityWatch)
    } else if arg_is(args, 1, "_audioserver-priority-start") {
        Some(InternalCommand::PriorityStart)
    } else if arg_is(args, 1, "_audioserver-priority-stop") {
        Some(InternalCommand::PriorityStop)
    } else {
        None
    }
}

// ---------------------------------------------------------------------------
// The operation a command line starts
// ---------------------------------------------------------------------------

/// The action name and kind of the operation a command line starts.
#[derive(Clone, Debug, PartialEq, Eq)]
pub struct OperationPreflight {
    pub action: String,
    pub kind: OperationKind,
}

/// The tools whose `status` action is a query.
pub open spec fn status_tool(tool: Seq<char>) -> bool {
    tool == "bluetooth-hal"@ || tool == "resampler"@ || tool == "usb-period"@ || tool == "jitter"@
}

/// The operation of `usbsrctl extra <tool> <action>`: diagnostics and a
/// tool's status are queries, the rest mutations.
pub open spec fn extra_preflight(tool: Option<Seq<char>>, raw: Option<Seq<char>>) -> (
    Seq<char>,
    OperationKind,
) {
    let kind = if tool == Some("diagnose"@) || (tool matches Some(t) && status_tool(t) && raw
        == Some("status"@)) {
        OperationKind::Query
    } else {
        OperationKind::Mutation
    };
    let action = match tool {
        Some(t) => if t == "diagnose"@ && raw is Some {
            "extra-diagnose-"@ + raw->0
        } else {
            "extra-"@ + t
        },
        None => "extra"@,
    };
    (action, kind)
}

/// The operation a command line starts, known before it is parsed.
pub open spec fn preflight_spec(args: Seq<Seq<char>>) -> Option<(Seq<char>, OperationKind)> {
    match arg(args, 1) {
        None => None,
        Some(a) => if a == "apply"@ || a == "reset"@ || a == "cleanup"@ || a == "reapply"@ {
            Some((a, OperationKind::Mutation))
        } else if a == "settings"@ {
            let action = if arg(args, 2) == Some("auto-reapply"@) {
                "settings-auto-reapply"@
            } else if arg(args, 2) == Some("audioserver-priority"@) {
                "settings-audioserver-priority"@
            } else {
                "settings"@
            };
            Some((action, OperationKind::Mutation))
        } else if a == "extra"@ {
            Some(extra_preflight(arg(args, 2), arg(args, 3)))
        } else {
            None
        },
    }
}

/// Names the operation a command line starts, so that a failure before it
/// ran can still be reported with the operation contract.
pub fn operation_preflight(args: &[String]) -> (r: Option<OperationPreflight>)
    ensures
        match preflight_spec(crate::text::views(args@)) {
            Some((action, kind)) => r matches Some(p) && p.action@ == action && p.kind == kind,
            None => r is None,
        },
{
    let first = match arg_of(args, 1) {
        Some(a) => a,
        None => {
            return None;
        },
    };
    if eq_str(first, "apply") || eq_str(first, "reset") || eq_str(first, "cleanup") || eq_str(
        first,
        "reapply",
    ) {
        return Some(OperationPreflight { action: owned(first), kind: OperationKind::Mutation });
    }
    if eq_str(first, "settings") {
        let action = if arg_is(args, 2, "auto-reapply") {
            owned("settings-auto-reapply")
        } else if arg_is(args, 2, "audioserver-priority") {
            owned("settings-audioserver-priority")
        } else {
            owned("settings")
        };
        return Some(OperationPreflight { action, kind: OperationKind::Mutation });
    }
    if eq_str(first, "extra") {
        let tool = arg_of(args, 2);
        let raw = arg_of(args, 3);
        let is_status = match raw {
            Some(r) => eq_str(r, "status"),
            None => false,
        };
        let (kind, action) = match tool {
            None => (OperationKind::Mutation, owned("extra")),
            Some(t) => {
                let diagnose = eq_str(t, "diagnose");
                let status_tool = eq_str(t, "bluetooth-hal") || eq_str(t, "resampler") || eq_str(
                    t,
                    "usb-period",
                ) || eq_str(t, "jitter");
                let kind = if diagnose || (status_tool && is_status) {
                    OperationKind::Query
                } else {
                    OperationKind::Mutation
                };
                let action = match raw {
                    Some(r) if diagnose => concat2("extra-diagnose-", r),
                    _ => concat2("extra-", t),
                };
                (kind, action)
            },
        };
        return Some(OperationPreflight { action, kind });
    }
    None
}

/// The contract of an operation that never started.
pub open spec fn not_started_spec(action: Seq<char>, kind: OperationKind) -> Seq<char> {
    "controller_action="@ + action + "\noperation_kind="@ + kind.label_spec()
        + "\noperation_result=not_started\noperation_applied=0\n"@ + if kind
        == OperationKind::Mutation {
        "operation_state=not_started\n"@
    } else {
        Seq::empty()
    }
}

/// The fields that report an operation refused before it started.
pub fn operation_not_started_fields(operation: &OperationPreflight) -> (r: String)
    ensures
        r@ == not_started_spec(operation.action@, operation.kind),
{
    let mut fields = concat2("controller_action=", operation.action.as_str());
    push_str(&mut fields, "\noperation_kind=");
    push_str(&mut fields, operation.kind.label());
    push_str(&mut fields, "\noperation_result=not_started\noperation_applied=0\n");
    let ghost before = fields@;
    if let OperationKind::Mutation = operation.kind {
        push_str(&mut fields, "operation_state=not_started\n");
    } else {
        assert(before + Seq::<char>::empty() =~= before);
    }
    fields
}

// ---------------------------------------------------------------------------
// Answers given without running anything
// ---------------------------------------------------------------------------

/// A text on one line: carriage returns and newlines become spaces.
pub open spec fn one_line(s: Seq<char>) -> Seq<char> {
    Seq::new(s.len(), |i: int| if s[i] == '\n' || s[i] == '\r' { ' ' } else { s[i] })
}

/// `s` with carriage returns and newlines replaced by spaces.
pub fn single_line(s: &str) -> (r: String)
    ensures
        r@ == one_line(s@),
{
    let v = crate::text::chars_of(s);
    let mut out = String::new();
    let mut i: usize = 0;
    while i < v.len()
        invariant
            i <= v@.len(),
            v@ == s@,
            out@ == one_line(s@).take(i as int),
        decreases v@.len() - i,
    {
        let c = v[i];
        if c == '\n' || c == '\r' {
            push_char(&mut out, ' ');
        } else {
            push_char(&mut out, c);
        }
        assert(out@ =~= one_line(s@).take(i + 1));
        i += 1;
    }
    assert(one_line(s@).take(v@.len() as int) =~= one_line(s@));
    out
}

/// What a refused state preflight prints, and the error it ends with.
pub open spec fn degraded_refusal_spec(reason: Seq<char>) -> (Seq<char>, Seq<char>) {
    (
        "state_degraded=1\nstate_degraded_reason="@ + one_line(reason) + "\n"@,
        "state is degraded: "@ + one_line(reason),
    )
}

/// The state preflight: a degraded state refuses the operation unless a
/// degraded recovery is allowed; the refusal names the reason on one line.
pub fn state_preflight(degraded_reason: Option<&str>, allow_degraded_recovery: bool) -> (r:
    Option<(String, String)>)
    ensures
        match degraded_reason {
            Some(reason) if !allow_degraded_recovery => r matches Some((out, err)) && (out@, err@)
                == degraded_refusal_spec(reason@),
            _ => r is None,
        },
{
    match degraded_reason {
        Some(reason) if !allow_degraded_recovery => {
            let safe = single_line(reason);
            let mut out = concat2("state_degraded=1\nstate_degraded_reason=", safe.as_str());
            push_str(&mut out, "\n");
            let err = concat2("state is degraded: ", safe.as_str());
            Some((out, err))
        },
        _ => None,
    }
}

/// What `usbsrctl reapply` answers when automatic reapply is disabled.
pub open spec fn reapply_disabled_spec() -> Seq<char> {
    "auto_reapply=0\ncontroller_action=reapply\n"@ + contract_spec(
        OperationKind::Mutation,
        OperationResult::Success,
        false,
        Some(OperationState::NotStarted),
    )
}

/// The answer of a reapply that is disabled: nothing ran, nothing changed.
pub fn reapply_disabled_report() -> (r: String)
    ensures
        r@ == reapply_disabled_spec(),
{
    let mut out = owned("auto_reapply=0\ncontroller_action=reapply\n");
    let contract = render_operation_contract(
        OperationKind::Mutation,
        OperationResult::Success,
        false,
        Some(OperationState::NotStarted),
    );
    push_str(&mut out, contract.as_str());
    out
}

} // verus!
