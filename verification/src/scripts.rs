//! The shell scripts the controller hands to `sh -s`: every upstream call
//! quoted word by word, behind a guard that refuses to run outside the
//! global mount namespace.
use vstd::prelude::*;

use crate::catalog::{is_bit_depth, policy_flag, policy_flag_spec};
use crate::domain::{
    has_script, requires_restart_spec, script_args_spec, script_spec, Action, ExtraAction,
    ExtraView, ReapplyAction, ReapplyView, Settings, SettingsView,
};
use crate::text::{
    concat2, decimal, eq_str, owned, push_char, push_str, u32_to_string, u64_to_string, views,
};

verus! {

broadcast use vstd::string::group_string_axioms;

/// The guard every generated script starts with: it exits 71 unless the
/// shell shares init's mount namespace.
pub const GUARDED_SHELL_PREFIX: &'static str = "#!/system/bin/sh\nset -u\nself_ns=\"$(readlink /proc/self/ns/mnt 2>/dev/null)\"\ninit_ns=\"$(readlink /proc/1/ns/mnt 2>/dev/null)\"\nif [ -z \"$self_ns\" ] || [ -z \"$init_ns\" ] || [ \"$self_ns\" != \"$init_ns\" ]; then\n    echo \"global mount namespace mismatch: self=$self_ns init=$init_ns\" >&2\n    exit 71\nfi\necho \"global namespace verified: $self_ns\"\n";

// ---------------------------------------------------------------------------
// Quoting
// ---------------------------------------------------------------------------

/// The inside of a single-quoted word: each `'` closes the quote, adds a
/// double-quoted `'` and reopens it.
pub open spec fn quote_body(s: Seq<char>) -> Seq<char>
    decreases s.len(),
{
    if s.len() == 0 {
        Seq::empty()
    } else {
        quote_body(s.drop_last()) + if s.last() == '\'' {
            "'\"'\"'"@
        } else {
            seq![s.last()]
        }
    }
}

/// A word quoted for the shell: `''` for the empty word.
pub open spec fn shell_quoted(s: Seq<char>) -> Seq<char> {
    if s.len() == 0 {
        "''"@
    } else {
        "'"@ + quote_body(s) + "'"@
    }
}

/// Words quoted and separated by single spaces.
pub open spec fn quoted_words(ws: Seq<Seq<char>>) -> Seq<char>
    decreases ws.len(),
{
    if ws.len() == 0 {
        Seq::empty()
    } else if ws.len() == 1 {
        shell_quoted(ws[0])
    } else {
        quoted_words(ws.drop_last()) + " "@ + shell_quoted(ws.last())
    }
}

/// Quotes one word for the shell.
pub fn shell_quote(value: &str) -> (r: String)
    ensures
        r@ == shell_quoted(value@),
{
    if value.is_empty() {
        return owned("''");
    }
    let mut out = owned("'");
    let mut i: usize = 0;
    let ghost s = value@;
    let mut it = value.chars();
    let ghost n = s.len();
    assert(s.take(0) =~= Seq::<char>::empty());
    for c in iter: it
        invariant
            iter.seq() == s,
            out@ == "'"@ + quote_body(s.take(iter.index() as int)),
    {
        let ghost k = iter.index();
        assert(s.take(k + 1).drop_last() =~= s.take(k as int));
        assert(s.take(k + 1).last() == c);
        if c == '\'' {
            push_str(&mut out, "'\"'\"'");
        } else {
            push_char(&mut out, c);
        }
        assert(out@ =~= "'"@ + quote_body(s.take(k + 1)));
    }
    assert(s.take(s.len() as int) =~= s);
    push_str(&mut out, "'");
    out
}

/// Quotes each word and separates them by single spaces.
pub fn quote_words(words: &Vec<String>) -> (r: String)
    ensures
        r@ == quoted_words(views(words@)),
{
    let mut out = String::new();
    let mut i: usize = 0;
    assert(views(words@).take(0) =~= Seq::<Seq<char>>::empty());
    while i < words.len()
        invariant
            i <= words@.len(),
            out@ == quoted_words(views(words@).take(i as int)),
        decreases words@.len() - i,
    {
        assert(views(words@).take(i + 1).drop_last() =~= views(words@).take(i as int));
        assert(views(words@).take(i + 1).last() == words@[i as int]@);
        let q = shell_quote(words[i].as_str());
        if i > 0 {
            push_str(&mut out, " ");
        } else {
            assert(out@ == Seq::<char>::empty());
        }
        push_str(&mut out, q.as_str());
        assert(out@ =~= quoted_words(views(words@).take(i + 1)));
        i += 1;
    }
    assert(views(words@).take(words@.len() as int) =~= views(words@));
    out
}

fn push_word(v: &mut Vec<String>, s: &str)
    ensures
        views(final(v)@) == views(old(v)@).push(s@),
{
    v.push(owned(s));
    assert(views(v@) =~= views(old(v)@).push(s@));
}

fn append_words(v: &mut Vec<String>, mut w: Vec<String>)
    ensures
        views(final(v)@) == views(old(v)@) + views(w@),
{
    let ghost ws = views(w@);
    v.append(&mut w);
    assert(views(v@) =~= views(old(v)@) + ws);
}

// ---------------------------------------------------------------------------
// Paths
// ---------------------------------------------------------------------------

/// `base` joined with a relative `name` (`Path::join`).
pub open spec fn path_join(base: Seq<char>, name: Seq<char>) -> Seq<char> {
    if base.len() == 0 {
        name
    } else if base.last() == '/' {
        base + name
    } else {
        base + "/"@ + name
    }
}

/// Joins a relative name to a directory.
pub fn join_path(base: &str, name: &str) -> (r: String)
    ensures
        r@ == path_join(base@, name@),
{
    if base.is_empty() {
        owned(name)
    } else if base.get_char(base.unicode_len() - 1) == '/' {
        concat2(base, name)
    } else {
        let mut r = concat2(base, "/");
        push_str(&mut r, name);
        r
    }
}

/// The directory of the upstream scripts of a module.
pub open spec fn core_dir(module_dir: Seq<char>) -> Seq<char> {
    path_join(module_dir, "core"@)
}

/// The directory of the Extras scripts of a module.
pub open spec fn extras_dir(module_dir: Seq<char>) -> Seq<char> {
    path_join(core_dir(module_dir), "extras"@)
}

pub fn core_path(module_dir: &str, name: &str) -> (r: String)
    ensures
        r@ == path_join(core_dir(module_dir@), name@),
{
    let core = join_path(module_dir, "core");
    join_path(core.as_str(), name)
}

pub fn extras_path(module_dir: &str, name: &str) -> (r: String)
    ensures
        r@ == path_join(extras_dir(module_dir@), name@),
{
    let core = join_path(module_dir, "core");
    let extras = join_path(core.as_str(), "extras");
    join_path(extras.as_str(), name)
}

/// The directory holding a file: the text before its last `/`, `/` for a
/// file at the root, and empty for a bare name.
pub open spec fn parent_dir(p: Seq<char>) -> Seq<char>
    decreases p.len(),
{
    if p.len() == 0 {
        Seq::empty()
    } else if p.last() == '/' {
        if p.len() == 1 {
            "/"@
        } else {
            p.drop_last()
        }
    } else {
        parent_dir(p.drop_last())
    }
}

/// The directory holding a file.
pub fn parent_of(p: &str) -> (r: String)
    ensures
        r@ == parent_dir(p@),
{
    let v = crate::text::chars_of(p);
    let mut n: usize = v.len();
    assert(v@.take(n as int) =~= p@);
    while n > 0 && v[n - 1] != '/'
        invariant
            n <= v@.len(),
            v@ == p@,
            parent_dir(p@) == parent_dir(v@.take(n as int)),
        decreases n,
    {
        assert(v@.take(n as int).drop_last() =~= v@.take(n - 1));
        n -= 1;
    }
    if n == 0 {
        return String::new();
    }
    if n == 1 {
        return owned("/");
    }
    assert(v@.take(n as int).drop_last() =~= v@.subrange(0, n - 1));
    crate::text::string_of_range(&v, 0, n - 1)
}

// ---------------------------------------------------------------------------
// Commands
// ---------------------------------------------------------------------------

/// `sh` running `script` with `args`, quoted.
pub open spec fn command_text(script: Seq<char>, args: Seq<Seq<char>>) -> Seq<char> {
    quoted_words(seq!["/system/bin/sh"@, script] + args)
}

/// Quotes `sh script args...`.
pub fn command_for(script: &str, args: Vec<String>) -> (r: String)
    ensures
        r@ == command_text(script@, views(args@)),
{
    let mut words: Vec<String> = Vec::new();
    push_word(&mut words, "/system/bin/sh");
    push_word(&mut words, script);
    append_words(&mut words, args);
    assert(views(words@) =~= seq!["/system/bin/sh"@, script@] + views(args@));
    quote_words(&words)
}

/// `[x]` when `b` holds, else nothing.
pub open spec fn word_if(b: bool, x: Seq<char>) -> Seq<Seq<char>> {
    if b {
        seq![x]
    } else {
        Seq::empty()
    }
}

/// The arguments of `USB_SampleRate_Changer.sh`: `--reset` alone, or the
/// policy's flag, its options, the rate and the bit depth.
pub open spec fn upstream_args_spec(s: SettingsView, action: Action) -> Seq<Seq<char>> {
    match action {
        Action::Reset => seq!["--reset"@],
        Action::Apply => seq![
            match policy_flag_spec(s.policy) {
                Some(f) => f,
                None => "--auto"@,
            },
        ] + word_if(s.drc, "--drc"@) + word_if(s.force_usbv2, "--force-usbv2"@) + word_if(
            s.force_bluetooth_qti,
            "--force-bluetooth-qti"@,
        ) + word_if(s.amzm, "--amzm"@) + (if s.test {
            seq!["--test"@] + match s.test_template {
                Some(t) => seq!["--test-template"@, t],
                None => Seq::empty(),
            }
        } else {
            Seq::empty()
        }) + seq![decimal(s.sample_rate as nat), s.bit_depth],
    }
}

/// The arguments of the upstream policy script.
#[verifier::rlimit(30)]
pub fn upstream_args(settings: &Settings, action: Action) -> (r: Vec<String>)
    ensures
        views(r@) == upstream_args_spec(settings@, action),
{
    let mut args: Vec<String> = Vec::new();
    if let Action::Reset = action {
        push_word(&mut args, "--reset");
        assert(views(args@) =~= seq!["--reset"@]);
        return args;
    }
    let flag = match policy_flag(settings.policy.as_str()) {
        Some(f) => f,
        None => "--auto",
    };
    push_word(&mut args, flag);
    let s = settings;
    let ghost first = views(args@);
    assert(first =~= seq![
        match policy_flag_spec(settings@.policy) {
            Some(f) => f,
            None => "--auto"@,
        },
    ]);
    if s.drc {
        push_word(&mut args, "--drc");
    }
    let ghost a1 = first + word_if(s.drc, "--drc"@);
    assert(views(args@) =~= a1);
    if s.force_usbv2 {
        push_word(&mut args, "--force-usbv2");
    }
    let ghost a2 = a1 + word_if(s.force_usbv2, "--force-usbv2"@);
    assert(views(args@) =~= a2);
    if s.force_bluetooth_qti {
        push_word(&mut args, "--force-bluetooth-qti");
    }
    let ghost a3 = a2 + word_if(s.force_bluetooth_qti, "--force-bluetooth-qti"@);
    assert(views(args@) =~= a3);
    if s.amzm {
        push_word(&mut args, "--amzm");
    }
    let ghost a4 = a3 + word_if(s.amzm, "--amzm"@);
    assert(views(args@) =~= a4);
    if s.test {
        push_word(&mut args, "--test");
        if let Some(template) = &s.test_template {
            push_word(&mut args, "--test-template");
            push_word(&mut args, template.as_str());
        }
    }
    let ghost a5 = a4 + (if s@.test {
        seq!["--test"@] + match s@.test_template {
            Some(t) => seq!["--test-template"@, t],
            None => Seq::empty(),
        }
    } else {
        Seq::empty()
    });
    assert(views(args@) =~= a5);
    let rate = u32_to_string(s.sample_rate);
    push_word(&mut args, rate.as_str());
    push_word(&mut args, s.bit_depth.as_str());
    assert(views(args@) =~= a5 + seq![decimal(s@.sample_rate as nat), s@.bit_depth]);
    assert(upstream_args_spec(settings@, action) == a5 + seq![decimal(s@.sample_rate as nat), s@.bit_depth]);
    args
}

/// The arguments of the dedicated Direct PCM generator.
pub open spec fn dynamic_direct_args(s: SettingsView) -> Seq<Seq<char>> {
    seq![
        "_dynamic-direct"@,
        "--policy"@,
        s.policy,
        "--sample-rate"@,
        decimal(s.sample_rate as nat),
        "--bit-depth"@,
        s.bit_depth,
    ] + word_if(s.drc, "--drc"@) + word_if(s.force_usbv2, "--force-usbv2"@)
}

/// The command a policy operation runs: Direct PCM dynamic is applied by
/// the controller's own generator, everything else by the upstream script.
pub open spec fn policy_command_spec(s: SettingsView, module_dir: Seq<char>, action: Action) -> Seq<
    char,
> {
    if s.policy == "offload-direct-dynamic"@ && action is Apply {
        quoted_words(seq![path_join(module_dir, "usbsrctl"@)] + dynamic_direct_args(s))
    } else {
        command_text(
            path_join(core_dir(module_dir), "USB_SampleRate_Changer.sh"@),
            upstream_args_spec(s, action),
        )
    }
}

/// The concrete command of a policy operation.
pub fn policy_command_summary(settings: &Settings, module_dir: &str, action: Action) -> (r: String)
    ensures
        r@ == policy_command_spec(settings@, module_dir@, action),
{
    if eq_str(settings.policy.as_str(), "offload-direct-dynamic") && matches!(action, Action::Apply) {
        let mut words: Vec<String> = Vec::new();
        let generator = join_path(module_dir, "usbsrctl");
        push_word(&mut words, generator.as_str());
        push_word(&mut words, "_dynamic-direct");
        push_word(&mut words, "--policy");
        push_word(&mut words, settings.policy.as_str());
        push_word(&mut words, "--sample-rate");
        let rate = u32_to_string(settings.sample_rate);
        push_word(&mut words, rate.as_str());
        push_word(&mut words, "--bit-depth");
        push_word(&mut words, settings.bit_depth.as_str());
        let ghost base = views(words@);
        if settings.drc {
            push_word(&mut words, "--drc");
        }
        let ghost b1 = base + word_if(settings.drc, "--drc"@);
        assert(views(words@) =~= b1);
        if settings.force_usbv2 {
            push_word(&mut words, "--force-usbv2");
        }
        assert(views(words@) =~= seq![path_join(module_dir@, "usbsrctl"@)] + dynamic_direct_args(
            settings@,
        ));
        return quote_words(&words);
    }
    let script = core_path(module_dir, "USB_SampleRate_Changer.sh");
    command_for(script.as_str(), upstream_args(settings, action))
}

/// The command of an Extras action.
pub fn extra_command_summary(script: &str, action: &ExtraAction) -> (r: String)
    ensures
        r@ == command_text(script@, script_args_spec(action@)),
{
    command_for(script, action.script_args())
}

/// The audio restart that follows an action, next to its script: a
/// Bluetooth HAL change passes the mode on.
pub open spec fn restart_command_spec(script: Seq<char>, a: ExtraView) -> Option<Seq<char>> {
    if !requires_restart_spec(a) {
        None
    } else {
        Some(
            quoted_words(
                seq!["/system/bin/sh"@, path_join(parent_dir(script), "reload-audio-servers.sh"@)]
                    + match a {
                    ExtraView::BluetoothHal { action } => seq!["--bluetooth-hal"@, action],
                    _ => Seq::empty(),
                },
            ),
        )
    }
}

/// An Extras action is followed by a restart script exactly when it needs
/// an audio restart; apart from a Bluetooth HAL change, that script ends by
/// handing over to the reload script beside `script`, with no further
/// argument.
pub proof fn lemma_restart_script_iff_required(script: Seq<char>, a: ExtraView)
    ensures
        restart_command_spec(script, a) is Some <==> requires_restart_spec(a),
        requires_restart_spec(a) && !(a is BluetoothHal) ==> restart_command_spec(script, a) == Some(
            quoted_words(seq!["/system/bin/sh"@, path_join(parent_dir(script), "reload-audio-servers.sh"@)]),
        ),
        requires_restart_spec(a) && !(a is BluetoothHal) ==> crate::text::ends_with(
            guarded_exec("controller_restart_started"@, restart_command_spec(script, a)->Some_0),
            "=1' >&2\nexec "@ + quoted_words(
                seq!["/system/bin/sh"@, path_join(parent_dir(script), "reload-audio-servers.sh"@)],
            ) + "\n"@,
        ),
{
    let base = seq!["/system/bin/sh"@, path_join(parent_dir(script), "reload-audio-servers.sh"@)];
    assert(base + Seq::<Seq<char>>::empty() =~= base);
    if requires_restart_spec(a) && !(a is BluetoothHal) {
        let c = quoted_words(base);
        let head = GUARDED_SHELL_PREFIX@ + "echo '"@ + "controller_restart_started"@;
        let tail = "=1' >&2\nexec "@ + c + "\n"@;
        let whole = guarded_exec("controller_restart_started"@, c);
        assert(whole =~= head + tail);
        assert(whole.skip(whole.len() - tail.len()) =~= tail);
    }
}

/// The actions whose script answers `--status` after a change.
pub open spec fn has_status_spec(a: ExtraView) -> bool {
    a is BluetoothHal || a is ResamplerReset || a is ResamplerPreset || a is ResamplerCustom
        || a is UsbPeriodReset || a is UsbPeriodSet || a is JitterSet
}

/// The status query that verifies a change.
pub open spec fn status_command_spec(script: Seq<char>, a: ExtraView) -> Option<Seq<char>> {
    if has_status_spec(a) {
        Some(command_text(script, seq!["--status"@]))
    } else {
        None
    }
}

/// The audio restart an action needs, if any.
pub fn extra_restart_command(script: &str, action: &ExtraAction) -> (r: Option<String>)
    ensures
        match restart_command_spec(script@, action@) {
            Some(c) => r matches Some(x) && x@ == c,
            None => r is None,
        },
{
    if !action.requires_audio_restart() {
        return None;
    }
    let dir = parent_of(script);
    let reload = join_path(dir.as_str(), "reload-audio-servers.sh");
    let mut words: Vec<String> = Vec::new();
    push_word(&mut words, "/system/bin/sh");
    push_word(&mut words, reload.as_str());
    if let ExtraAction::BluetoothHal { action } = action {
        push_word(&mut words, "--bluetooth-hal");
        push_word(&mut words, action.as_str());
    }
    proof {
        let tail = match action@ {
            ExtraView::BluetoothHal { action } => seq!["--bluetooth-hal"@, action],
            _ => Seq::empty(),
        };
        assert(views(words@) =~= seq!["/system/bin/sh"@, reload@] + tail);
    }
    Some(quote_words(&words))
}

/// The status query that verifies an action, if any.
pub fn extra_status_command(script: &str, action: &ExtraAction) -> (r: Option<String>)
    ensures
        match status_command_spec(script@, action@) {
            Some(c) => r matches Some(x) && x@ == c,
            None => r is None,
        },
{
    match action {
        ExtraAction::BluetoothHal { .. }
        | ExtraAction::ResamplerReset
        | ExtraAction::ResamplerPreset { .. }
        | ExtraAction::ResamplerCustom { .. }
        | ExtraAction::UsbPeriodReset
        | ExtraAction::UsbPeriodSet { .. }
        | ExtraAction::JitterSet { .. } => {
            let mut args: Vec<String> = Vec::new();
            push_word(&mut args, "--status");
            assert(views(args@) =~= seq!["--status"@]);
            Some(command_for(script, args))
        },
        _ => None,
    }
}

/// The business command of an action, then its restart and, after a
/// restart, its status query.
pub open spec fn extra_commands_spec(script: Seq<char>, a: ExtraView) -> Seq<Seq<char>> {
    seq![command_text(script, script_args_spec(a))] + match restart_command_spec(script, a) {
        Some(r) => seq![r] + match status_command_spec(script, a) {
            Some(s) => seq![s],
            None => Seq::empty(),
        },
        None => Seq::empty(),
    }
}

/// Every command an Extras operation may run, in order.
pub fn extra_command_summaries(script: &str, action: &ExtraAction) -> (r: Vec<String>)
    ensures
        views(r@) == extra_commands_spec(script@, action@),
{
    let mut commands: Vec<String> = Vec::new();
    let first = extra_command_summary(script, action);
    push_word(&mut commands, first.as_str());
    if let Some(restart) = extra_restart_command(script, action) {
        push_word(&mut commands, restart.as_str());
        if let Some(status) = extra_status_command(script, action) {
            push_word(&mut commands, status.as_str());
        }
    }
    assert(views(commands@) =~= extra_commands_spec(script@, action@));
    commands
}

// ---------------------------------------------------------------------------
// Policy and Extras scripts
// ---------------------------------------------------------------------------

/// The audio restart after a policy: `reload-audio-servers.sh` of the
/// module.
pub open spec fn reload_path(module_dir: Seq<char>) -> Seq<char> {
    path_join(extras_dir(module_dir), "reload-audio-servers.sh"@)
}

pub open spec fn restart_spec(module_dir: Seq<char>) -> Seq<char> {
    quoted_words(seq!["/system/bin/sh"@, reload_path(module_dir)])
}

fn restart_command(module_dir: &str) -> (r: String)
    ensures
        r@ == restart_spec(module_dir@),
{
    let reload = extras_path(module_dir, "reload-audio-servers.sh");
    let mut words: Vec<String> = Vec::new();
    push_word(&mut words, "/system/bin/sh");
    push_word(&mut words, reload.as_str());
    assert(views(words@) =~= seq!["/system/bin/sh"@, reload_path(module_dir@)]);
    quote_words(&words)
}

/// The script of a policy operation: the guard, the upstream command, and
/// the audio restart only after it succeeded.
pub open spec fn policy_script_spec(s: SettingsView, module_dir: Seq<char>, action: Action) -> Seq<
    char,
> {
    GUARDED_SHELL_PREFIX@ + "echo 'controller_upstream_started=1' >&2\n"@ + policy_command_spec(
        s,
        module_dir,
        action,
    ) + "\nstatus=$?\nif [ $status -eq 0 ]; then exec "@ + restart_spec(module_dir)
        + "; else exit $status; fi\n"@
}

/// The guarded script of a policy operation.
pub fn render_policy_script(settings: &Settings, module_dir: &str, action: Action) -> (r: String)
    ensures
        r@ == policy_script_spec(settings@, module_dir@, action),
{
    let command = policy_command_summary(settings, module_dir, action);
    let restart = restart_command(module_dir);
    let mut out = concat2(GUARDED_SHELL_PREFIX, "echo 'controller_upstream_started=1' >&2\n");
    push_str(&mut out, command.as_str());
    push_str(&mut out, "\nstatus=$?\nif [ $status -eq 0 ]; then exec ");
    push_str(&mut out, restart.as_str());
    push_str(&mut out, "; else exit $status; fi\n");
    out
}

/// A guarded script that announces `marker` and then runs `command` in
/// its place.
pub open spec fn guarded_exec(marker: Seq<char>, command: Seq<char>) -> Seq<char> {
    GUARDED_SHELL_PREFIX@ + "echo '"@ + marker + "=1' >&2\nexec "@ + command + "\n"@
}

fn render_guarded_exec(marker: &str, command: &str) -> (r: String)
    ensures
        r@ == guarded_exec(marker@, command@),
{
    let mut out = concat2(GUARDED_SHELL_PREFIX, "echo '");
    push_str(&mut out, marker);
    push_str(&mut out, "=1' >&2\nexec ");
    push_str(&mut out, command);
    push_str(&mut out, "\n");
    out
}

/// The business script of an Extras action.
pub fn render_extra_script(script: &str, action: &ExtraAction) -> (r: String)
    ensures
        r@ == guarded_exec(
            "controller_upstream_started"@,
            command_text(script@, script_args_spec(action@)),
        ),
{
    let command = extra_command_summary(script, action);
    render_guarded_exec("controller_upstream_started", command.as_str())
}

/// The restart script that follows an Extras action, if it needs one.
pub fn render_extra_restart_script(script: &str, action: &ExtraAction) -> (r: Option<String>)
    ensures
        match restart_command_spec(script@, action@) {
            Some(c) => r matches Some(x) && x@ == guarded_exec("controller_restart_started"@, c),
            None => r is None,
        },
{
    match extra_restart_command(script, action) {
        Some(c) => Some(render_guarded_exec("controller_restart_started", c.as_str())),
        None => None,
    }
}

/// The verification script that follows an Extras restart, if any.
pub fn render_extra_status_script(script: &str, action: &ExtraAction) -> (r: Option<String>)
    ensures
        match status_command_spec(script@, action@) {
            Some(c) => r matches Some(x) && x@ == guarded_exec("controller_verification_started"@, c),
            None => r is None,
        },
{
    match extra_status_command(script, action) {
        Some(c) => Some(render_guarded_exec("controller_verification_started", c.as_str())),
        None => None,
    }
}

// ---------------------------------------------------------------------------
// Uninstall cleanup
// ---------------------------------------------------------------------------

/// The reset steps of the uninstall cleanup, labelled: the Bluetooth HAL and
/// USB period only with the legacy controls, the policy only when asked.
pub open spec fn cleanup_steps_spec(module_dir: Seq<char>, legacy_controls: bool, cleanup_policy: bool) -> Seq<
    (Seq<char>, Seq<char>),
> {
    let x = extras_dir(module_dir);
    (if legacy_controls {
        seq![
            (
                "bluetooth-hal"@,
                command_text(path_join(x, "change-bluetooth-hal.sh"@), seq!["--reset"@]),
            ),
        ]
    } else {
        Seq::empty()
    }) + seq![
        ("resampler"@, command_text(path_join(x, "change-resampling-quality.sh"@), seq!["--reset"@])),
    ] + (if legacy_controls {
        seq![("usb-period"@, command_text(path_join(x, "change-usb-period.sh"@), seq!["--reset"@]))]
    } else {
        Seq::empty()
    }) + seq![
        (
            "jitter"@,
            command_text(
                path_join(x, "jitter-reducer.sh"@),
                seq!["++all"@, "++battery"@, "++effect"@, "--status"@],
            ),
        ),
    ] + (if cleanup_policy {
        seq![
            (
                "policy"@,
                command_text(
                    path_join(core_dir(module_dir), "USB_SampleRate_Changer.sh"@),
                    seq!["--reset"@],
                ),
            ),
        ]
    } else {
        Seq::empty()
    })
}

/// The single audio restart of the cleanup: it resets the Bluetooth HAL
/// only with the legacy controls.
pub open spec fn cleanup_restart_spec(module_dir: Seq<char>, legacy_controls: bool) -> Seq<char> {
    quoted_words(
        seq!["/system/bin/sh"@, reload_path(module_dir)] + if legacy_controls {
            seq!["--bluetooth-hal"@, "reset"@]
        } else {
            Seq::empty()
        },
    )
}

/// The shell text of one cleanup step: it runs whatever happened before,
/// and remembers the first failure.
pub open spec fn cleanup_step_text(label: Seq<char>, command: Seq<char>) -> Seq<char> {
    "echo 'cleanup_step_started="@ + label + "'\n"@ + command
        + "\ncleanup_status=$?\necho \"cleanup_step_exit="@ + label
        + ":$cleanup_status\"\nif [ \"$cleanup_failure\" -eq 0 ] && [ \"$cleanup_status\" -ne 0 ]; then cleanup_failure=$cleanup_status; fi\n"@
}

pub open spec fn cleanup_steps_text(steps: Seq<(Seq<char>, Seq<char>)>) -> Seq<char>
    decreases steps.len(),
{
    if steps.len() == 0 {
        Seq::empty()
    } else {
        cleanup_steps_text(steps.drop_last()) + cleanup_step_text(steps.last().0, steps.last().1)
    }
}

/// The uninstall cleanup script: every reset, then one restart; it exits
/// with the first failure.
pub open spec fn cleanup_script_spec(module_dir: Seq<char>, legacy_controls: bool, cleanup_policy: bool) -> Seq<
    char,
> {
    GUARDED_SHELL_PREFIX@ + "cleanup_failure=0\necho 'controller_upstream_started=1' >&2\n"@
        + cleanup_steps_text(cleanup_steps_spec(module_dir, legacy_controls, cleanup_policy))
        + "echo 'cleanup_restart_started=1'\n"@ + cleanup_restart_spec(module_dir, legacy_controls)
        + "\ncleanup_status=$?\necho \"cleanup_restart_exit=$cleanup_status\"\nif [ \"$cleanup_failure\" -eq 0 ] && [ \"$cleanup_status\" -ne 0 ]; then cleanup_failure=$cleanup_status; fi\nexit \"$cleanup_failure\"\n"@
}

fn reset_command(script: &str, args: &Vec<&'static str>) -> (r: String)
    ensures
        r@ == command_text(script@, crate::catalog::str_views(args@)),
{
    let mut words: Vec<String> = Vec::new();
    let mut i: usize = 0;
    while i < args.len()
        invariant
            i <= args@.len(),
            views(words@) == crate::catalog::str_views(args@).take(i as int),
        decreases args@.len() - i,
    {
        push_word(&mut words, args[i]);
        assert(crate::catalog::str_views(args@).take(i + 1) =~= crate::catalog::str_views(args@).take(i as int).push(args@[i as int]@));
        i += 1;
    }
    assert(crate::catalog::str_views(args@).take(args@.len() as int) =~= crate::catalog::str_views(args@));
    command_for(script, words)
}

fn push_cleanup_step(
    script: &mut String,
    commands: &mut Vec<String>,
    label: &str,
    command: String,
)
    ensures
        final(script)@ == old(script)@ + cleanup_step_text(label@, command@),
        views(final(commands)@) == views(old(commands)@).push(command@),
{
    push_str(script, "echo 'cleanup_step_started=");
    push_str(script, label);
    push_str(script, "'\n");
    push_str(script, command.as_str());
    push_str(script, "\ncleanup_status=$?\necho \"cleanup_step_exit=");
    push_str(script, label);
    push_str(
        script,
        ":$cleanup_status\"\nif [ \"$cleanup_failure\" -eq 0 ] && [ \"$cleanup_status\" -ne 0 ]; then cleanup_failure=$cleanup_status; fi\n",
    );
    let ghost c = command@;
    commands.push(command);
    assert(views(commands@) =~= views(old(commands)@).push(c));
}

/// The uninstall cleanup script, with the commands it runs in order.
#[verifier::rlimit(40)]
pub fn render_cleanup_script(module_dir: &str, legacy_controls: bool, cleanup_policy: bool) -> (r: (
    String,
    Vec<String>,
))
    ensures
        r.0@ == cleanup_script_spec(module_dir@, legacy_controls, cleanup_policy),
        views(r.1@) == cleanup_steps_spec(module_dir@, legacy_controls, cleanup_policy).map_values(
            |st: (Seq<char>, Seq<char>)| st.1,
        ).push(cleanup_restart_spec(module_dir@, legacy_controls)),
{
    let ghost steps = cleanup_steps_spec(module_dir@, legacy_controls, cleanup_policy);
    let mut script = concat2(
        GUARDED_SHELL_PREFIX,
        "cleanup_failure=0\necho 'controller_upstream_started=1' >&2\n",
    );
    let ghost head = script@;
    let mut commands: Vec<String> = Vec::new();
    let ghost mut done: Seq<(Seq<char>, Seq<char>)> = Seq::empty();
    assert(views(commands@) =~= done.map_values(|st: (Seq<char>, Seq<char>)| st.1));
    assert(script@ =~= head + cleanup_steps_text(done));
    let reset = vec!["--reset"];
    assert(crate::catalog::str_views(reset@) =~= seq!["--reset"@]);
    if legacy_controls {
        let path = extras_path(module_dir, "change-bluetooth-hal.sh");
        let c = reset_command(path.as_str(), &reset);
        let ghost cv = c@;
        push_cleanup_step(&mut script, &mut commands, "bluetooth-hal", c);
        proof {
            done = done.push(("bluetooth-hal"@, cv));
            assert(done.drop_last() =~= Seq::<(Seq<char>, Seq<char>)>::empty());
        }
        assert(script@ =~= head + cleanup_steps_text(done));
    }
    assert(views(commands@) =~= done.map_values(|st: (Seq<char>, Seq<char>)| st.1));
    {
        let path = extras_path(module_dir, "change-resampling-quality.sh");
        let c = reset_command(path.as_str(), &reset);
        let ghost cv = c@;
        let ghost before = done;
        push_cleanup_step(&mut script, &mut commands, "resampler", c);
        proof {
            done = done.push(("resampler"@, cv));
            assert(done.drop_last() =~= before);
        }
        assert(views(commands@) =~= done.map_values(|st: (Seq<char>, Seq<char>)| st.1));
        assert(script@ =~= head + cleanup_steps_text(done));
    }
    if legacy_controls {
        let path = extras_path(module_dir, "change-usb-period.sh");
        let c = reset_command(path.as_str(), &reset);
        let ghost cv = c@;
        let ghost before = done;
        push_cleanup_step(&mut script, &mut commands, "usb-period", c);
        proof {
            done = done.push(("usb-period"@, cv));
            assert(done.drop_last() =~= before);
        }
        assert(views(commands@) =~= done.map_values(|st: (Seq<char>, Seq<char>)| st.1));
        assert(script@ =~= head + cleanup_steps_text(done));
    }
    {
        let path = extras_path(module_dir, "jitter-reducer.sh");
        let args = vec!["++all", "++battery", "++effect", "--status"];
        assert(crate::catalog::str_views(args@) =~= seq!["++all"@, "++battery"@, "++effect"@, "--status"@]);
        let c = reset_command(path.as_str(), &args);
        let ghost cv = c@;
        let ghost before = done;
        push_cleanup_step(&mut script, &mut commands, "jitter", c);
        proof {
            done = done.push(("jitter"@, cv));
            assert(done.drop_last() =~= before);
        }
        assert(views(commands@) =~= done.map_values(|st: (Seq<char>, Seq<char>)| st.1));
        assert(script@ =~= head + cleanup_steps_text(done));
    }
    if cleanup_policy {
        let path = core_path(module_dir, "USB_SampleRate_Changer.sh");
        let c = reset_command(path.as_str(), &reset);
        let ghost cv = c@;
        let ghost before = done;
        push_cleanup_step(&mut script, &mut commands, "policy", c);
        proof {
            done = done.push(("policy"@, cv));
            assert(done.drop_last() =~= before);
        }
        assert(views(commands@) =~= done.map_values(|st: (Seq<char>, Seq<char>)| st.1));
        assert(script@ =~= head + cleanup_steps_text(done));
    }
    assert(done =~= steps);
    let reload = extras_path(module_dir, "reload-audio-servers.sh");
    let mut words: Vec<String> = Vec::new();
    push_word(&mut words, "/system/bin/sh");
    push_word(&mut words, reload.as_str());
    if legacy_controls {
        push_word(&mut words, "--bluetooth-hal");
        push_word(&mut words, "reset");
    }
    assert(views(words@) =~= seq!["/system/bin/sh"@, reload_path(module_dir@)] + if legacy_controls {
        seq!["--bluetooth-hal"@, "reset"@]
    } else {
        Seq::empty()
    });
    let restart = quote_words(&words);
    push_str(&mut script, "echo 'cleanup_restart_started=1'\n");
    push_str(&mut script, restart.as_str());
    push_str(
        &mut script,
        "\ncleanup_status=$?\necho \"cleanup_restart_exit=$cleanup_status\"\nif [ \"$cleanup_failure\" -eq 0 ] && [ \"$cleanup_status\" -ne 0 ]; then cleanup_failure=$cleanup_status; fi\nexit \"$cleanup_failure\"\n",
    );
    let ghost rv = restart@;
    let ghost before_commands = views(commands@);
    commands.push(restart);
    assert(views(commands@) =~= before_commands.push(rv));
    (script, commands)
}

// ---------------------------------------------------------------------------
// Reapply
// ---------------------------------------------------------------------------

/// Every Extras step of a plan has a known script.
pub open spec fn plan_scripts_known(plan: Seq<ReapplyView>) -> bool {
    forall|i: int| 0 <= i < plan.len() ==> (#[trigger] plan[i] matches ReapplyView::Extra(e) ==> has_script(e))
}

/// The command of one reapply step.
pub open spec fn step_command_spec(a: ReapplyView, module_dir: Seq<char>) -> Seq<char> {
    match a {
        ReapplyView::Policy(s) => policy_command_spec(s, module_dir, Action::Apply),
        ReapplyView::Extra(e) => command_text(
            path_join(extras_dir(module_dir), script_spec(e)),
            script_args_spec(e),
        ),
    }
}

/// The label of one reapply step.
pub open spec fn step_label_spec(a: ReapplyView) -> Seq<char> {
    match a {
        ReapplyView::Policy(_) => "policy"@,
        ReapplyView::Extra(e) => crate::domain::tool_spec(e),
    }
}

/// Some step of the plan restarts audioserver.
pub open spec fn plan_restarts(plan: Seq<ReapplyView>) -> bool {
    exists|i: int| 0 <= i < plan.len() && crate::domain::reapply_restart_spec(#[trigger] plan[i])
}

/// The first Bluetooth HAL mode the plan sets, from step `i` on.
pub open spec fn bluetooth_mode_from(plan: Seq<ReapplyView>, i: int) -> Option<Seq<char>>
    decreases plan.len() - i,
{
    if i < 0 || i >= plan.len() {
        None
    } else {
        match plan[i] {
            ReapplyView::Extra(ExtraView::BluetoothHal { action }) => if action != "status"@ {
                Some(action)
            } else {
                bluetooth_mode_from(plan, i + 1)
            },
            _ => bluetooth_mode_from(plan, i + 1),
        }
    }
}

/// The words of the single restart of a reapply batch.
pub open spec fn reapply_reload_words(plan: Seq<ReapplyView>, module_dir: Seq<char>) -> Seq<Seq<char>> {
    seq!["/system/bin/sh"@, reload_path(module_dir)] + match bluetooth_mode_from(plan, 0) {
        Some(m) => seq!["--bluetooth-hal"@, m],
        None => Seq::empty(),
    }
}

/// The status queries after the restart of the first `n` steps, labelled
/// and without repeats: each Extras step that restarts audioserver and has
/// one.
pub open spec fn verifications_upto(plan: Seq<ReapplyView>, module_dir: Seq<char>, n: int) -> Seq<
    (Seq<char>, Seq<char>),
>
    decreases n,
{
    if n <= 0 {
        Seq::empty()
    } else {
        let prev = verifications_upto(plan, module_dir, n - 1);
        match plan[n - 1] {
            ReapplyView::Extra(e) => if requires_restart_spec(e) {
                match status_command_spec(path_join(extras_dir(module_dir), script_spec(e)), e) {
                    Some(c) => if prev.map_values(|v: (Seq<char>, Seq<char>)| v.1).contains(c) {
                        prev
                    } else {
                        prev.push((crate::domain::tool_spec(e), c))
                    },
                    None => prev,
                }
            } else {
                prev
            },
            ReapplyView::Policy(_) => prev,
        }
    }
}

pub open spec fn verifications_spec(plan: Seq<ReapplyView>, module_dir: Seq<char>) -> Seq<
    (Seq<char>, Seq<char>),
> {
    verifications_upto(plan, module_dir, plan.len() as int)
}

/// Every command of a reapply batch: each step, then, when a step needs
/// it, one restart and the status queries.
pub open spec fn reapply_commands_spec(plan: Seq<ReapplyView>, module_dir: Seq<char>) -> Seq<Seq<char>> {
    plan.map_values(|a: ReapplyView| step_command_spec(a, module_dir)) + if plan_restarts(plan) {
        seq![quoted_words(reapply_reload_words(plan, module_dir))] + verifications_spec(
            plan,
            module_dir,
        ).map_values(|v: (Seq<char>, Seq<char>)| v.1)
    } else {
        Seq::empty()
    }
}

/// A labelled script of a reapply batch.
pub struct ReapplyScriptStep {
    pub label: String,
    pub script: String,
}

pub open spec fn script_steps_view(v: Seq<ReapplyScriptStep>) -> Seq<(Seq<char>, Seq<char>)> {
    v.map_values(|st: ReapplyScriptStep| (st.label@, st.script@))
}

fn step_command(action: &ReapplyAction, module_dir: &str) -> (r: String)
    requires
        action@ matches ReapplyView::Extra(e) ==> has_script(e),
    ensures
        r@ == step_command_spec(action@, module_dir@),
{
    match action {
        ReapplyAction::Policy(settings) => policy_command_summary(settings, module_dir, Action::Apply),
        ReapplyAction::Extra(extra) => {
            let path = extras_path(module_dir, extra.script());
            extra_command_summary(path.as_str(), extra)
        },
    }
}

fn plan_needs_restart(plan: &Vec<ReapplyAction>) -> (r: bool)
    ensures
        r == plan_restarts(crate::reapply::steps_view(plan@)),
{
    let mut i: usize = 0;
    while i < plan.len()
        invariant
            i <= plan@.len(),
            forall|j: int| 0 <= j < i ==> !crate::domain::reapply_restart_spec(#[trigger] plan@[j]@),
        decreases plan@.len() - i,
    {
        if plan[i].requires_audio_restart() {
            assert(crate::reapply::steps_view(plan@)[i as int] == plan@[i as int]@);
            return true;
        }
        i += 1;
    }
    proof {
        if plan_restarts(crate::reapply::steps_view(plan@)) {
            let j = choose|j: int|
                0 <= j < crate::reapply::steps_view(plan@).len() && crate::domain::reapply_restart_spec(
                    #[trigger] crate::reapply::steps_view(plan@)[j],
                );
            assert(crate::reapply::steps_view(plan@)[j] == plan@[j]@);
        }
    }
    false
}

fn bluetooth_mode(plan: &Vec<ReapplyAction>) -> (r: Option<String>)
    ensures
        match bluetooth_mode_from(crate::reapply::steps_view(plan@), 0) {
            Some(m) => r matches Some(x) && x@ == m,
            None => r is None,
        },
{
    let ghost p = crate::reapply::steps_view(plan@);
    let mut i: usize = 0;
    while i < plan.len()
        invariant
            i <= plan@.len(),
            p == crate::reapply::steps_view(plan@),
            bluetooth_mode_from(p, 0) == bluetooth_mode_from(p, i as int),
        decreases plan@.len() - i,
    {
        assert(p[i as int] == plan@[i as int]@);
        if let ReapplyAction::Extra(ExtraAction::BluetoothHal { action }) = &plan[i] {
            if !eq_str(action.as_str(), "status") {
                return Some(action.clone());
            }
        }
        i += 1;
    }
    None
}

fn reload_words(plan: &Vec<ReapplyAction>, module_dir: &str) -> (r: Vec<String>)
    ensures
        views(r@) == reapply_reload_words(crate::reapply::steps_view(plan@), module_dir@),
{
    let reload = extras_path(module_dir, "reload-audio-servers.sh");
    let mut words: Vec<String> = Vec::new();
    push_word(&mut words, "/system/bin/sh");
    push_word(&mut words, reload.as_str());
    if let Some(mode) = bluetooth_mode(plan) {
        push_word(&mut words, "--bluetooth-hal");
        push_word(&mut words, mode.as_str());
    }
    assert(views(words@) =~= reapply_reload_words(crate::reapply::steps_view(plan@), module_dir@));
    words
}

/// The status queries of a batch after its restart, labelled, without
/// repeats.
fn verification_commands(plan: &Vec<ReapplyAction>, module_dir: &str) -> (r: Vec<(String, String)>)
    requires
        plan_scripts_known(crate::reapply::steps_view(plan@)),
    ensures
        r@.map_values(|v: (String, String)| (v.0@, v.1@)) == verifications_spec(
            crate::reapply::steps_view(plan@),
            module_dir@,
        ),
{
    let ghost p = crate::reapply::steps_view(plan@);
    let mut out: Vec<(String, String)> = Vec::new();
    let mut i: usize = 0;
    assert(out@.map_values(|v: (String, String)| (v.0@, v.1@)) =~= verifications_upto(p, module_dir@, 0));
    while i < plan.len()
        invariant
            i <= plan@.len(),
            p == crate::reapply::steps_view(plan@),
            plan_scripts_known(p),
            out@.map_values(|v: (String, String)| (v.0@, v.1@)) == verifications_upto(
                p,
                module_dir@,
                i as int,
            ),
        decreases plan@.len() - i,
    {
        assert(p[i as int] == plan@[i as int]@);
        let ghost prev = out@.map_values(|v: (String, String)| (v.0@, v.1@));
        if let ReapplyAction::Extra(extra) = &plan[i] {
            if extra.requires_audio_restart() {
                let path = extras_path(module_dir, extra.script());
                if let Some(c) = extra_status_command(path.as_str(), extra) {
                    let mut seen = false;
                    let mut j: usize = 0;
                    while j < out.len()
                        invariant
                            j <= out@.len(),
                            seen == exists|k: int| 0 <= k < j && (#[trigger] out@[k]).1@ == c@,
                        decreases out@.len() - j,
                    {
                        if eq_str(out[j].1.as_str(), c.as_str()) {
                            seen = true;
                        }
                        j += 1;
                    }
                    proof {
                        let cmds = prev.map_values(|v: (Seq<char>, Seq<char>)| v.1);
                        if seen {
                            let k = choose|k: int| 0 <= k < out@.len() && (#[trigger] out@[k]).1@ == c@;
                            assert(cmds[k] == c@);
                        }
                        if cmds.contains(c@) {
                            let k = choose|k: int| 0 <= k < cmds.len() && cmds[k] == c@;
                            assert(out@[k].1@ == c@);
                        }
                    }
                    if !seen {
                        let label = extra.tool();
                        out.push((label, c));
                        assert(out@.map_values(|v: (String, String)| (v.0@, v.1@)) =~= prev.push(
                            (out@.last().0@, out@.last().1@),
                        ));
                    }
                }
            }
        }
        i += 1;
    }
    out
}

/// Every command of a reapply batch, in order.
pub fn reapply_command_summaries(plan: &Vec<ReapplyAction>, module_dir: &str) -> (r: Vec<String>)
    requires
        plan_scripts_known(crate::reapply::steps_view(plan@)),
    ensures
        views(r@) == reapply_commands_spec(crate::reapply::steps_view(plan@), module_dir@),
{
    let ghost p = crate::reapply::steps_view(plan@);
    let mut commands: Vec<String> = Vec::new();
    let mut i: usize = 0;
    while i < plan.len()
        invariant
            i <= plan@.len(),
            p == crate::reapply::steps_view(plan@),
            plan_scripts_known(p),
            views(commands@) == p.take(i as int).map_values(|a: ReapplyView| step_command_spec(a, module_dir@)),
        decreases plan@.len() - i,
    {
        assert(p[i as int] == plan@[i as int]@);
        let c = step_command(&plan[i], module_dir);
        push_word(&mut commands, c.as_str());
        assert(p.take(i + 1).map_values(|a: ReapplyView| step_command_spec(a, module_dir@)) =~= p.take(
            i as int,
        ).map_values(|a: ReapplyView| step_command_spec(a, module_dir@)).push(
            step_command_spec(p[i as int], module_dir@),
        ));
        i += 1;
    }
    assert(p.take(plan@.len() as int) =~= p);
    if plan_needs_restart(plan) {
        let words = reload_words(plan, module_dir);
        let restart = quote_words(&words);
        push_word(&mut commands, restart.as_str());
        let checks = verification_commands(plan, module_dir);
        let ghost base = views(commands@);
        let mut k: usize = 0;
        while k < checks.len()
            invariant
                k <= checks@.len(),
                views(commands@) == base + checks@.take(k as int).map_values(
                    |v: (String, String)| v.1@,
                ),
            decreases checks@.len() - k,
        {
            push_word(&mut commands, checks[k].1.as_str());
            assert(checks@.take(k + 1).map_values(|v: (String, String)| v.1@) =~= checks@.take(
                k as int,
            ).map_values(|v: (String, String)| v.1@).push(checks@[k as int].1@));
            k += 1;
        }
        assert(checks@.take(checks@.len() as int) =~= checks@);
        assert(checks@.map_values(|v: (String, String)| v.1@) =~= verifications_spec(p, module_dir@).map_values(
            |v: (Seq<char>, Seq<char>)| v.1,
        ));
    }
    assert(views(commands@) =~= reapply_commands_spec(p, module_dir@));
    commands
}

/// The guarded script of each reapply step, labelled.
pub fn render_reapply_steps(plan: &Vec<ReapplyAction>, module_dir: &str) -> (r: Vec<ReapplyScriptStep>)
    requires
        plan_scripts_known(crate::reapply::steps_view(plan@)),
    ensures
        script_steps_view(r@) == crate::reapply::steps_view(plan@).map_values(
            |a: ReapplyView|
                (
                    step_label_spec(a),
                    guarded_exec("controller_upstream_started"@, step_command_spec(a, module_dir@)),
                ),
        ),
{
    let ghost p = crate::reapply::steps_view(plan@);
    let ghost f = |a: ReapplyView|
        (
            step_label_spec(a),
            guarded_exec("controller_upstream_started"@, step_command_spec(a, module_dir@)),
        );
    let mut out: Vec<ReapplyScriptStep> = Vec::new();
    let mut i: usize = 0;
    while i < plan.len()
        invariant
            i <= plan@.len(),
            p == crate::reapply::steps_view(plan@),
            plan_scripts_known(p),
            f == (|a: ReapplyView|
                (
                    step_label_spec(a),
                    guarded_exec("controller_upstream_started"@, step_command_spec(a, module_dir@)),
                )),
            script_steps_view(out@) == p.take(i as int).map_values(f),
        decreases plan@.len() - i,
    {
        assert(p[i as int] == plan@[i as int]@);
        let command = step_command(&plan[i], module_dir);
        let label = match &plan[i] {
            ReapplyAction::Policy(_) => owned("policy"),
            ReapplyAction::Extra(extra) => extra.tool(),
        };
        let script = render_guarded_exec("controller_upstream_started", command.as_str());
        let ghost before = script_steps_view(out@);
        out.push(ReapplyScriptStep { label, script });
        assert(script_steps_view(out@) =~= before.push(f(p[i as int])));
        assert(p.take(i + 1).map_values(f) =~= p.take(i as int).map_values(f).push(f(p[i as int])));
        i += 1;
    }
    assert(p.take(plan@.len() as int) =~= p);
    out
}

/// The single restart script of a batch, if a step needs it.
pub fn render_reapply_restart_script(plan: &Vec<ReapplyAction>, module_dir: &str) -> (r: Option<
    String,
>)
    ensures
        plan_restarts(crate::reapply::steps_view(plan@)) ==> (r matches Some(x) && x@ == guarded_exec(
            "controller_upstream_started"@,
            quoted_words(reapply_reload_words(crate::reapply::steps_view(plan@), module_dir@)),
        )),
        !plan_restarts(crate::reapply::steps_view(plan@)) ==> r is None,
{
    if !plan_needs_restart(plan) {
        return None;
    }
    let words = reload_words(plan, module_dir);
    let command = quote_words(&words);
    Some(render_guarded_exec("controller_upstream_started", command.as_str()))
}

/// The verification scripts of a batch after its restart, labelled.
pub fn render_reapply_verifications(plan: &Vec<ReapplyAction>, module_dir: &str) -> (r: Vec<
    ReapplyScriptStep,
>)
    requires
        plan_scripts_known(crate::reapply::steps_view(plan@)),
    ensures
        script_steps_view(r@) == verifications_spec(crate::reapply::steps_view(plan@), module_dir@).map_values(
            |v: (Seq<char>, Seq<char>)| (v.0, guarded_exec("controller_verification_started"@, v.1)),
        ),
{
    let checks = verification_commands(plan, module_dir);
    let ghost g = |v: (Seq<char>, Seq<char>)| (v.0, guarded_exec("controller_verification_started"@, v.1));
    let ghost cv = checks@.map_values(|v: (String, String)| (v.0@, v.1@));
    let mut out: Vec<ReapplyScriptStep> = Vec::new();
    let mut k: usize = 0;
    while k < checks.len()
        invariant
            k <= checks@.len(),
            cv == checks@.map_values(|v: (String, String)| (v.0@, v.1@)),
            g == (|v: (Seq<char>, Seq<char>)| (v.0, guarded_exec("controller_verification_started"@, v.1))),
            script_steps_view(out@) == cv.take(k as int).map_values(g),
        decreases checks@.len() - k,
    {
        let script = render_guarded_exec("controller_verification_started", checks[k].1.as_str());
        let label = checks[k].0.clone();
        let ghost before = script_steps_view(out@);
        out.push(ReapplyScriptStep { label, script });
        assert(cv[k as int] == (checks@[k as int].0@, checks@[k as int].1@));
        assert(script_steps_view(out@) =~= before.push(g(cv[k as int])));
        assert(cv.take(k + 1).map_values(g) =~= cv.take(k as int).map_values(g).push(g(cv[k as int])));
        k += 1;
    }
    assert(cv.take(checks@.len() as int) =~= cv);
    out
}

/// The scripts of a batch, as run one after the other.
pub open spec fn batch_step_text(n: nat, label: Seq<char>, script: Seq<char>) -> Seq<char> {
    "echo 'batch_step="@ + decimal(n) + ":"@ + label + "'\necho 'batch_step_started="@ + decimal(n)
        + "'\n"@ + script + "echo 'batch_step_exit="@ + decimal(n) + ":$?'\necho \"batch_step_exit="@
        + decimal(n) + ":$step_status\"\n"@
}

pub open spec fn batch_steps_text(steps: Seq<(Seq<char>, Seq<char>)>, n: int) -> Seq<char>
    decreases n,
{
    if n <= 0 {
        Seq::empty()
    } else {
        batch_steps_text(steps, n - 1) + batch_step_text(n as nat, steps[n - 1].0, steps[n - 1].1)
    }
}

/// A whole reapply batch as one script: its numbered steps, then the
/// restart if one is needed.
pub open spec fn reapply_script_spec(plan: Seq<ReapplyView>, module_dir: Seq<char>) -> Seq<char> {
    let steps = plan.map_values(
        |a: ReapplyView|
            (
                step_label_spec(a),
                guarded_exec("controller_upstream_started"@, step_command_spec(a, module_dir)),
            ),
    );
    "batch_status=0\n"@ + batch_steps_text(steps, steps.len() as int) + if plan_restarts(plan) {
        "echo 'batch_restart=audioserver'\necho 'batch_restart_started=1'\necho 'batch_restart_exit='$?\necho 'batch_restart_exit='$restart_status\n"@
            + guarded_exec(
            "controller_upstream_started"@,
            quoted_words(reapply_reload_words(plan, module_dir)),
        )
    } else {
        "echo 'batch_restart=not-required'\n"@
    }
}

/// A whole reapply batch as one script.
pub fn render_reapply_script(plan: &Vec<ReapplyAction>, module_dir: &str) -> (r: String)
    requires
        plan_scripts_known(crate::reapply::steps_view(plan@)),
    ensures
        r@ == reapply_script_spec(crate::reapply::steps_view(plan@), module_dir@),
{
    let steps = render_reapply_steps(plan, module_dir);
    let ghost sv = script_steps_view(steps@);
    let mut script = owned("batch_status=0\n");
    let mut i: usize = 0;
    while i < steps.len()
        invariant
            i <= steps@.len(),
            sv == script_steps_view(steps@),
            script@ == "batch_status=0\n"@ + batch_steps_text(sv, i as int),
        decreases steps@.len() - i,
    {
        let number = u64_to_string((i + 1) as u64);
        let ghost before = script@;
        push_str(&mut script, "echo 'batch_step=");
        push_str(&mut script, number.as_str());
        push_str(&mut script, ":");
        push_str(&mut script, steps[i].label.as_str());
        push_str(&mut script, "'\necho 'batch_step_started=");
        push_str(&mut script, number.as_str());
        push_str(&mut script, "'\n");
        push_str(&mut script, steps[i].script.as_str());
        push_str(&mut script, "echo 'batch_step_exit=");
        push_str(&mut script, number.as_str());
        push_str(&mut script, ":$?'\necho \"batch_step_exit=");
        push_str(&mut script, number.as_str());
        push_str(&mut script, ":$step_status\"\n");
        assert(sv[i as int] == (steps@[i as int].label@, steps@[i as int].script@));
        assert(script@ =~= before + batch_step_text((i + 1) as nat, sv[i as int].0, sv[i as int].1));
        i += 1;
    }
    match render_reapply_restart_script(plan, module_dir) {
        Some(restart) => {
            push_str(
                &mut script,
                "echo 'batch_restart=audioserver'\necho 'batch_restart_started=1'\necho 'batch_restart_exit='$?\necho 'batch_restart_exit='$restart_status\n",
            );
            push_str(&mut script, restart.as_str());
        },
        None => {
            push_str(&mut script, "echo 'batch_restart=not-required'\n");
        },
    }
    script
}

// ---------------------------------------------------------------------------
// Validation
// ---------------------------------------------------------------------------

/// Which of the files a policy operation needs are present in the module:
/// the Direct PCM dynamic template, the requested test template, and the
/// upstream script.
pub struct ModuleFiles {
    pub dynamic_template: bool,
    pub template: bool,
    pub upstream_script: bool,
}

/// The parts of a path between its slashes.
pub open spec fn path_parts(t: Seq<char>) -> Seq<Seq<char>>
    decreases t.len(),
{
    match crate::text::split_once(t, '/') {
        None => seq![t],
        Some((a, b)) => {
            proof {
                crate::text::lemma_first_index_bounds(t, '/');
            }
            seq![a] + path_parts(b)
        },
    }
}

/// A character a template path may hold.
pub open spec fn template_char(c: char) -> bool {
    ('a' <= c <= 'z') || ('A' <= c <= 'Z') || ('0' <= c <= '9') || c == '_' || c == '.' || c == '/'
        || c == '-'
}

/// A template path that stays inside the module's template directory: a
/// relative `.xml` path of plain parts.
pub open spec fn safe_template(t: Seq<char>) -> bool {
    &&& t.len() > 0
    &&& t[0] != '/'
    &&& forall|i: int|
        0 <= i < path_parts(t).len() ==> #[trigger] path_parts(t)[i].len() > 0 && path_parts(t)[i]
            != "."@ && path_parts(t)[i] != ".."@
    &&& crate::text::ends_with(t, ".xml"@)
    &&& forall|i: int| 0 <= i < t.len() ==> template_char(#[trigger] t[i])
}

pub open spec fn template_check_spec(t: Seq<char>, files: ModuleFiles) -> Result<(), Seq<char>> {
    if t == "offload_direct_dynamic_template.xml"@ {
        Err("select offload-direct-dynamic to use the dynamic template with inheritance"@)
    } else if !safe_template(t) {
        Err("unsafe template path: "@ + t)
    } else if !files.template {
        Err("template does not exist: "@ + t)
    } else {
        Ok(())
    }
}

/// The check that the upstream script is present.
pub open spec fn upstream_check_spec(module_dir: Seq<char>, files: ModuleFiles) -> Result<(), Seq<char>> {
    if files.upstream_script {
        Ok(())
    } else {
        Err("upstream script not found: "@ + path_join(core_dir(module_dir), "USB_SampleRate_Changer.sh"@))
    }
}

/// What a policy needs before it may be applied, checked in this order.
pub open spec fn validate_settings_spec(s: SettingsView, module_dir: Seq<char>, files: ModuleFiles) -> Result<
    (),
    Seq<char>,
> {
    if s.policy == "offload-direct-dynamic"@ && (s.test || s.amzm || s.force_bluetooth_qti) {
        Err(
            "Direct PCM dynamic inherits the system Bluetooth module; custom templates, Amazon mode and forced Bluetooth HAL are not supported"@,
        )
    } else if s.policy == "offload-direct-dynamic"@ && !files.dynamic_template {
        Err("Direct PCM dynamic template is missing"@)
    } else if policy_flag_spec(s.policy) is None {
        Err("unsupported policy mode: "@ + s.policy)
    } else if crate::cli::normalize_rate_spec(decimal(s.sample_rate as nat)) is Err {
        Err(crate::cli::normalize_rate_spec(decimal(s.sample_rate as nat))->Err_0)
    } else if !is_bit_depth(s.bit_depth) {
        Err("unsupported bit depth: "@ + s.bit_depth)
    } else if s.amzm && s.test {
        Err("--amzm and --test are mutually exclusive in the WebUI"@)
    } else {
        match (s.test, s.test_template) {
            (true, Some(t)) => match template_check_spec(t, files) {
                Err(e) => Err(e),
                Ok(()) => upstream_check_spec(module_dir, files),
            },
            (true, None) => Err("--test requires a template because the upstream default is absent"@),
            (false, Some(_)) => Err("--test-template requires --test"@),
            (false, None) => upstream_check_spec(module_dir, files),
        }
    }
}

/// A policy is accepted only with a known mode, a sample rate from 44100 to
/// 768000 Hz, a supported bit depth, Amazon mode and test mode not both
/// set, a test template exactly in test mode and then one that passes its
/// check, the upstream script present, and, for Direct PCM dynamic, its
/// template present and no test template, Amazon mode or forced Bluetooth
/// HAL.
pub proof fn lemma_accepted_settings(s: SettingsView, module_dir: Seq<char>, files: ModuleFiles)
    requires
        validate_settings_spec(s, module_dir, files) is Ok,
    ensures
        policy_flag_spec(s.policy) is Some,
        44_100 <= s.sample_rate <= 768_000,
        is_bit_depth(s.bit_depth),
        !(s.amzm && s.test),
        s.test <==> s.test_template is Some,
        s.test ==> template_check_spec(s.test_template->0, files) is Ok,
        files.upstream_script,
        s.policy == "offload-direct-dynamic"@ ==> !s.test && !s.amzm && !s.force_bluetooth_qti
            && files.dynamic_template,
{
    crate::text::lemma_decimal(s.sample_rate as nat);
    crate::cli::lemma_digits_not_alias(decimal(s.sample_rate as nat));
    crate::text::lemma_parse_decimal(s.sample_rate);
}

/// A test template is refused when it is the dynamic template, empty,
/// absolute, has an empty, `.` or `..` part, does not end in `.xml`, or
/// holds a character other than letters, digits, `_`, `.`, `/` and `-`;
/// one that passes exists in the module.
pub proof fn lemma_template_refusals(t: Seq<char>, files: ModuleFiles)
    ensures
        t == "offload_direct_dynamic_template.xml"@ || t.len() == 0 || t[0] == '/' || (exists|i: int|
            0 <= i < path_parts(t).len() && (#[trigger] path_parts(t)[i].len() == 0 || path_parts(t)[i]
                == "."@ || path_parts(t)[i] == ".."@)) || !crate::text::ends_with(t, ".xml"@) || (exists|
            i: int,
        | 0 <= i < t.len() && !template_char(#[trigger] t[i])) ==> template_check_spec(t, files) is Err,
        template_check_spec(t, files) is Ok ==> files.template,
{
}

fn is_template_char(c: char) -> (r: bool)
    ensures
        r == template_char(c),
{
    ('a' <= c && c <= 'z') || ('A' <= c && c <= 'Z') || ('0' <= c && c <= '9') || c == '_' || c
        == '.' || c == '/' || c == '-'
}

fn parts_plain(t: &str) -> (r: bool)
    ensures
        r == forall|i: int|
            0 <= i < path_parts(t@).len() ==> #[trigger] path_parts(t@)[i].len() > 0
                && path_parts(t@)[i] != "."@ && path_parts(t@)[i] != ".."@,
    decreases t@.len(),
{
    proof {
        crate::text::lemma_first_index_bounds(t@, '/');
    }
    match crate::text::split_once_char(t, '/') {
        None => {
            assert(path_parts(t@) =~= seq![t@]);
            let ok = t.unicode_len() > 0 && !eq_str(t, ".") && !eq_str(t, "..");
            assert(path_parts(t@)[0] == t@);
            ok
        },
        Some((a, b)) => {
            let ok = a.unicode_len() > 0 && !eq_str(a.as_str(), ".") && !eq_str(a.as_str(), "..");
            let rest = parts_plain(b.as_str());
            proof {
                let ps = path_parts(t@);
                assert(ps =~= seq![a@] + path_parts(b@));
                if ok && rest {
                    assert forall|i: int| 0 <= i < ps.len() implies #[trigger] ps[i].len() > 0
                        && ps[i] != "."@ && ps[i] != ".."@ by {
                        if i > 0 {
                            assert(ps[i] == path_parts(b@)[i - 1]);
                        }
                    }
                }
                if !rest {
                    let j = choose|j: int|
                        0 <= j < path_parts(b@).len() && !(path_parts(b@)[j].len() > 0
                            && path_parts(b@)[j] != "."@ && path_parts(b@)[j] != ".."@);
                    assert(ps[j + 1] == path_parts(b@)[j]);
                    assert(!(ps[j + 1].len() > 0 && ps[j + 1] != "."@ && ps[j + 1] != ".."@));
                }
                if !ok {
                    assert(ps[0] == a@);
                    assert(!(ps[0].len() > 0 && ps[0] != "."@ && ps[0] != ".."@));
                }
            }
            ok && rest
        },
    }
}

fn template_chars_ok(t: &str) -> (r: bool)
    ensures
        r == forall|i: int| 0 <= i < t@.len() ==> template_char(#[trigger] t@[i]),
{
    let v = crate::text::chars_of(t);
    let mut i: usize = 0;
    while i < v.len()
        invariant
            i <= v@.len(),
            v@ == t@,
            forall|j: int| 0 <= j < i ==> template_char(#[trigger] t@[j]),
        decreases v@.len() - i,
    {
        if !is_template_char(v[i]) {
            return false;
        }
        i += 1;
    }
    true
}

fn validate_template(template: &str, files: &ModuleFiles) -> (r: Result<(), String>)
    ensures
        match template_check_spec(template@, *files) {
            Ok(()) => r is Ok,
            Err(e) => r matches Err(m) && m@ == e,
        },
{
    if eq_str(template, "offload_direct_dynamic_template.xml") {
        return Err(
            owned("select offload-direct-dynamic to use the dynamic template with inheritance"),
        );
    }
    let safe = !template.is_empty() && template.get_char(0) != '/' && parts_plain(template)
        && crate::text::strip_suffix_str(template, ".xml").is_some() && template_chars_ok(template);
    if !safe {
        return Err(concat2("unsafe template path: ", template));
    }
    if !files.template {
        return Err(concat2("template does not exist: ", template));
    }
    Ok(())
}

fn validate_upstream_script(module_dir: &str, files: &ModuleFiles) -> (r: Result<(), String>)
    ensures
        match upstream_check_spec(module_dir@, *files) {
            Ok(()) => r is Ok,
            Err(e) => r matches Err(m) && m@ == e,
        },
{
    if files.upstream_script {
        Ok(())
    } else {
        let path = core_path(module_dir, "USB_SampleRate_Changer.sh");
        Err(concat2("upstream script not found: ", path.as_str()))
    }
}

/// Checks a policy before it is applied, given which module files exist.
pub fn validate_settings(settings: &Settings, module_dir: &str, files: &ModuleFiles) -> (r: Result<
    (),
    String,
>)
    ensures
        match validate_settings_spec(settings@, module_dir@, *files) {
            Ok(()) => r is Ok,
            Err(e) => r matches Err(m) && m@ == e,
        },
{
    let s = settings;
    if eq_str(s.policy.as_str(), "offload-direct-dynamic") {
        if s.test || s.amzm || s.force_bluetooth_qti {
            return Err(
                owned(
                    "Direct PCM dynamic inherits the system Bluetooth module; custom templates, Amazon mode and forced Bluetooth HAL are not supported",
                ),
            );
        }
        if !files.dynamic_template {
            return Err(owned("Direct PCM dynamic template is missing"));
        }
    }
    if policy_flag(s.policy.as_str()).is_none() {
        return Err(concat2("unsupported policy mode: ", s.policy.as_str()));
    }
    let rate = u32_to_string(s.sample_rate);
    match crate::cli::normalize_sample_rate(rate.as_str()) {
        Err(e) => {
            return Err(e);
        },
        Ok(_) => {},
    }
    if !crate::catalog::bit_depth_supported(s.bit_depth.as_str()) {
        return Err(concat2("unsupported bit depth: ", s.bit_depth.as_str()));
    }
    if s.amzm && s.test {
        return Err(owned("--amzm and --test are mutually exclusive in the WebUI"));
    }
    match (&s.test, &s.test_template) {
        (true, Some(template)) => validate_template(template.as_str(), files)?,
        (true, None) => {
            return Err(owned("--test requires a template because the upstream default is absent"));
        },
        (false, Some(_)) => {
            return Err(owned("--test-template requires --test"));
        },
        (false, None) => {},
    }
    validate_upstream_script(module_dir, files)
}

/// Checks a policy operation: an apply checks the policy, a reset only the
/// upstream script.
pub fn validate_settings_for_action(
    settings: &Settings,
    module_dir: &str,
    action: Action,
    files: &ModuleFiles,
) -> (r: Result<(), String>)
    ensures
        match (match action {
            Action::Apply => validate_settings_spec(settings@, module_dir@, *files),
            Action::Reset => upstream_check_spec(module_dir@, *files),
        }) {
            Ok(()) => r is Ok,
            Err(e) => r matches Err(m) && m@ == e,
        },
{
    match action {
        Action::Apply => validate_settings(settings, module_dir, files),
        Action::Reset => validate_upstream_script(module_dir, files),
    }
}

/// Which files each step of a reapply plan needs: those of a policy, or
/// the Extras script.
pub struct StepFiles {
    pub policy: ModuleFiles,
    pub extra_script: bool,
}

/// The first failing check among the first `n` steps of a plan.
pub open spec fn plan_check_upto(
    plan: Seq<ReapplyView>,
    module_dir: Seq<char>,
    files: Seq<StepFiles>,
    n: int,
) -> Result<(), Seq<char>>
    decreases n,
{
    if n <= 0 {
        Ok(())
    } else {
        match plan_check_upto(plan, module_dir, files, n - 1) {
            Err(e) => Err(e),
            Ok(()) => match plan[n - 1] {
                ReapplyView::Policy(s) => validate_settings_spec(s, module_dir, files[n - 1].policy),
                ReapplyView::Extra(e) => if files[n - 1].extra_script {
                    Ok(())
                } else {
                    Err(
                        "extras script not found: "@ + path_join(
                            extras_dir(module_dir),
                            script_spec(e),
                        ),
                    )
                },
            },
        }
    }
}

/// What a reapply plan needs before it runs: each step's files, then the
/// reload script when a step restarts audioserver.
pub open spec fn validate_plan_spec(
    plan: Seq<ReapplyView>,
    module_dir: Seq<char>,
    files: Seq<StepFiles>,
    reload_present: bool,
) -> Result<(), Seq<char>> {
    match plan_check_upto(plan, module_dir, files, plan.len() as int) {
        Err(e) => Err(e),
        Ok(()) => if plan_restarts(plan) && !reload_present {
            Err("audio reload script not found: "@ + reload_path(module_dir))
        } else {
            Ok(())
        },
    }
}

proof fn lemma_plan_check_error(
    plan: Seq<ReapplyView>,
    module_dir: Seq<char>,
    files: Seq<StepFiles>,
    n: int,
)
    requires
        0 <= n <= plan.len(),
        plan_check_upto(plan, module_dir, files, n) is Err,
    ensures
        plan_check_upto(plan, module_dir, files, plan.len() as int) == plan_check_upto(
            plan,
            module_dir,
            files,
            n,
        ),
    decreases plan.len() - n,
{
    if n < plan.len() {
        lemma_plan_check_error(plan, module_dir, files, n + 1);
    }
}

/// Checks a reapply plan against the files present in the module.
pub fn validate_reapply_plan(
    plan: &Vec<ReapplyAction>,
    module_dir: &str,
    files: &Vec<StepFiles>,
    reload_present: bool,
) -> (r: Result<(), String>)
    requires
        files@.len() == plan@.len(),
        plan_scripts_known(crate::reapply::steps_view(plan@)),
    ensures
        match validate_plan_spec(crate::reapply::steps_view(plan@), module_dir@, files@, reload_present) {
            Ok(()) => r is Ok,
            Err(e) => r matches Err(m) && m@ == e,
        },
{
    let ghost p = crate::reapply::steps_view(plan@);
    let mut i: usize = 0;
    while i < plan.len()
        invariant
            i <= plan@.len(),
            files@.len() == plan@.len(),
            p == crate::reapply::steps_view(plan@),
            plan_scripts_known(p),
            plan_check_upto(p, module_dir@, files@, i as int) is Ok,
        decreases plan@.len() - i,
    {
        assert(p[i as int] == plan@[i as int]@);
        match &plan[i] {
            ReapplyAction::Policy(settings) => {
                let r = validate_settings(settings, module_dir, &files[i].policy);
                if let Err(e) = r {
                    proof {
                        lemma_plan_check_error(p, module_dir@, files@, i + 1);
                    }
                    return Err(e);
                }
            },
            ReapplyAction::Extra(extra) => {
                if !files[i].extra_script {
                    let path = extras_path(module_dir, extra.script());
                    proof {
                        lemma_plan_check_error(p, module_dir@, files@, i + 1);
                    }
                    return Err(concat2("extras script not found: ", path.as_str()));
                }
            },
        }
        i += 1;
    }
    if plan_needs_restart(plan) && !reload_present {
        let reload = extras_path(module_dir, "reload-audio-servers.sh");
        return Err(concat2("audio reload script not found: ", reload.as_str()));
    }
    Ok(())
}

} // verus!
