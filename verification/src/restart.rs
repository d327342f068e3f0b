//! Clean-exit restart: who may ask for it, what is to be started again, and the texts that pass
//! between the daemon, its detached driver and the next boot.
use vstd::prelude::*;
use vstd::string::*;

use crate::event;
use crate::numeral;
use crate::text;

verus! {

/// The lock file of a running driver, beside the seat's log.
pub const DRIVER_PID_FILE: &'static str = "restart-driver.pid";

/// The receipt that a driver leaves for the next boot, beside the seat's log.
pub const DRIVER_RECEIPT_FILE: &'static str = "restart-driver.receipt";

/// The argument that starts the daemon's binary as a driver.
pub const DRIVER_ARG: &'static str = "--restart-driver";

/// Exit code of a driver that was started with malformed arguments.
pub const USAGE_EXIT_CODE: i32 = 2;

/// Event kind of stream messages, which carry control commands.
pub const KIND_STREAM_MESSAGE: u32 = 9;

// ---- The command ----

/// A stream message that says `!restart`, mentions the agent and comes from its owner.
pub open spec fn restart_wanted(
    e: event::RecordView,
    kind: u32,
    agent: Seq<char>,
    owner: Option<Seq<char>>,
) -> bool {
    &&& kind == KIND_STREAM_MESSAGE
    &&& text::trimmed(e.content) == "!restart"@
    &&& event::mentions(e, agent)
    &&& owner == Some(e.pubkey)
}

/// Decides whether an event is the owner's `!restart` command to this agent. Without a verified
/// owner it never is.
pub fn restart_decision(
    event: &event::EventRecord,
    kind_u32: u32,
    agent_pubkey_hex: &str,
    owner: Option<&str>,
) -> (r: bool)
    ensures
        r == restart_wanted(event@, kind_u32, agent_pubkey_hex@, text::opt(owner)),
{
    kind_u32 == KIND_STREAM_MESSAGE && text::same_text(
        text::trim(event.content.as_str()),
        "!restart",
    ) && event::event_mentions_agent(event, agent_pubkey_hex) && match owner {
        Some(o) => text::same_text(o, event.pubkey.as_str()),
        None => false,
    }
}

/// Nobody but the owner restarts a seat, and while the owner is unknown nobody does.
pub proof fn only_the_owner_restarts(
    e: event::RecordView,
    kind: u32,
    agent: Seq<char>,
    owner: Option<Seq<char>>,
)
    requires
        owner is None || owner->0 != e.pubkey,
    ensures
        !restart_wanted(e, kind, agent, owner),
{
}

// ---- The target ----

/// What the driver starts again.
#[derive(Debug, Clone, PartialEq, Eq)]
pub enum RespawnTarget {
    /// A seat under launchd: `launchctl kickstart gui/<uid>/<label>`.
    Launchd { uid: String, label: String },
    /// A seat started by a script, at this path.
    Script(String),
    /// Nothing is configured.
    Unset,
}

/// What a [`RespawnTarget`] says.
pub enum TargetView {
    Launchd { uid: Seq<char>, label: Seq<char> },
    Script(Seq<char>),
    Unset,
}

impl View for RespawnTarget {
    type V = TargetView;

    open spec fn view(&self) -> TargetView {
        match *self {
            RespawnTarget::Launchd { uid, label } => TargetView::Launchd {
                uid: uid@,
                label: label@,
            },
            RespawnTarget::Script(path) => TargetView::Script(path@),
            RespawnTarget::Unset => TargetView::Unset,
        }
    }
}

impl RespawnTarget {
    /// Whether the launchd mode is passed over, which is worth a warning.
    pub fn skips_launchd(&self) -> (r: bool)
        ensures
            r == !(self@ is Launchd),
    {
        match self {
            RespawnTarget::Launchd { .. } => false,
            _ => true,
        }
    }
}

/// A setting that holds more than white space.
pub open spec fn is_set(s: Option<Seq<char>>) -> bool {
    s is Some && text::trimmed(s->0).len() > 0
}

/// The user id: from the environment where it is there, else from the output of `id -u`.
pub open spec fn uid_text(env: Option<Seq<char>>, id_output: Option<Seq<char>>) -> Seq<char> {
    match env {
        Some(uid) => uid,
        None => match id_output {
            Some(out) => text::trimmed(out),
            None => Seq::empty(),
        },
    }
}

/// The respawn target that the settings name. The launchd label comes first, where the user id is
/// known too.
pub open spec fn target_of(
    label: Option<Seq<char>>,
    uid_env: Option<Seq<char>>,
    id_output: Option<Seq<char>>,
    script: Option<Seq<char>>,
) -> TargetView {
    if is_set(label) && uid_text(uid_env, id_output).len() > 0 {
        TargetView::Launchd { uid: uid_text(uid_env, id_output), label: label->0 }
    } else if is_set(script) {
        TargetView::Script(script->0)
    } else {
        TargetView::Unset
    }
}

/// The output of `id -u` matters: a label is set, and the environment does not hold the user id.
pub open spec fn lookup_matters(label: Option<Seq<char>>, uid_env: Option<Seq<char>>) -> bool {
    is_set(label) && uid_env is None
}

fn setting_is_set(s: Option<&str>) -> (r: bool)
    ensures
        r == is_set(text::opt(s)),
{
    match s {
        Some(t) => !text::trim(t).is_empty(),
        None => false,
    }
}

/// Whether `id -u` has to be asked before [`resolve_target`].
pub fn needs_uid_lookup(label: Option<&str>, uid_env: Option<&str>) -> (r: bool)
    ensures
        r == lookup_matters(text::opt(label), text::opt(uid_env)),
{
    setting_is_set(label) && uid_env.is_none()
}

/// Resolves the respawn target from the daemon's settings: the launchd label, the user id from the
/// environment, the output of `id -u`, and the start script.
pub fn resolve_target(
    label: Option<&str>,
    uid_env: Option<&str>,
    id_output: Option<&str>,
    script: Option<&str>,
) -> (r: RespawnTarget)
    ensures
        r@ == target_of(text::opt(label), text::opt(uid_env), text::opt(id_output), text::opt(script)),
{
    if let Some(l) = label {
        if setting_is_set(label) {
            let uid = match uid_env {
                Some(uid) => uid.to_owned(),
                None => match id_output {
                    Some(out) => text::trim(out).to_owned(),
                    None => String::new(),
                },
            };
            if !uid.as_str().is_empty() {
                return RespawnTarget::Launchd { uid, label: l.to_owned() };
            }
        }
    }
    if let Some(s) = script {
        if setting_is_set(script) {
            return RespawnTarget::Script(s.to_owned());
        }
    }
    RespawnTarget::Unset
}

/// Where no lookup is needed, the target is the same whatever `id -u` would say.
pub proof fn skipped_lookup_changes_nothing(
    label: Option<Seq<char>>,
    uid_env: Option<Seq<char>>,
    a: Option<Seq<char>>,
    b: Option<Seq<char>>,
    script: Option<Seq<char>>,
)
    requires
        !lookup_matters(label, uid_env),
    ensures
        target_of(label, uid_env, a, script) == target_of(label, uid_env, b, script),
{
}

// ---- The driver's command line ----

/// What a driver is told on its command line. A hyphen stands for a value that is not there.
#[derive(Debug, Clone, PartialEq, Eq)]
pub struct DriverArgs {
    pub parent_pid: u32,
    pub label: String,
    pub script: String,
    pub uid: String,
}

/// What [`DriverArgs`] say.
pub struct ArgsView {
    pub parent_pid: u32,
    pub label: Seq<char>,
    pub script: Seq<char>,
    pub uid: Seq<char>,
}

impl View for DriverArgs {
    type V = ArgsView;

    open spec fn view(&self) -> ArgsView {
        ArgsView {
            parent_pid: self.parent_pid,
            label: self.label@,
            script: self.script@,
            uid: self.uid@,
        }
    }
}

/// Why a command line is none of a driver.
#[derive(Debug, Clone, PartialEq, Eq)]
pub enum DriverArgError {
    /// The driver argument stands last, with no pid after it.
    MissingPid,
    /// An argument that is no flag, or a flag without its value.
    Unexpected(String),
    /// No pid was given, or the last one given is no number.
    NoValidPid,
}

/// What a [`DriverArgError`] says.
pub enum ArgErrorView {
    MissingPid,
    Unexpected(Seq<char>),
    NoValidPid,
}

impl View for DriverArgError {
    type V = ArgErrorView;

    open spec fn view(&self) -> ArgErrorView {
        match *self {
            DriverArgError::MissingPid => ArgErrorView::MissingPid,
            DriverArgError::Unexpected(arg) => ArgErrorView::Unexpected(arg@),
            DriverArgError::NoValidPid => ArgErrorView::NoValidPid,
        }
    }
}

/// One of the four flags of a driver.
pub open spec fn is_flag(arg: Seq<char>) -> bool {
    arg == DRIVER_ARG@ || arg == "--label"@ || arg == "--script"@ || arg == "--uid"@
}

/// The first place, from the even place `i` on, where no flag with a value after it stands.
pub open spec fn first_bad(args: Seq<Seq<char>>, i: int) -> Option<int>
    decreases args.len() - i,
{
    if i >= args.len() {
        None
    } else if is_flag(args[i]) && i + 1 < args.len() {
        first_bad(args, i + 2)
    } else {
        Some(i)
    }
}

/// The value that `flag` was last given among the pairs of the first `n` arguments.
pub open spec fn flag_value(args: Seq<Seq<char>>, flag: Seq<char>, n: int) -> Option<Seq<char>>
    decreases n,
{
    if n < 2 {
        None
    } else if args[n - 2] == flag {
        Some(args[n - 1])
    } else {
        flag_value(args, flag, n - 2)
    }
}

/// The value of `flag`, or a hyphen.
pub open spec fn value_or_hyphen(args: Seq<Seq<char>>, flag: Seq<char>, n: int) -> Seq<char> {
    match flag_value(args, flag, n) {
        Some(v) => v,
        None => "-"@,
    }
}

/// The pid that was last given among the first `n` arguments, where it is a number.
pub open spec fn pid_value(args: Seq<Seq<char>>, n: int) -> Option<u32> {
    match flag_value(args, DRIVER_ARG@, n) {
        Some(v) => numeral::u32_of(v),
        None => None,
    }
}

/// What a command line tells a driver: pairs of a flag and its value, of which the last of each
/// flag counts.
pub open spec fn args_of(args: Seq<Seq<char>>) -> Result<ArgsView, ArgErrorView> {
    let n = args.len() as int;
    match first_bad(args, 0) {
        Some(i) => if args[i] == DRIVER_ARG@ {
            Err(ArgErrorView::MissingPid)
        } else {
            Err(ArgErrorView::Unexpected(args[i]))
        },
        None => match pid_value(args, n) {
            Some(parent_pid) => Ok(
                ArgsView {
                    parent_pid,
                    label: value_or_hyphen(args, "--label"@, n),
                    script: value_or_hyphen(args, "--script"@, n),
                    uid: value_or_hyphen(args, "--uid"@, n),
                },
            ),
            None => Err(ArgErrorView::NoValidPid),
        },
    }
}

/// The command line that tells a driver of a target.
pub open spec fn command_line(target: TargetView, parent_pid: u32) -> Option<Seq<Seq<char>>> {
    let (label, script, uid) = match target {
        TargetView::Launchd { uid, label } => (label, "-"@, uid),
        TargetView::Script(path) => ("-"@, path, "-"@),
        TargetView::Unset => ("-"@, "-"@, "-"@),
    };
    if target is Unset {
        None
    } else {
        Some(
            seq![
                DRIVER_ARG@,
                numeral::decimal(parent_pid as nat),
                "--label"@,
                label,
                "--script"@,
                script,
                "--uid"@,
                uid,
            ],
        )
    }
}

/// The target that a driver was told of.
pub open spec fn told_target(args: ArgsView) -> TargetView {
    if args.label != "-"@ {
        TargetView::Launchd { uid: args.uid, label: args.label }
    } else if args.script != "-"@ {
        TargetView::Script(args.script)
    } else {
        TargetView::Unset
    }
}

/// The arguments for a driver that restarts `target` once `parent_pid` is gone; nothing where
/// there is no target, and no driver to spawn.
pub fn driver_args(target: &RespawnTarget, parent_pid: u32) -> (r: Option<Vec<String>>)
    ensures
        (match r {
            Some(v) => Some(text::texts(v@)),
            None => None,
        }) == command_line(target@, parent_pid),
{
    let (label, script, uid): (&str, &str, &str) = match target {
        RespawnTarget::Unset => return None,
        RespawnTarget::Launchd { uid, label } => (label.as_str(), "-", uid.as_str()),
        RespawnTarget::Script(path) => ("-", path.as_str(), "-"),
    };
    let mut out: Vec<String> = Vec::new();
    out.push(DRIVER_ARG.to_owned());
    out.push(numeral::write_decimal(parent_pid as u128));
    out.push("--label".to_owned());
    out.push(label.to_owned());
    out.push("--script".to_owned());
    out.push(script.to_owned());
    out.push("--uid".to_owned());
    out.push(uid.to_owned());
    assert(text::texts(out@) =~= command_line(target@, parent_pid)->0);
    Some(out)
}

proof fn flags_differ()
    ensures
        DRIVER_ARG@ != "--label"@,
        DRIVER_ARG@ != "--script"@,
        DRIVER_ARG@ != "--uid"@,
        "--label"@ != "--script"@,
        "--label"@ != "--uid"@,
        "--script"@ != "--uid"@,
{
    reveal_strlit("--restart-driver");
    reveal_strlit("--label");
    reveal_strlit("--script");
    reveal_strlit("--uid");
    assert("--restart-driver"@.len() == 16);
    assert("--label"@.len() == 7);
    assert("--script"@.len() == 8);
    assert("--uid"@.len() == 5);
}

/// Reads a driver's command line (without the program's name).
pub fn parse_driver_args(args: &Vec<String>) -> (r: Result<DriverArgs, DriverArgError>)
    ensures
        (match r {
            Ok(a) => Ok(a@),
            Err(e) => Err(e@),
        }) == args_of(text::texts(args@)),
{
    let ghost model = text::texts(args@);
    let mut pid: Option<u32> = None;
    let mut label = "-".to_owned();
    let mut script = "-".to_owned();
    let mut uid = "-".to_owned();
    let n: usize = args.len();
    let mut i: usize = 0;
    proof {
        flags_differ();
    }
    while i < n
        invariant
            i <= n,
            n == args@.len(),
            i % 2 == 0,
            model == text::texts(args@),
            DRIVER_ARG@ != "--label"@,
            DRIVER_ARG@ != "--script"@,
            DRIVER_ARG@ != "--uid"@,
            "--label"@ != "--script"@,
            "--label"@ != "--uid"@,
            "--script"@ != "--uid"@,
            first_bad(model, 0) == first_bad(model, i as int),
            pid == pid_value(model, i as int),
            label@ == value_or_hyphen(model, "--label"@, i as int),
            script@ == value_or_hyphen(model, "--script"@, i as int),
            uid@ == value_or_hyphen(model, "--uid"@, i as int),
        decreases n - i,
    {
        let arg = args[i].as_str();
        assert(arg@ == model[i as int]);
        if text::same_text(arg, DRIVER_ARG) {
            if n - i < 2 {
                return Err(DriverArgError::MissingPid);
            }
            pid = numeral::parse_u32(args[i + 1].as_str());
        } else if n - i >= 2 && text::same_text(arg, "--label") {
            label = args[i + 1].clone();
        } else if n - i >= 2 && text::same_text(arg, "--script") {
            script = args[i + 1].clone();
        } else if n - i >= 2 && text::same_text(arg, "--uid") {
            uid = args[i + 1].clone();
        } else {
            return Err(DriverArgError::Unexpected(arg.to_owned()));
        }
        assert(args@[i + 1]@ == model[i + 1]);
        i = i + 2;
    }
    match pid {
        Some(parent_pid) => Ok(DriverArgs { parent_pid, label, script, uid }),
        None => Err(DriverArgError::NoValidPid),
    }
}

impl DriverArgs {
    /// The target that the driver was told of.
    pub fn target(&self) -> (r: RespawnTarget)
        ensures
            r@ == told_target(self@),
    {
        if !text::same_text(self.label.as_str(), "-") {
            RespawnTarget::Launchd { uid: self.uid.clone(), label: self.label.clone() }
        } else if !text::same_text(self.script.as_str(), "-") {
            RespawnTarget::Script(self.script.clone())
        } else {
            RespawnTarget::Unset
        }
    }
}

/// The line that a refused command line is logged with.
pub open spec fn arg_error_text(e: ArgErrorView) -> Seq<char> {
    match e {
        ArgErrorView::MissingPid => "restart-driver: missing pid after "@ + DRIVER_ARG@,
        ArgErrorView::Unexpected(arg) => "restart-driver: unexpected arg "@ + arg,
        ArgErrorView::NoValidPid => "restart-driver: no valid pid"@,
    }
}

impl DriverArgError {
    /// The line to log.
    pub fn message(&self) -> (r: String)
        ensures
            r@ == arg_error_text(self@),
    {
        match self {
            DriverArgError::MissingPid => text::join(
                "restart-driver: missing pid after ",
                DRIVER_ARG,
            ),
            DriverArgError::Unexpected(arg) => text::join(
                "restart-driver: unexpected arg ",
                arg.as_str(),
            ),
            DriverArgError::NoValidPid => "restart-driver: no valid pid".to_owned(),
        }
    }
}

/// A driver reads from its command line what the daemon wrote there.
pub proof fn command_line_round_trip(target: TargetView, parent_pid: u32)
    requires
        !(target is Unset),
    ensures
        args_of(command_line(target, parent_pid)->0) == Ok::<ArgsView, ArgErrorView>(
            match target {
                TargetView::Launchd { uid, label } => ArgsView {
                    parent_pid,
                    label,
                    script: "-"@,
                    uid,
                },
                TargetView::Script(path) => ArgsView {
                    parent_pid,
                    label: "-"@,
                    script: path,
                    uid: "-"@,
                },
                TargetView::Unset => ArgsView { parent_pid, label: "-"@, script: "-"@, uid: "-"@ },
            },
        ),
{
    let args = command_line(target, parent_pid)->0;
    flags_differ();
    numeral::u32_round_trip(parent_pid);
    reveal_with_fuel(first_bad, 6);
    reveal_with_fuel(flag_value, 6);
    assert(args.len() == 8);
    assert(args[0] == DRIVER_ARG@ && args[2] == "--label"@ && args[4] == "--script"@ && args[6]
        == "--uid"@);
    assert(first_bad(args, 0) is None);
    assert(flag_value(args, DRIVER_ARG@, 8) == Some(numeral::decimal(parent_pid as nat)));
}

/// A command line of flags, each with its value behind it.
pub open spec fn paired(pairs: Seq<(Seq<char>, Seq<char>)>) -> Seq<Seq<char>> {
    Seq::new(
        2 * pairs.len(),
        |i: int|
            if i % 2 == 0 {
                pairs[i / 2].0
            } else {
                pairs[i / 2].1
            },
    )
}

/// Each pair begins with one of the four flags.
pub open spec fn all_flags(pairs: Seq<(Seq<char>, Seq<char>)>) -> bool {
    forall|i: int|
        0 <= i < pairs.len() ==> {
            let flag = (#[trigger] pairs[i]).0;
            flag == "--restart-driver"@ || flag == "--label"@ || flag == "--script"@ || flag
                == "--uid"@
        }
}

/// No flag is given twice.
pub open spec fn no_repeats(pairs: Seq<(Seq<char>, Seq<char>)>) -> bool {
    forall|i: int, j: int|
        0 <= i < j < pairs.len() ==> (#[trigger] pairs[i]).0 != (#[trigger] pairs[j]).0
}

/// The value that the last pair with `flag` gives.
pub open spec fn last_given(pairs: Seq<(Seq<char>, Seq<char>)>, flag: Seq<char>) -> Option<
    Seq<char>,
>
    decreases pairs.len(),
{
    if pairs.len() == 0 {
        None
    } else if pairs.last().0 == flag {
        Some(pairs.last().1)
    } else {
        last_given(pairs.drop_last(), flag)
    }
}

proof fn pairs_are_well_placed(pairs: Seq<(Seq<char>, Seq<char>)>, k: int)
    requires
        all_flags(pairs),
        0 <= k <= pairs.len(),
    ensures
        first_bad(paired(pairs), 2 * k) is None,
    decreases pairs.len() - k,
{
    if k < pairs.len() {
        assert(paired(pairs)[2 * k] == pairs[k].0);
        pairs_are_well_placed(pairs, k + 1);
    }
}

proof fn value_is_last_given(pairs: Seq<(Seq<char>, Seq<char>)>, flag: Seq<char>, k: int)
    requires
        0 <= k <= pairs.len(),
    ensures
        flag_value(paired(pairs), flag, 2 * k) == last_given(pairs.take(k), flag),
    decreases k,
{
    if k > 0 {
        let args = paired(pairs);
        value_is_last_given(pairs, flag, k - 1);
        assert(pairs.take(k).drop_last() =~= pairs.take(k - 1));
        assert(args[2 * k - 2] == pairs[k - 1].0);
        assert(args[2 * k - 1] == pairs[k - 1].1);
    }
}

/// What a command line of flags and values tells a driver: of each flag the value that was last
/// given, and a hyphen for a flag that was left out. Without a pid that is a number it is refused.
pub proof fn last_values_count(pairs: Seq<(Seq<char>, Seq<char>)>)
    requires
        all_flags(pairs),
    ensures
        args_of(paired(pairs)) == match last_given(pairs, DRIVER_ARG@) {
            Some(v) => match numeral::u32_of(v) {
                Some(parent_pid) => Ok(
                    ArgsView {
                        parent_pid,
                        label: last_given(pairs, "--label"@).unwrap_or("-"@),
                        script: last_given(pairs, "--script"@).unwrap_or("-"@),
                        uid: last_given(pairs, "--uid"@).unwrap_or("-"@),
                    },
                ),
                None => Err(ArgErrorView::NoValidPid),
            },
            None => Err(ArgErrorView::NoValidPid),
        },
{
    let n = pairs.len() as int;
    assert(pairs.take(n) =~= pairs);
    pairs_are_well_placed(pairs, 0);
    value_is_last_given(pairs, DRIVER_ARG@, n);
    value_is_last_given(pairs, "--label"@, n);
    value_is_last_given(pairs, "--script"@, n);
    value_is_last_given(pairs, "--uid"@, n);
}

proof fn last_given_is_there(pairs: Seq<(Seq<char>, Seq<char>)>, flag: Seq<char>)
    ensures
        match last_given(pairs, flag) {
            Some(v) => pairs.contains((flag, v)),
            None => forall|i: int| 0 <= i < pairs.len() ==> (#[trigger] pairs[i]).0 != flag,
        },
    decreases pairs.len(),
{
    if pairs.len() > 0 {
        let init = pairs.drop_last();
        last_given_is_there(init, flag);
        if pairs.last().0 == flag {
            assert(pairs[pairs.len() - 1] == (flag, pairs.last().1));
        } else if last_given(init, flag) is Some {
            let v = last_given(init, flag)->0;
            let i = choose|i: int| 0 <= i < init.len() && init[i] == (flag, v);
            assert(pairs[i] == (flag, v));
        } else {
            assert forall|i: int| 0 <= i < pairs.len() implies (#[trigger] pairs[i]).0 != flag by {
                if i < init.len() {
                    assert(init[i] == pairs[i]);
                }
            }
        }
    }
}

proof fn same_pairs_same_value(
    a: Seq<(Seq<char>, Seq<char>)>,
    b: Seq<(Seq<char>, Seq<char>)>,
    flag: Seq<char>,
)
    requires
        no_repeats(b),
        forall|p: (Seq<char>, Seq<char>)| a.contains(p) <==> b.contains(p),
    ensures
        last_given(a, flag) == last_given(b, flag),
{
    last_given_is_there(a, flag);
    last_given_is_there(b, flag);
    if let Some(v) = last_given(a, flag) {
        assert(b.contains((flag, v)));
        let i = choose|i: int| 0 <= i < b.len() && b[i] == (flag, v);
        assert(last_given(b, flag) is Some);
        let w = last_given(b, flag)->0;
        let j = choose|j: int| 0 <= j < b.len() && b[j] == (flag, w);
        if i < j {
            assert(b[i].0 != b[j].0);
        } else if j < i {
            assert(b[j].0 != b[i].0);
        }
    } else if let Some(w) = last_given(b, flag) {
        assert(a.contains((flag, w)));
        let i = choose|i: int| 0 <= i < a.len() && a[i] == (flag, w);
        assert(a[i].0 == flag);
    }
}

/// The order in which the flags stand makes no difference, each with its value behind it and none
/// given twice.
pub proof fn order_of_flags_makes_no_difference(
    a: Seq<(Seq<char>, Seq<char>)>,
    b: Seq<(Seq<char>, Seq<char>)>,
)
    requires
        all_flags(a),
        no_repeats(a),
        no_repeats(b),
        forall|p: (Seq<char>, Seq<char>)| a.contains(p) <==> b.contains(p),
    ensures
        args_of(paired(a)) == args_of(paired(b)),
{
    assert forall|i: int| 0 <= i < b.len() implies is_flag((#[trigger] b[i]).0) by {
        assert(b.contains(b[i]));
        assert(a.contains(b[i]));
    }
    last_values_count(a);
    last_values_count(b);
    same_pairs_same_value(a, b, DRIVER_ARG@);
    same_pairs_same_value(a, b, "--label"@);
    same_pairs_same_value(a, b, "--script"@);
    same_pairs_same_value(a, b, "--uid"@);
}

/// The order of two flags that stand side by side makes no difference either, whatever else is
/// given, and however often.
pub proof fn neighbours_may_change_places(
    before: Seq<(Seq<char>, Seq<char>)>,
    p: (Seq<char>, Seq<char>),
    q: (Seq<char>, Seq<char>),
    after: Seq<(Seq<char>, Seq<char>)>,
)
    requires
        p.0 != q.0,
        all_flags(before + seq![p, q] + after),
    ensures
        args_of(paired(before + seq![p, q] + after)) == args_of(
            paired(before + seq![q, p] + after),
        ),
{
    let a = before + seq![p, q] + after;
    let b = before + seq![q, p] + after;
    let k = before.len() as int;
    assert forall|i: int| 0 <= i < b.len() implies is_flag((#[trigger] b[i]).0) by {
        if i == k {
            assert(b[i] == a[k + 1]);
        } else if i == k + 1 {
            assert(b[i] == a[k]);
        } else {
            assert(b[i] == a[i]);
        }
    }
    last_values_count(a);
    last_values_count(b);
    swap_keeps_values(before, p, q, after, DRIVER_ARG@);
    swap_keeps_values(before, p, q, after, "--label"@);
    swap_keeps_values(before, p, q, after, "--script"@);
    swap_keeps_values(before, p, q, after, "--uid"@);
}

proof fn swap_keeps_values(
    before: Seq<(Seq<char>, Seq<char>)>,
    p: (Seq<char>, Seq<char>),
    q: (Seq<char>, Seq<char>),
    after: Seq<(Seq<char>, Seq<char>)>,
    flag: Seq<char>,
)
    requires
        p.0 != q.0,
    ensures
        last_given(before + seq![p, q] + after, flag) == last_given(
            before + seq![q, p] + after,
            flag,
        ),
    decreases after.len(),
{
    let a = before + seq![p, q] + after;
    let b = before + seq![q, p] + after;
    if after.len() == 0 {
        reveal_with_fuel(last_given, 3);
        assert(a.drop_last().drop_last() =~= before);
        assert(b.drop_last().drop_last() =~= before);
        assert(a.last() == q && a.drop_last().last() == p);
        assert(b.last() == p && b.drop_last().last() == q);
    } else {
        let init = after.drop_last();
        swap_keeps_values(before, p, q, init, flag);
        assert(a.drop_last() =~= before + seq![p, q] + init);
        assert(b.drop_last() =~= before + seq![q, p] + init);
        assert(a.last() == after.last() && b.last() == after.last());
    }
}

/// The target that the daemon resolved is the one that its driver restarts. A label or a script
/// path that is a lone hyphen is the exception: the command line writes absence so.
pub proof fn target_survives_the_command_line(target: TargetView, parent_pid: u32)
    requires
        !(target is Unset),
        target matches TargetView::Launchd { label, .. } ==> label != "-"@,
        target matches TargetView::Script(path) ==> path != "-"@,
    ensures
        args_of(command_line(target, parent_pid)->0) matches Ok(a) && a.parent_pid == parent_pid
            && told_target(a) == target,
{
    command_line_round_trip(target, parent_pid);
}

// ---- What the driver reads and writes ----

/// The launchd service of a seat.
pub open spec fn service_text(uid: Seq<char>, label: Seq<char>) -> Seq<char> {
    "gui/"@ + uid + "/"@ + label
}

/// The launchd service of a seat.
pub fn launchd_service(uid: &str, label: &str) -> (r: String)
    ensures
        r@ == service_text(uid@, label@),
{
    let mut out = text::join("gui/", uid);
    out.append("/");
    out.append(label);
    out
}

/// The pid in a pid file.
pub open spec fn pid_file_pid(content: Seq<char>) -> Option<u32> {
    numeral::u32_of(text::trimmed(content))
}

/// Reads the pid in a pid file.
pub fn parse_pid_file(content: &str) -> (r: Option<u32>)
    ensures
        r == pid_file_pid(content@),
{
    numeral::parse_u32(text::trim(content))
}

/// The pid that a line `pid = N` names.
pub open spec fn line_pid(line: Seq<char>) -> Option<u32> {
    match text::after_prefix(text::trimmed(line), "pid = "@) {
        Some(v) => numeral::u32_of(text::trimmed(v)),
        None => None,
    }
}

/// Where the line that holds place `i` ends: at its line feed, or at the end of the text.
pub open spec fn line_end(s: Seq<char>, i: int) -> int
    decreases s.len() - i,
{
    if i >= s.len() || s[i] == '\n' {
        i
    } else {
        line_end(s, i + 1)
    }
}

/// A line ends no earlier than it begins, and within the text.
pub proof fn line_end_bounds(s: Seq<char>, i: int)
    requires
        0 <= i <= s.len(),
    ensures
        i <= line_end(s, i) <= s.len(),
    decreases s.len() - i,
{
    if i < s.len() && s[i] != '\n' {
        line_end_bounds(s, i + 1);
    }
}

/// The pid that the first line with one names, from the line that begins at `i` on.
pub open spec fn first_line_pid(s: Seq<char>, i: int) -> Option<u32>
    decreases s.len() - i,
{
    if i < 0 || i >= s.len() {
        None
    } else {
        let end = line_end(s, i);
        match line_pid(s.subrange(i, end)) {
            Some(pid) => Some(pid),
            None => if end >= s.len() {
                None
            } else {
                proof {
                    line_end_bounds(s, i);
                }
                first_line_pid(s, end + 1)
            },
        }
    }
}

/// The job's pid from the output of `launchctl print`: the first line that reads `pid = N`.
pub fn launchctl_print_pid(output: &str) -> (r: Option<u32>)
    ensures
        r == first_line_pid(output@, 0),
{
    let chars = text::chars_of(output);
    let n: usize = chars.len();
    let mut from: usize = 0;
    while from < n
        invariant
            n == chars@.len(),
            chars@ == output@,
            from <= n,
            first_line_pid(output@, 0) == first_line_pid(output@, from as int),
        decreases n - from,
    {
        let mut to: usize = from;
        while to < n && chars[to] != '\n'
            invariant
                n == chars@.len(),
                chars@ == output@,
                from <= to <= n,
                line_end(output@, from as int) == line_end(output@, to as int),
            decreases n - to,
        {
            to = to + 1;
        }
        assert(line_end(output@, from as int) == to);
        let line = output.substring_char(from, to);
        if let Some(v) = text::strip_prefix(text::trim(line), "pid = ") {
            if let Some(pid) = numeral::parse_u32(text::trim(v)) {
                return Some(pid);
            }
        }
        if to == n {
            return None;
        }
        from = to + 1;
    }
    None
}

/// How a launch of `launchctl kickstart` went: its exit, or why it could not be spawned.
pub open spec fn kickstart_text(exit: Result<(bool, Option<i32>), Seq<char>>) -> Result<
    (),
    Seq<char>,
> {
    match exit {
        Err(e) => Err("launchctl spawn: "@ + e),
        Ok((true, _)) => Ok(()),
        Ok((false, code)) => Err(
            "launchctl kickstart exited "@ + numeral::signed_decimal(
                match code {
                    Some(c) => c as int,
                    None => -1,
                },
            ),
        ),
    }
}

/// Judges a run of `launchctl kickstart` by whether it succeeded and its exit code, if any.
pub fn kickstart_outcome(exit: Result<(bool, Option<i32>), String>) -> (r: Result<(), String>)
    ensures
        (match r {
            Ok(()) => Ok(()),
            Err(e) => Err(e@),
        }) == kickstart_text(
            match exit {
                Ok(v) => Ok(v),
                Err(e) => Err(e@),
            },
        ),
{
    match exit {
        Err(e) => Err(text::join("launchctl spawn: ", e.as_str())),
        Ok((success, code)) => {
            if success {
                Ok(())
            } else {
                let c: i32 = match code {
                    Some(c) => c,
                    None => -1,
                };
                Err(
                    text::join(
                        "launchctl kickstart exited ",
                        numeral::write_signed_decimal(c).as_str(),
                    ),
                )
            }
        },
    }
}

/// How a launch of the start script went.
pub open spec fn script_text(
    script: Seq<char>,
    found: bool,
    spawned: Result<(), Seq<char>>,
) -> Result<(), Seq<char>> {
    if !found {
        Err("start script not found: "@ + script)
    } else {
        match spawned {
            Ok(()) => Ok(()),
            Err(e) => Err("start script spawn: "@ + e),
        }
    }
}

/// Judges a run of the start script. Its exit code does not count: the script is its own
/// daemonizer, and what it started is looked for later.
pub fn script_outcome(script: &str, found: bool, spawned: Result<(), String>) -> (r: Result<
    (),
    String,
>)
    ensures
        (match r {
            Ok(()) => Ok(()),
            Err(e) => Err(e@),
        }) == script_text(
            script@,
            found,
            match spawned {
                Ok(()) => Ok(()),
                Err(e) => Err(e@),
            },
        ),
{
    if !found {
        return Err(text::join("start script not found: ", script));
    }
    match spawned {
        Ok(()) => Ok(()),
        Err(e) => Err(text::join("start script spawn: ", e.as_str())),
    }
}

/// The line in a lock file.
pub open spec fn lock_text(pid: u32) -> Seq<char> {
    numeral::decimal(pid as nat) + "\n"@
}

/// What a driver writes into its lock file.
pub fn lock_line(pid: u32) -> (r: String)
    ensures
        r@ == lock_text(pid),
{
    text::join(numeral::write_decimal(pid as u128).as_str(), "\n")
}

/// The pid of another process that a lock file names.
pub open spec fn foreign_holder(content: Option<Seq<char>>, own_pid: u32) -> Option<u32> {
    match content {
        Some(c) => match pid_file_pid(c) {
            Some(pid) => if pid != own_pid {
                Some(pid)
            } else {
                None
            },
            None => None,
        },
        None => None,
    }
}

/// The pid of another process that the lock file names. The lock is taken if that process lives.
pub fn lock_holder(content: Option<&str>, own_pid: u32) -> (r: Option<u32>)
    ensures
        r == foreign_holder(text::opt(content), own_pid),
{
    match content {
        Some(c) => match parse_pid_file(c) {
            Some(pid) => {
                if pid != own_pid {
                    Some(pid)
                } else {
                    None
                }
            },
            None => None,
        },
        None => None,
    }
}

/// The receipt without its line feed: when, the old pid and the new one.
pub open spec fn receipt_body(unix: u64, old_pid: u32, new_pid: u32) -> Seq<char> {
    numeral::decimal(unix as nat) + " "@ + numeral::decimal(old_pid as nat) + " "@
        + numeral::decimal(new_pid as nat)
}

/// What a driver writes for the next boot.
pub fn receipt_line(unix: u64, old_pid: u32, new_pid: u32) -> (r: String)
    ensures
        r@ == receipt_body(unix, old_pid, new_pid) + "\n"@,
{
    let mut out = numeral::write_decimal(unix as u128);
    out.append(" ");
    out.append(numeral::write_decimal(old_pid as u128).as_str());
    out.append(" ");
    out.append(numeral::write_decimal(new_pid as u128).as_str());
    out.append("\n");
    out
}

/// What a boot does about the restart that may lie behind it.
#[derive(Debug, Clone, PartialEq, Eq)]
pub struct BootReceipt {
    /// What the line "restarted by driver" is logged with; nothing where it is not logged.
    pub log: Option<String>,
    /// Whether to remove the receipt file, so that it is logged once.
    pub consume: bool,
}

/// What a receipt says, white space around it aside.
pub open spec fn logged_receipt(content: Option<Seq<char>>) -> Option<Seq<char>> {
    match content {
        Some(c) => if text::trimmed(c).len() > 0 {
            Some(text::trimmed(c))
        } else {
            None
        },
        None => None,
    }
}

/// What a boot logs of the restart behind it: the receipt, or else the driver that is still at
/// work, where the lock file names another process and that process lives.
pub open spec fn boot_log(
    receipt: Option<Seq<char>>,
    lock: Option<Seq<char>>,
    own_pid: u32,
    holder_alive: bool,
) -> Option<Seq<char>> {
    match logged_receipt(receipt) {
        Some(t) => Some(t),
        None => match foreign_holder(lock, own_pid) {
            Some(driver) => if holder_alive {
                Some("driver "@ + numeral::decimal(driver as nat))
            } else {
                None
            },
            None => None,
        },
    }
}

/// Decides what a boot logs of the restart behind it, given the receipt file and the driver's lock
/// file, as far as they could be read, and whether the [`lock_holder`] lives. A daemon can be up
/// before its driver has written the receipt; the live driver then stands for it. A receipt is
/// consumed.
pub fn log_boot_receipt(
    receipt: Option<&str>,
    lock: Option<&str>,
    own_pid: u32,
    holder_alive: bool,
) -> (r: BootReceipt)
    ensures
        text::option_text(r.log) == boot_log(
            text::opt(receipt),
            text::opt(lock),
            own_pid,
            holder_alive,
        ),
        r.log is Some <==> (logged_receipt(text::opt(receipt)) is Some || (foreign_holder(
            text::opt(lock),
            own_pid,
        ) is Some && holder_alive)),
        r.consume == receipt is Some,
{
    let consume = receipt.is_some();
    if let Some(c) = receipt {
        let t = text::trim(c);
        if !t.is_empty() {
            return BootReceipt { log: Some(t.to_owned()), consume };
        }
    }
    let log = match lock_holder(lock, own_pid) {
        Some(driver) => {
            if holder_alive {
                Some(text::join("driver ", numeral::write_decimal(driver as u128).as_str()))
            } else {
                None
            }
        },
        None => None,
    };
    BootReceipt { log, consume }
}

/// Trimming removes a line feed behind text that begins and ends with digits.
proof fn trimmed_line(body: Seq<char>)
    requires
        body.len() > 0,
        numeral::is_digit(body.first()),
        numeral::is_digit(body.last()),
    ensures
        text::trimmed(body + "\n"@) == body,
{
    reveal_strlit("\n");
    let line = body + "\n"@;
    assert(line.first() == body.first());
    assert(line.last() == '\n');
    assert(line.drop_last() =~= body);
    assert(text::trimmed_start(line) == line);
    assert(text::trimmed_end(line) == text::trimmed_end(body));
    assert(text::trimmed_end(body) == body);
}

/// A boot that finds the receipt of a driver logs what the driver wrote, whatever the lock file
/// says.
pub proof fn receipt_round_trip(
    unix: u64,
    old_pid: u32,
    new_pid: u32,
    lock: Option<Seq<char>>,
    own_pid: u32,
    holder_alive: bool,
)
    ensures
        boot_log(
            Some(receipt_body(unix, old_pid, new_pid) + "\n"@),
            lock,
            own_pid,
            holder_alive,
        ) == Some(receipt_body(unix, old_pid, new_pid)),
{
    let body = receipt_body(unix, old_pid, new_pid);
    let ts = numeral::decimal(unix as nat);
    let new = numeral::decimal(new_pid as nat);
    numeral::decimal_is_digits(unix as nat);
    numeral::decimal_is_digits(new_pid as nat);
    assert(body.first() == ts[0]);
    assert(body.last() == new[new.len() - 1]);
    trimmed_line(body);
}

/// A lock file names the driver that wrote it: to any other driver it is a holder to look at, to
/// the writer itself it is not.
pub proof fn lock_round_trip(writer: u32, reader: u32)
    ensures
        foreign_holder(Some(lock_text(writer)), reader) == if writer == reader {
            None
        } else {
            Some(writer)
        },
{
    let body = numeral::decimal(writer as nat);
    numeral::decimal_is_digits(writer as nat);
    assert(numeral::is_digit(body[0]) && numeral::is_digit(body[body.len() - 1]));
    trimmed_line(body);
    numeral::u32_round_trip(writer);
}

/// A restarted daemon logs the restart even where its driver has not written the receipt yet: the
/// lock file still names the driver, and the driver lives. A driver that is gone, or a lock of the
/// daemon's own, is no restart.
pub proof fn live_driver_shows_at_boot(driver: u32, own_pid: u32, holder_alive: bool)
    ensures
        boot_log(None, Some(lock_text(driver)), own_pid, holder_alive) == if driver != own_pid
            && holder_alive {
            Some("driver "@ + numeral::decimal(driver as nat))
        } else {
            None
        },
{
    lock_round_trip(driver, own_pid);
}

// ---- What the decisions promise ----

/// A restart is wanted exactly where a stream message of the owner mentions the agent and says
/// `!restart` and no more: nothing but white space stands before and behind it.
pub proof fn restart_is_said_and_no_more(
    e: event::RecordView,
    kind: u32,
    agent: Seq<char>,
    owner: Option<Seq<char>>,
)
    ensures
        restart_wanted(e, kind, agent, owner) <==> {
            &&& kind == 9
            &&& owner == Some(e.pubkey)
            &&& event::mentions(e, agent)
            &&& exists|a: Seq<char>, b: Seq<char>|
                e.content == #[trigger] text::padded(a, "!restart"@, b) && text::all_white(a)
                    && text::all_white(b)
        },
{
    reveal_strlit("!restart");
    if text::trimmed(e.content) == "!restart"@ {
        let (a, b) = text::trimming_splits(e.content);
        assert(e.content == text::padded(a, "!restart"@, b));
    }
    if exists|a: Seq<char>, b: Seq<char>|
        e.content == #[trigger] text::padded(a, "!restart"@, b) && text::all_white(a)
            && text::all_white(b) {
        let (a, b) = choose|a: Seq<char>, b: Seq<char>|
            e.content == #[trigger] text::padded(a, "!restart"@, b) && text::all_white(a)
                && text::all_white(b);
        text::trimming_undoes_padding(a, "!restart"@, b);
    }
}

/// A setting that is there and holds a character other than white space.
pub open spec fn says_something(s: Option<Seq<char>>) -> bool {
    s matches Some(t) && exists|i: int| 0 <= i < t.len() && !text::white_space(#[trigger] t[i])
}

proof fn set_says_something(s: Option<Seq<char>>)
    ensures
        is_set(s) <==> says_something(s),
{
    if let Some(t) = s {
        text::trimmed_to_nothing(t);
        if !text::all_white(t) {
            let i = choose|i: int| 0 <= i < t.len() && !text::white_space(#[trigger] t[i]);
            assert(!text::white_space(t[i]));
        }
    }
}

/// A start script that says something is never passed over for nothing, and where there is no
/// label it is the target, path for path.
pub proof fn script_is_not_passed_over(
    label: Option<Seq<char>>,
    uid_env: Option<Seq<char>>,
    id_output: Option<Seq<char>>,
    script: Option<Seq<char>>,
)
    requires
        says_something(script),
    ensures
        !(target_of(label, uid_env, id_output, script) is Unset),
        !says_something(label) ==> target_of(label, uid_env, id_output, script)
            == TargetView::Script(script->0),
        target_of(label, uid_env, id_output, script) matches TargetView::Script(path) ==> path
            == script->0,
{
    set_says_something(label);
    set_says_something(script);
}

/// A label that says something is the target, label for label, wherever a user id is to be had: from
/// the environment as it stands there, or else from the output of `id -u` without the white space
/// around it.
pub proof fn label_comes_first(
    label: Seq<char>,
    uid: Seq<char>,
    a: Seq<char>,
    b: Seq<char>,
    id_output: Option<Seq<char>>,
    script: Option<Seq<char>>,
)
    requires
        says_something(Some(label)),
        uid.len() > 0,
    ensures
        target_of(Some(label), Some(uid), id_output, script) == (TargetView::Launchd {
            uid,
            label,
        }),
        text::all_white(a) && text::all_white(b) && text::bare(uid) ==> target_of(
            Some(label),
            None,
            Some(a + uid + b),
            script,
        ) == (TargetView::Launchd { uid, label }),
{
    set_says_something(Some(label));
    if text::all_white(a) && text::all_white(b) && text::bare(uid) {
        text::trimming_undoes_padding(a, uid, b);
    }
}

/// A user id is to be had: a non-empty one from the environment, or, where that holds none, some
/// output of `id -u`.
pub open spec fn uid_is_known(uid_env: Option<Seq<char>>, id_output: Option<Seq<char>>) -> bool {
    match uid_env {
        Some(uid) => uid.len() > 0,
        None => says_something(id_output),
    }
}

/// There is no target exactly where there is neither a label with a user id nor a script, and the
/// launchd mode is taken exactly where there is such a label.
pub proof fn no_target_without_settings(
    label: Option<Seq<char>>,
    uid_env: Option<Seq<char>>,
    id_output: Option<Seq<char>>,
    script: Option<Seq<char>>,
)
    ensures
        target_of(label, uid_env, id_output, script) is Launchd <==> says_something(label)
            && uid_is_known(uid_env, id_output),
        target_of(label, uid_env, id_output, script) is Unset <==> !(says_something(label)
            && uid_is_known(uid_env, id_output)) && !says_something(script),
        target_of(label, uid_env, id_output, script) is Script <==> !(says_something(label)
            && uid_is_known(uid_env, id_output)) && says_something(script),
{
    set_says_something(label);
    set_says_something(script);
    set_says_something(id_output);
}

/// `id -u` is asked exactly where a label says something and the environment holds no user id.
pub proof fn lookup_is_for_labels_without_uid(
    label: Option<Seq<char>>,
    uid_env: Option<Seq<char>>,
)
    ensures
        lookup_matters(label, uid_env) <==> says_something(label) && uid_env is None,
{
    set_says_something(label);
}

/// The daemon's command line, word for word.
pub proof fn command_line_says(uid: Seq<char>, label: Seq<char>, path: Seq<char>, pid: u32)
    ensures
        command_line(TargetView::Launchd { uid, label }, pid) == Some(
            paired(
                seq![
                    ("--restart-driver"@, numeral::decimal(pid as nat)),
                    ("--label"@, label),
                    ("--script"@, "-"@),
                    ("--uid"@, uid),
                ],
            ),
        ),
        command_line(TargetView::Script(path), pid) == Some(
            paired(
                seq![
                    ("--restart-driver"@, numeral::decimal(pid as nat)),
                    ("--label"@, "-"@),
                    ("--script"@, path),
                    ("--uid"@, "-"@),
                ],
            ),
        ),
        command_line(TargetView::Unset, pid) is None,
{
    let a = seq![
        ("--restart-driver"@, numeral::decimal(pid as nat)),
        ("--label"@, label),
        ("--script"@, "-"@),
        ("--uid"@, uid),
    ];
    let b = seq![
        ("--restart-driver"@, numeral::decimal(pid as nat)),
        ("--label"@, "-"@),
        ("--script"@, path),
        ("--uid"@, "-"@),
    ];
    assert(command_line(TargetView::Launchd { uid, label }, pid)->0 =~= paired(a));
    assert(command_line(TargetView::Script(path), pid)->0 =~= paired(b));
}

/// A further flag changes what a driver is told by that flag alone, and to that value.
pub proof fn further_flag_counts(
    pairs: Seq<(Seq<char>, Seq<char>)>,
    value: Seq<char>,
    told: ArgsView,
)
    requires
        all_flags(pairs),
        args_of(paired(pairs)) == Ok::<ArgsView, ArgErrorView>(told),
    ensures
        args_of(paired(pairs.push(("--label"@, value)))) == Ok::<ArgsView, ArgErrorView>(
            ArgsView { label: value, ..told },
        ),
        args_of(paired(pairs.push(("--script"@, value)))) == Ok::<ArgsView, ArgErrorView>(
            ArgsView { script: value, ..told },
        ),
        args_of(paired(pairs.push(("--uid"@, value)))) == Ok::<ArgsView, ArgErrorView>(
            ArgsView { uid: value, ..told },
        ),
        args_of(paired(pairs.push(("--restart-driver"@, value)))) == match numeral::u32_of(value) {
            Some(parent_pid) => Ok::<ArgsView, ArgErrorView>(ArgsView { parent_pid, ..told }),
            None => Err::<ArgsView, ArgErrorView>(ArgErrorView::NoValidPid),
        },
{
    flags_differ();
    last_values_count(pairs);
    further_flag_is_last(pairs, "--label"@, value);
    further_flag_is_last(pairs, "--script"@, value);
    further_flag_is_last(pairs, "--uid"@, value);
    further_flag_is_last(pairs, "--restart-driver"@, value);
}

proof fn further_flag_is_last(
    pairs: Seq<(Seq<char>, Seq<char>)>,
    flag: Seq<char>,
    value: Seq<char>,
)
    requires
        all_flags(pairs),
        flag == "--restart-driver"@ || flag == "--label"@ || flag == "--script"@ || flag
            == "--uid"@,
    ensures
        ({
            let more = pairs.push((flag, value));
            &&& all_flags(more)
            &&& last_given(more, flag) == Some(value)
            &&& forall|other: Seq<char>|
                other != flag ==> #[trigger] last_given(more, other) == last_given(pairs, other)
            &&& args_of(paired(more)) == match last_given(more, DRIVER_ARG@) {
                Some(v) => match numeral::u32_of(v) {
                    Some(parent_pid) => Ok(
                        ArgsView {
                            parent_pid,
                            label: last_given(more, "--label"@).unwrap_or("-"@),
                            script: last_given(more, "--script"@).unwrap_or("-"@),
                            uid: last_given(more, "--uid"@).unwrap_or("-"@),
                        },
                    ),
                    None => Err(ArgErrorView::NoValidPid),
                },
                None => Err(ArgErrorView::NoValidPid),
            }
        }),
{
    let more = pairs.push((flag, value));
    assert(more.drop_last() =~= pairs);
    assert forall|i: int| 0 <= i < more.len() implies {
        let f = (#[trigger] more[i]).0;
        f == "--restart-driver"@ || f == "--label"@ || f == "--script"@ || f == "--uid"@
    } by {
        if i < pairs.len() {
            assert(more[i] == pairs[i]);
        }
    }
    last_values_count(more);
}

/// A pid alone is told with hyphens for the rest, and without one nothing is told.
pub proof fn pid_is_needed(pairs: Seq<(Seq<char>, Seq<char>)>, pid: u32)
    ensures
        args_of(paired(seq![("--restart-driver"@, numeral::decimal(pid as nat))])) == Ok::<
            ArgsView,
            ArgErrorView,
        >(ArgsView { parent_pid: pid, label: "-"@, script: "-"@, uid: "-"@ }),
        all_flags(pairs) && (forall|i: int|
            0 <= i < pairs.len() ==> (#[trigger] pairs[i]).0 != "--restart-driver"@) ==> args_of(
            paired(pairs),
        ) == Err::<ArgsView, ArgErrorView>(ArgErrorView::NoValidPid),
{
    let one = seq![("--restart-driver"@, numeral::decimal(pid as nat))];
    flags_differ();
    numeral::u32_round_trip(pid);
    reveal_with_fuel(last_given, 2);
    last_values_count(one);
    if all_flags(pairs) && (forall|i: int|
        0 <= i < pairs.len() ==> (#[trigger] pairs[i]).0 != "--restart-driver"@) {
        last_values_count(pairs);
        last_given_is_there(pairs, "--restart-driver"@);
        if let Some(v) = last_given(pairs, "--restart-driver"@) {
            let i = choose|i: int|
                0 <= i < pairs.len() && pairs[i] == ("--restart-driver"@, v);
            assert(pairs[i].0 == "--restart-driver"@);
        }
    }
}

proof fn bad_place_is_found(
    pairs: Seq<(Seq<char>, Seq<char>)>,
    arg: Seq<char>,
    rest: Seq<Seq<char>>,
    k: int,
)
    requires
        all_flags(pairs),
        0 <= k <= pairs.len(),
        !is_flag(arg) || rest.len() == 0,
    ensures
        first_bad(paired(pairs) + seq![arg] + rest, 2 * k) == Some(2 * pairs.len() as int),
    decreases pairs.len() - k,
{
    let args = paired(pairs) + seq![arg] + rest;
    if k < pairs.len() {
        assert(args[2 * k] == pairs[k].0);
        bad_place_is_found(pairs, arg, rest, k + 1);
    } else {
        assert(args[2 * k] == arg);
    }
}

/// An argument that is none of the flags is refused by name, whatever stands before and behind it.
/// A flag that stands last, without a value, is refused too, and for the pid flag it is said that
/// the pid is missing.
pub proof fn misplaced_arguments_are_refused(
    pairs: Seq<(Seq<char>, Seq<char>)>,
    arg: Seq<char>,
    rest: Seq<Seq<char>>,
)
    requires
        all_flags(pairs),
    ensures
        arg != "--restart-driver"@ && arg != "--label"@ && arg != "--script"@ && arg != "--uid"@
            ==> args_of(paired(pairs) + seq![arg] + rest) == Err::<ArgsView, ArgErrorView>(
            ArgErrorView::Unexpected(arg),
        ),
        arg == "--label"@ || arg == "--script"@ || arg == "--uid"@ ==> args_of(
            paired(pairs) + seq![arg],
        ) == Err::<ArgsView, ArgErrorView>(ArgErrorView::Unexpected(arg)),
        args_of(paired(pairs) + seq!["--restart-driver"@]) == Err::<ArgsView, ArgErrorView>(
            ArgErrorView::MissingPid,
        ),
{
    let none = Seq::<Seq<char>>::empty();
    let at = 2 * pairs.len() as int;
    flags_differ();
    if !is_flag(arg) {
        bad_place_is_found(pairs, arg, rest, 0);
        assert((paired(pairs) + seq![arg] + rest)[at] == arg);
    } else {
        bad_place_is_found(pairs, arg, none, 0);
        assert(paired(pairs) + seq![arg] + none =~= paired(pairs) + seq![arg]);
        assert((paired(pairs) + seq![arg])[at] == arg);
    }
    bad_place_is_found(pairs, "--restart-driver"@, none, 0);
    assert(paired(pairs) + seq!["--restart-driver"@] + none =~= paired(pairs)
        + seq!["--restart-driver"@]);
    assert((paired(pairs) + seq!["--restart-driver"@])[at] == "--restart-driver"@);
}

/// What is told is started: the label where there is one, else the script, else nothing. A hyphen
/// is none.
pub proof fn told_is_started(args: ArgsView)
    ensures
        args.label != "-"@ ==> told_target(args) == (TargetView::Launchd {
            uid: args.uid,
            label: args.label,
        }),
        args.label == "-"@ && args.script != "-"@ ==> told_target(args) == TargetView::Script(
            args.script,
        ),
        args.label == "-"@ && args.script == "-"@ ==> told_target(args) is Unset,
{
}

/// The lines for refused command lines, word for word.
pub proof fn refusals_say(arg: Seq<char>)
    ensures
        arg_error_text(ArgErrorView::MissingPid) == "restart-driver: missing pid after "@
            + "--restart-driver"@,
        arg_error_text(ArgErrorView::Unexpected(arg)) == "restart-driver: unexpected arg "@ + arg,
        arg_error_text(ArgErrorView::NoValidPid) == "restart-driver: no valid pid"@,
{
}

/// A service is named by user id and label.
pub proof fn service_names_user_and_label(uid: Seq<char>, label: Seq<char>)
    ensures
        service_text(uid, label) == "gui/"@ + uid + seq!['/'] + label,
{
    reveal_strlit("/");
    assert("/"@ =~= seq!['/']);
}

/// A pid file is read by the number in it, whatever white space stands around, and holds no pid
/// where it holds anything else.
pub proof fn pid_files_are_read(a: Seq<char>, t: Seq<char>, b: Seq<char>, pid: u32)
    requires
        text::all_white(a),
        text::all_white(b),
    ensures
        pid_file_pid(a + numeral::decimal(pid as nat) + b) == Some(pid),
        text::bare(t) ==> pid_file_pid(a + t + b) == numeral::u32_of(t),
{
    numeral_is_bare(pid);
    text::trimming_undoes_padding(a, numeral::decimal(pid as nat), b);
    numeral::u32_round_trip(pid);
    if text::bare(t) {
        text::trimming_undoes_padding(a, t, b);
    }
}

proof fn numeral_is_bare(n: u32)
    ensures
        text::bare(numeral::decimal(n as nat)),
{
    let d = numeral::decimal(n as nat);
    numeral::decimal_is_digits(n as nat);
    assert(numeral::is_digit(d[0]) && numeral::is_digit(d[d.len() - 1]));
}

/// A line names a pid where it reads `pid = ` and a number, white space around either aside.
pub proof fn pid_lines_are_read(
    a: Seq<char>,
    b: Seq<char>,
    c: Seq<char>,
    pid: u32,
)
    requires
        text::all_white(a),
        text::all_white(b),
        text::all_white(c),
    ensures
        line_pid(a + "pid = "@ + b + numeral::decimal(pid as nat) + c) == Some(pid),
{
    reveal_strlit("pid = ");
    let d = numeral::decimal(pid as nat);
    numeral_is_bare(pid);
    numeral::decimal_is_digits(pid as nat);
    let t = "pid = "@ + b + d;
    assert(t[0] == 'p');
    assert(t[t.len() - 1] == d[d.len() - 1]);
    assert(a + "pid = "@ + b + d + c =~= a + t + c);
    text::trimming_undoes_padding(a, t, c);
    assert(t =~= "pid = "@ + (b + d));
    text::prefix_comes_off(t, "pid = "@, b + d);
    let e = Seq::<char>::empty();
    text::trimming_undoes_padding(b, d, e);
    assert(b + d + e =~= b + d);
    numeral::u32_round_trip(pid);
}

/// No other line names one: without the white space at its ends it begins with `pid = `, and what
/// follows reads as that number.
pub proof fn only_pid_lines_are_read(line: Seq<char>, pid: u32)
    requires
        line_pid(line) == Some(pid),
    ensures
        exists|a: Seq<char>, v: Seq<char>, b: Seq<char>|
            line == #[trigger] text::padded(a, "pid = "@ + v, b) && text::all_white(a)
                && text::all_white(b) && pid_file_pid(v) == Some(pid),
{
    let t = text::trimmed(line);
    let (a, b) = text::trimming_splits(line);
    let v = text::after_prefix(t, "pid = "@)->0;
    text::prefix_comes_off(t, "pid = "@, v);
    assert(line == text::padded(a, "pid = "@ + v, b));
}

proof fn line_ends_at_its_feed(line: Seq<char>, rest: Seq<char>, i: int)
    requires
        0 <= i <= line.len(),
        !line.contains('\n'),
        rest.len() > 0 ==> rest[0] == '\n',
    ensures
        line_end(line + rest, i) == line.len(),
    decreases line.len() - i,
{
    if i < line.len() {
        assert((line + rest)[i] == line[i]);
        assert(line.contains(line[i]));
        line_ends_at_its_feed(line, rest, i + 1);
    }
}

proof fn line_end_moves_along(front: Seq<char>, s: Seq<char>, i: int)
    requires
        0 <= i <= s.len(),
    ensures
        line_end(front + s, front.len() + i) == front.len() + line_end(s, i),
    decreases s.len() - i,
{
    if i < s.len() {
        assert((front + s)[front.len() + i] == s[i]);
        if s[i] != '\n' {
            line_end_moves_along(front, s, i + 1);
        }
    }
}

proof fn later_lines_stand_alone(front: Seq<char>, s: Seq<char>, i: int)
    requires
        0 <= i <= s.len(),
    ensures
        first_line_pid(front + s, front.len() + i) == first_line_pid(s, i),
    decreases s.len() - i,
{
    if i < s.len() {
        let whole = front + s;
        let end = line_end(s, i);
        line_end_bounds(s, i);
        line_end_moves_along(front, s, i);
        assert(whole.subrange(front.len() + i, front.len() + end) =~= s.subrange(i, end));
        if end < s.len() {
            later_lines_stand_alone(front, s, end + 1);
        }
    }
}

/// The output of `launchctl print` is read line by line, and the first line that names a pid
/// counts: a line that does decides, and one that does not leaves it to the rest.
pub proof fn first_pid_line_counts(line: Seq<char>, rest: Seq<char>)
    requires
        !line.contains('\n'),
    ensures
        first_line_pid(Seq::empty(), 0) is None,
        line_pid(line) is Some ==> first_line_pid(line.push('\n') + rest, 0) == line_pid(line),
        line_pid(line) is None ==> first_line_pid(line.push('\n') + rest, 0) == first_line_pid(
            rest,
            0,
        ),
        line.len() > 0 ==> first_line_pid(line, 0) == line_pid(line),
{
    let none = Seq::<char>::empty();
    let front = line.push('\n');
    let feed = seq!['\n'] + rest;
    let whole = front + rest;
    assert(whole =~= line + feed);
    line_ends_at_its_feed(line, feed, 0);
    assert(whole.subrange(0, line.len() as int) =~= line);
    later_lines_stand_alone(front, rest, 0);
    if line.len() > 0 {
        line_ends_at_its_feed(line, none, 0);
        assert(line + none =~= line);
        assert(line.subrange(0, line.len() as int) =~= line);
    }
}

/// A launch is judged by whether it worked: what failed is told with the error or the exit code,
/// which is -1 where there is none. A script's own exit does not count.
pub proof fn launches_are_judged(
    code: Option<i32>,
    error: Seq<char>,
    script: Seq<char>,
    spawned: Result<(), Seq<char>>,
)
    ensures
        kickstart_text(Ok((true, code))) == Ok::<(), Seq<char>>(()),
        kickstart_text(Ok((false, code))) == Err::<(), Seq<char>>(
            "launchctl kickstart exited "@ + numeral::signed_decimal(
                if code is Some {
                    code->0 as int
                } else {
                    -1
                },
            ),
        ),
        kickstart_text(Err(error)) == Err::<(), Seq<char>>("launchctl spawn: "@ + error),
        script_text(script, false, spawned) == Err::<(), Seq<char>>(
            "start script not found: "@ + script,
        ),
        script_text(script, true, Ok(())) == Ok::<(), Seq<char>>(()),
        script_text(script, true, Err(error)) == Err::<(), Seq<char>>(
            "start script spawn: "@ + error,
        ),
{
}

/// The lines in the lock file and in the receipt, word for word.
pub proof fn files_say(pid: u32, unix: u64, old_pid: u32, new_pid: u32)
    ensures
        lock_text(pid) == numeral::decimal(pid as nat).push('\n'),
        receipt_body(unix, old_pid, new_pid) == numeral::decimal(unix as nat) + seq![' ']
            + numeral::decimal(old_pid as nat) + seq![' '] + numeral::decimal(new_pid as nat),
{
    reveal_strlit("\n");
    reveal_strlit(" ");
    assert(" "@ =~= seq![' ']);
    assert(lock_text(pid) =~= numeral::decimal(pid as nat).push('\n'));
}

/// A file that holds another process's pid names it, white space around it aside; a file that is not
/// there, holds no pid, or holds one's own names nobody.
pub proof fn holders_are_others(content: Seq<char>, pid: u32, own_pid: u32)
    ensures
        foreign_holder(None, own_pid) is None,
        foreign_holder(Some(content), own_pid) == Some(pid) <==> pid_file_pid(content) == Some(pid)
            && pid != own_pid,
{
}

/// A boot logs one thing at most: a receipt that says something, without the white space around it;
/// else the live process that the lock file names, if it is another; else nothing.
pub proof fn boots_log_their_restart(
    a: Seq<char>,
    t: Seq<char>,
    b: Seq<char>,
    receipt: Option<Seq<char>>,
    lock: Option<Seq<char>>,
    own_pid: u32,
    alive: bool,
)
    requires
        text::all_white(a),
        text::all_white(b),
        text::bare(t),
    ensures
        t.len() > 0 ==> boot_log(Some(a + t + b), lock, own_pid, alive) == Some(t),
        !says_something(receipt) && foreign_holder(lock, own_pid) is Some && alive ==> boot_log(
            receipt,
            lock,
            own_pid,
            alive,
        ) == Some("driver "@ + numeral::decimal(foreign_holder(lock, own_pid)->0 as nat)),
        !says_something(receipt) && !(foreign_holder(lock, own_pid) is Some && alive) ==> boot_log(
            receipt,
            lock,
            own_pid,
            alive,
        ) is None,
        logged_receipt(receipt) is Some <==> says_something(receipt),
{
    text::trimming_undoes_padding(a, t, b);
    set_says_something(receipt);
}

/// Targets, arguments and refusals are seen by what they hold.
pub proof fn values_are_seen_whole(target: RespawnTarget, args: DriverArgs, error: DriverArgError)
    ensures
        target matches RespawnTarget::Launchd { uid, label } ==> target@ == (TargetView::Launchd {
            uid: uid@,
            label: label@,
        }),
        target matches RespawnTarget::Script(path) ==> target@ == TargetView::Script(path@),
        target is Unset <==> target@ is Unset,
        args@ == (ArgsView {
            parent_pid: args.parent_pid,
            label: args.label@,
            script: args.script@,
            uid: args.uid@,
        }),
        error is MissingPid <==> error@ is MissingPid,
        error matches DriverArgError::Unexpected(arg) ==> error@ == ArgErrorView::Unexpected(arg@),
        error is NoValidPid <==> error@ is NoValidPid,
{
}

} // verus!
